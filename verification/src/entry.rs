use vstd::prelude::*;

verus! {

/// One regular file found by the scanner: its canonical absolute path, its
/// size in bytes, and its last-modified timestamp, all read once at scan time.
pub struct FileEntry {
    pub path: String,
    pub size: u64,
    pub modified: u64,
}

/// The mathematical model of a `FileEntry`: the path as a character sequence
/// beside the two scalar fields.
pub ghost struct EntryV {
    pub path: Seq<char>,
    pub size: u64,
    pub modified: u64,
}

impl View for FileEntry {
    type V = EntryV;

    open spec fn view(&self) -> EntryV {
        EntryV { path: self.path@, size: self.size, modified: self.modified }
    }
}

/// The models of a sequence of entries, in order.
pub open spec fn views(s: Seq<FileEntry>) -> Seq<EntryV> {
    s.map_values(|e: FileEntry| e@)
}

/// The exact total size of the entries, as an unbounded integer.
pub open spec fn spec_sum(s: Seq<EntryV>) -> int
    decreases s.len(),
{
    if s.len() == 0 {
        0
    } else {
        spec_sum(s.drop_last()) + s.last().size
    }
}

/// A nonnegative integer clamped to the largest `u64` value.
pub open spec fn sat64(n: int) -> u64 {
    if n > u64::MAX {
        u64::MAX as u64
    } else if n < 0 {
        0u64
    } else {
        n as u64
    }
}

impl FileEntry {
    /// A copy of the entry with the same model.
    pub fn duplicate(&self) -> (r: FileEntry)
        ensures
            r@ == self@,
    {
        FileEntry { path: self.path.clone(), size: self.size, modified: self.modified }
    }
}

pub proof fn lemma_sum_concat(a: Seq<EntryV>, b: Seq<EntryV>)
    ensures
        spec_sum(a + b) == spec_sum(a) + spec_sum(b),
    decreases b.len(),
{
    if b.len() == 0 {
        assert(a + b =~= a);
    } else {
        assert((a + b).drop_last() =~= a + b.drop_last());
        assert((a + b).last() == b.last());
        lemma_sum_concat(a, b.drop_last());
    }
}

pub proof fn lemma_sum_nonneg(s: Seq<EntryV>)
    ensures
        spec_sum(s) >= 0,
    decreases s.len(),
{
    if s.len() > 0 {
        lemma_sum_nonneg(s.drop_last());
    }
}

/// The total size of the given entries, saturating at the largest `u64`
/// value instead of overflowing.
pub fn total_size(entries: &Vec<FileEntry>) -> (r: u64)
    ensures
        r == sat64(spec_sum(views(entries@))),
{
    let ghost s = views(entries@);
    let mut acc: u64 = 0;
    let mut i: usize = 0;
    while i < entries.len()
        invariant
            i <= entries@.len(),
            s == views(entries@),
            s.len() == entries@.len(),
            acc == sat64(spec_sum(s.take(i as int))),
        decreases entries@.len() - i,
    {
        let size = entries[i].size;
        proof {
            assert(s.take(i as int + 1).drop_last() =~= s.take(i as int));
            assert(s.take(i as int + 1).last() == s[i as int]);
            lemma_sum_nonneg(s.take(i as int));
        }
        acc = if u64::MAX - acc >= size {
            acc + size
        } else {
            u64::MAX
        };
        i = i + 1;
    }
    proof {
        assert(s.take(entries@.len() as int) =~= s);
    }
    acc
}

} // verus!
