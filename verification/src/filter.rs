use vstd::prelude::*;
use crate::entry::{views, EntryV, FileEntry};
use crate::matching::{glob_matches, Matcher};

verus! {

/// At most one pattern steers a filter: none at all, an include pattern that
/// keeps only what it matches, or an exclude pattern that keeps only what it
/// does not match. The mutual exclusion of the two patterns is structural.
pub enum FilterChoice {
    Unfiltered,
    Include(Matcher),
    Exclude(Matcher),
}

/// Whether a file at the given canonical path is kept by the filter.
pub open spec fn keeps(c: FilterChoice, path: Seq<char>) -> bool {
    match c {
        FilterChoice::Unfiltered => true,
        FilterChoice::Include(m) => glob_matches(m.pattern_view(), path),
        FilterChoice::Exclude(m) => !glob_matches(m.pattern_view(), path),
    }
}

/// The subsequence of entries kept by the filter, in their original order.
pub open spec fn spec_filter(s: Seq<EntryV>, c: FilterChoice) -> Seq<EntryV>
    decreases s.len(),
{
    if s.len() == 0 {
        Seq::empty()
    } else {
        spec_filter(s.drop_last(), c) + (if keeps(c, s.last().path) {
            seq![s.last()]
        } else {
            Seq::empty()
        })
    }
}

/// Whether a file at the given canonical path is kept by the filter.
pub fn keeps_path(c: &FilterChoice, path: &str) -> (r: bool)
    ensures
        r == keeps(*c, path@),
{
    match c {
        FilterChoice::Unfiltered => true,
        FilterChoice::Include(m) => m.matches(path),
        FilterChoice::Exclude(m) => !m.matches(path),
    }
}

/// Keeps the entries that match an include pattern, or the entries that do
/// not match an exclude pattern, or every entry when no pattern is given.
pub fn file_filter(entries: &Vec<FileEntry>, choice: &FilterChoice) -> (r: Vec<FileEntry>)
    ensures
        views(r@) == spec_filter(views(entries@), *choice),
{
    let ghost s = views(entries@);
    let mut out: Vec<FileEntry> = Vec::new();
    let mut i: usize = 0;
    while i < entries.len()
        invariant
            i <= entries@.len(),
            s == views(entries@),
            s.len() == entries@.len(),
            views(out@) == spec_filter(s.take(i as int), *choice),
        decreases entries@.len() - i,
    {
        proof {
            assert(s.take(i as int + 1).drop_last() =~= s.take(i as int));
            assert(s.take(i as int + 1).last() == s[i as int]);
        }
        if keeps_path(choice, entries[i].path.as_str()) {
            let e = entries[i].duplicate();
            out.push(e);
            proof {
                assert(views(out@) =~= spec_filter(s.take(i as int + 1), *choice));
            }
        } else {
            proof {
                assert(views(out@) =~= spec_filter(s.take(i as int + 1), *choice));
            }
        }
        i = i + 1;
    }
    proof {
        assert(s.take(entries@.len() as int) =~= s);
    }
    out
}

/// With no pattern configured, a filter keeps the full scan: the scope and
/// the eligible set both equal the scanned sequence.
pub proof fn lemma_unfiltered_keeps_all(s: Seq<EntryV>)
    ensures
        spec_filter(s, FilterChoice::Unfiltered) == s,
    decreases s.len(),
{
    if s.len() > 0 {
        lemma_unfiltered_keeps_all(s.drop_last());
        assert(spec_filter(s, FilterChoice::Unfiltered) =~= s);
    } else {
        assert(spec_filter(s, FilterChoice::Unfiltered) =~= s);
    }
}

/// A filter that keeps no entry, such as a protect pattern that matches every
/// file, leaves the eligible set empty.
pub proof fn lemma_keeps_nothing_empty(s: Seq<EntryV>, c: FilterChoice)
    ensures
        (forall|i: int| 0 <= i < s.len() ==> !keeps(c, s[i].path)) ==> spec_filter(s, c)
            == Seq::<EntryV>::empty(),
    decreases s.len(),
{
    if s.len() > 0 {
        lemma_keeps_nothing_empty(s.drop_last(), c);
        if forall|i: int| 0 <= i < s.len() ==> !keeps(c, s[i].path) {
            assert(forall|i: int|
                0 <= i < s.drop_last().len() ==> !keeps(c, s.drop_last()[i].path));
            assert(spec_filter(s, c) =~= Seq::<EntryV>::empty());
        }
    }
}

} // verus!
