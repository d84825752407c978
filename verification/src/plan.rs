use vstd::prelude::*;
use crate::entry::{sat64, spec_sum, total_size, views, EntryV, FileEntry};
use crate::filter::{file_filter, spec_filter, FilterChoice};

verus! {

/// Entries in non-decreasing order of modification time: oldest first.
pub open spec fn sorted_by_age(s: Seq<EntryV>) -> bool {
    forall|i: int, j: int| 0 <= i < j < s.len() ==> s[i].modified <= s[j].modified
}

/// Inserts an entry after every entry that is at most as new: the stable
/// insertion step of an oldest-first insertion sort.
pub open spec fn insert_by_age(e: EntryV, s: Seq<EntryV>) -> Seq<EntryV>
    decreases s.len(),
{
    if s.len() == 0 {
        seq![e]
    } else if s[0].modified <= e.modified {
        seq![s[0]] + insert_by_age(e, s.drop_first())
    } else {
        seq![e] + s
    }
}

/// The entries in oldest-first order, by stable insertion sort.
pub open spec fn spec_sort(s: Seq<EntryV>) -> Seq<EntryV>
    decreases s.len(),
{
    if s.len() == 0 {
        Seq::empty()
    } else {
        insert_by_age(s.last(), spec_sort(s.drop_last()))
    }
}

/// The greedy plan: walk the entries in the order given, accumulating sizes,
/// and stop as soon as the running total reaches what must be freed, or when
/// the entries run out.
pub open spec fn spec_plan(s: Seq<EntryV>, need: int) -> Seq<EntryV>
    decreases s.len(),
{
    if need <= 0 || s.len() == 0 {
        Seq::empty()
    } else {
        seq![s[0]] + spec_plan(s.drop_first(), need - s[0].size)
    }
}

/// The paths of the planned entries, in deletion order.
pub open spec fn plan_paths(s: Seq<EntryV>) -> Seq<Seq<char>> {
    s.map_values(|e: EntryV| e.path)
}

/// The views of a sequence of path strings.
pub open spec fn str_views(s: Seq<String>) -> Seq<Seq<char>> {
    s.map_values(|t: String| t@)
}

proof fn lemma_insert_at(e: EntryV, s: Seq<EntryV>, j: int)
    requires
        0 <= j <= s.len(),
        forall|k: int| 0 <= k < j ==> s[k].modified <= e.modified,
        j < s.len() ==> s[j].modified > e.modified,
    ensures
        insert_by_age(e, s) == s.take(j) + seq![e] + s.skip(j),
    decreases s.len(),
{
    if s.len() == 0 {
        assert(insert_by_age(e, s) =~= s.take(j) + seq![e] + s.skip(j));
    } else if j == 0 {
        assert(insert_by_age(e, s) =~= s.take(j) + seq![e] + s.skip(j));
    } else {
        assert(s[0].modified <= e.modified);
        assert(forall|k: int| 0 <= k < j - 1 ==> s.drop_first()[k].modified <= e.modified);
        lemma_insert_at(e, s.drop_first(), j - 1);
        assert(insert_by_age(e, s) =~= s.take(j) + seq![e] + s.skip(j));
    }
}

proof fn lemma_insert_sorted(e: EntryV, s: Seq<EntryV>)
    requires
        sorted_by_age(s),
    ensures
        sorted_by_age(insert_by_age(e, s)),
        insert_by_age(e, s).len() == s.len() + 1,
        insert_by_age(e, s)[0] == e || insert_by_age(e, s)[0] == s[0],
    decreases s.len(),
{
    if s.len() == 0 {
    } else if s[0].modified <= e.modified {
        assert(sorted_by_age(s.drop_first()));
        lemma_insert_sorted(e, s.drop_first());
        let rest = insert_by_age(e, s.drop_first());
        assert(rest[0] == e || rest[0] == s.drop_first()[0]);
        assert(s[0].modified <= rest[0].modified);
        let r = insert_by_age(e, s);
        assert(forall|k: int| 0 <= k < rest.len() ==> r[k + 1] == rest[k]);
        assert forall|i: int, j: int| 0 <= i < j < r.len() implies r[i].modified
            <= r[j].modified by {
            if i > 0 {
                assert(r[i] == rest[i - 1]);
                assert(r[j] == rest[j - 1]);
            } else {
                assert(r[j] == rest[j - 1]);
                if j - 1 > 0 {
                    assert(rest[0].modified <= rest[j - 1].modified);
                }
            }
        }
    } else {
    }
}

/// The sorted sequence is oldest-first.
pub proof fn lemma_sort_sorted(s: Seq<EntryV>)
    ensures
        sorted_by_age(spec_sort(s)),
        spec_sort(s).len() == s.len(),
    decreases s.len(),
{
    if s.len() > 0 {
        lemma_sort_sorted(s.drop_last());
        lemma_insert_sorted(s.last(), spec_sort(s.drop_last()));
    }
}

/// Sorts the entries oldest-first, keeping the given order among entries
/// modified at the same time.
pub fn sort_by_age(entries: &Vec<FileEntry>) -> (r: Vec<FileEntry>)
    ensures
        views(r@) == spec_sort(views(entries@)),
{
    let ghost s = views(entries@);
    let mut out: Vec<FileEntry> = Vec::new();
    let mut i: usize = 0;
    while i < entries.len()
        invariant
            i <= entries@.len(),
            s == views(entries@),
            s.len() == entries@.len(),
            views(out@) == spec_sort(s.take(i as int)),
            out@.len() == i,
        decreases entries@.len() - i,
    {
        let e = entries[i].duplicate();
        let mut j: usize = 0;
        while j < out.len() && out[j].modified <= e.modified
            invariant
                j <= out@.len(),
                e@ == s[i as int],
                forall|k: int| 0 <= k < j ==> views(out@)[k].modified <= e@.modified,
            decreases out@.len() - j,
        {
            j = j + 1;
        }
        let ghost ov = views(out@);
        out.insert(j, e);
        proof {
            lemma_insert_at(e@, ov, j as int);
            assert(views(out@) =~= ov.take(j as int) + seq![e@] + ov.skip(j as int));
            assert(s.take(i as int + 1).drop_last() =~= s.take(i as int));
            assert(s.take(i as int + 1).last() == s[i as int]);
        }
        i = i + 1;
    }
    proof {
        assert(s.take(entries@.len() as int) =~= s);
    }
    out
}

/// The plan never selects more entries than the minimum prefix of the given
/// order whose cumulative size reaches what must be freed; its cumulative
/// size reaches that threshold unless it consumed every entry.
pub proof fn lemma_plan_properties(s: Seq<EntryV>, need: int)
    ensures
        spec_plan(s, need).len() <= s.len(),
        spec_plan(s, need) == s.take(spec_plan(s, need).len() as int),
        spec_sum(spec_plan(s, need)) >= need || spec_plan(s, need) == s,
        forall|k: int| 0 <= k < spec_plan(s, need).len() ==> spec_sum(s.take(k)) < need,
    decreases s.len(),
{
    let p = spec_plan(s, need);
    if p.len() == s.len() {
        assert(s.take(s.len() as int) =~= s);
    }
    if need <= 0 || s.len() == 0 {
        assert(p =~= s.take(p.len() as int));
    } else {
        let df = s.drop_first();
        let p2 = spec_plan(df, need - s[0].size);
        lemma_plan_properties(df, need - s[0].size);
        crate::entry::lemma_sum_concat(seq![s[0]], p2);
        assert(spec_sum(seq![s[0]]) == s[0].size as int) by {
            let one = seq![s[0]];
            assert(one.len() == 1);
            assert(one.last() == s[0]);
            assert(one.drop_last() =~= Seq::<EntryV>::empty());
            assert(spec_sum(Seq::<EntryV>::empty()) == 0);
        }
        assert(p =~= s.take(p.len() as int)) by {
            assert(p2 == df.take(p2.len() as int));
        }
        assert forall|k: int| 0 <= k < p.len() implies spec_sum(s.take(k)) < need by {
            if k > 0 {
                assert(spec_sum(df.take(k - 1)) < need - s[0].size);
                assert(s.take(k).drop_first() =~= df.take(k - 1));
                crate::entry::lemma_sum_concat(seq![s[0]], df.take(k - 1));
                assert(s.take(k) =~= seq![s[0]] + df.take(k - 1));
            } else {
                assert(s.take(0) =~= Seq::<EntryV>::empty());
            }
        }
    }
}

/// Nothing to free means an empty plan, whatever the eligible entries are.
pub proof fn lemma_zero_need_empty_plan(s: Seq<EntryV>, need: int)
    ensures
        need <= 0 ==> spec_plan(s, need) == Seq::<EntryV>::empty(),
{
}

fn plan_from(entries: &Vec<FileEntry>, i: usize, need: u64, out: &mut Vec<String>)
    requires
        i <= entries@.len(),
    ensures
        str_views(final(out)@) == str_views(old(out)@) + plan_paths(
            spec_plan(views(entries@).skip(i as int), need as int),
        ),
    decreases entries@.len() - i,
{
    let ghost s = views(entries@);
    if need == 0 || i == entries.len() {
        proof {
            assert(str_views(out@) =~= str_views(out@) + plan_paths(
                spec_plan(s.skip(i as int), need as int),
            ));
        }
    } else {
        let sz = entries[i].size;
        let p = entries[i].path.clone();
        let ghost before = out@;
        out.push(p);
        proof {
            assert(str_views(out@) =~= str_views(before) + seq![s[i as int].path]);
        }
        let next: u64 = if sz >= need {
            0
        } else {
            need - sz
        };
        plan_from(entries, i + 1, next, out);
        proof {
            let tail = s.skip(i as int + 1);
            assert(s.skip(i as int).drop_first() =~= tail);
            assert(s.skip(i as int)[0] == s[i as int]);
            assert(spec_plan(tail, next as int) == spec_plan(tail, need - sz)) by {
                if sz >= need {
                    assert(spec_plan(tail, next as int) == Seq::<EntryV>::empty());
                    assert(spec_plan(tail, need - sz) == Seq::<EntryV>::empty());
                }
            }
            assert(spec_plan(s.skip(i as int), need as int) == seq![s[i as int]] + spec_plan(
                tail,
                need - sz,
            ));
            assert(str_views(out@) =~= str_views(before) + plan_paths(
                spec_plan(s.skip(i as int), need as int),
            ));
        }
    }
}

/// The ordered deletion plan: the shortest prefix of the entries, taken in
/// the order given, whose cumulative size reaches `size_to_free`; the whole
/// sequence if its total falls short; empty when nothing must be freed.
pub fn register_operations(entries: &Vec<FileEntry>, size_to_free: u64) -> (r: Vec<String>)
    ensures
        str_views(r@) == plan_paths(spec_plan(views(entries@), size_to_free as int)),
{
    let mut out: Vec<String> = Vec::new();
    proof {
        assert(str_views(out@) =~= Seq::<Seq<char>>::empty());
    }
    plan_from(entries, 0, size_to_free, &mut out);
    proof {
        assert(views(entries@).skip(0) =~= views(entries@));
        assert(Seq::<Seq<char>>::empty() + plan_paths(spec_plan(views(entries@), size_to_free as int))
            =~= plan_paths(spec_plan(views(entries@), size_to_free as int)));
    }
    out
}

/// How many bytes must be freed: how far the scoped total exceeds the budget.
pub open spec fn spec_size_to_free(files: Seq<EntryV>, max_size: u64, scope: FilterChoice) -> u64 {
    let total = sat64(spec_sum(spec_filter(files, scope)));
    if total >= max_size {
        (total - max_size) as u64
    } else {
        0u64
    }
}

/// The full pipeline's plan: the files whose sizes count toward the budget
/// set how much must be freed; the eligible files, oldest first, supply the
/// greedy prefix that frees it.
pub open spec fn spec_plan_evictions(
    files: Seq<EntryV>,
    max_size: u64,
    scope: FilterChoice,
    elig: FilterChoice,
) -> Seq<Seq<char>> {
    plan_paths(
        spec_plan(
            spec_sort(spec_filter(files, elig)),
            spec_size_to_free(files, max_size, scope) as int,
        ),
    )
}

/// Plans which files to delete: sums the sizes of the files in scope, and if
/// the total exceeds the budget, selects the oldest eligible files, just
/// enough of them to cover the excess.
pub fn plan_evictions(
    files: &Vec<FileEntry>,
    max_size: u64,
    scope: &FilterChoice,
    elig: &FilterChoice,
) -> (r: Vec<String>)
    ensures
        str_views(r@) == spec_plan_evictions(views(files@), max_size, *scope, *elig),
{
    let scoped = file_filter(files, scope);
    let current_size = total_size(&scoped);
    let size_to_free: u64 = if current_size >= max_size {
        current_size - max_size
    } else {
        0
    };
    if size_to_free == 0 {
        let r: Vec<String> = Vec::new();
        proof {
            assert(str_views(r@) =~= spec_plan_evictions(views(files@), max_size, *scope, *elig));
        }
        return r;
    }
    let eligible = file_filter(files, elig);
    let sorted = sort_by_age(&eligible);
    register_operations(&sorted, size_to_free)
}

/// A budget at or above the scoped total leaves nothing to free: the plan is
/// empty whatever the eligible set holds, so a dry run and a live run both do
/// nothing.
pub proof fn lemma_budget_met_empty_plan(
    files: Seq<EntryV>,
    max_size: u64,
    scope: FilterChoice,
    elig: FilterChoice,
)
    ensures
        sat64(spec_sum(spec_filter(files, scope))) <= max_size ==> spec_plan_evictions(
            files,
            max_size,
            scope,
            elig,
        ) == Seq::<Seq<char>>::empty(),
{
    if sat64(spec_sum(spec_filter(files, scope))) <= max_size {
        assert(spec_size_to_free(files, max_size, scope) == 0);
        assert(plan_paths(Seq::<EntryV>::empty()) =~= Seq::<Seq<char>>::empty());
    }
}

/// A protect pattern that matches every file, or any filter that keeps no
/// entry, empties the eligible set, and an empty eligible set yields an empty
/// plan regardless of the deficit; the budget stays unmet without a fault.
pub proof fn lemma_empty_eligible_empty_plan(
    files: Seq<EntryV>,
    max_size: u64,
    scope: FilterChoice,
    elig: FilterChoice,
)
    ensures
        (forall|i: int| 0 <= i < files.len() ==> !crate::filter::keeps(elig, files[i].path))
            ==> spec_plan_evictions(files, max_size, scope, elig) == Seq::<Seq<char>>::empty(),
{
    if forall|i: int| 0 <= i < files.len() ==> !crate::filter::keeps(elig, files[i].path) {
        crate::filter::lemma_keeps_nothing_empty(files, elig);
        assert(spec_sort(spec_filter(files, elig)) == Seq::<EntryV>::empty());
        assert(plan_paths(Seq::<EntryV>::empty()) =~= Seq::<Seq<char>>::empty());
    }
}

/// Two plans computed from the same directory tree under the same
/// configuration are identical: a dry run changes nothing, so running the
/// tool twice in dry-run mode on an unchanged tree with an unmet budget
/// reports the same deletions both times.
pub proof fn lemma_plan_deterministic(
    tree1: Seq<crate::scan::FsNode>,
    tree2: Seq<crate::scan::FsNode>,
    prefix: Seq<char>,
    max_size: u64,
    scope: FilterChoice,
    elig: FilterChoice,
)
    requires
        tree1 == tree2,
    ensures
        spec_plan_evictions(crate::scan::scan_list(tree1, prefix), max_size, scope, elig)
            == spec_plan_evictions(crate::scan::scan_list(tree2, prefix), max_size, scope, elig),
{
}

} // verus!
