use vstd::prelude::*;
use vstd::string::*;
use crate::entry::{spec_sum, views, EntryV, FileEntry};

verus! {

/// One node of the directory tree handed to the scanner: a regular file with
/// its stat data read once at scan time, or a directory with its children.
/// Entries of any other kind (symlinks, unreadable subtrees) are left out by
/// the caller before the scan.
pub enum FsNode {
    File { name: String, size: u64, modified: u64 },
    Dir { name: String, children: Vec<FsNode> },
}

/// The name of a node.
pub open spec fn node_name(n: FsNode) -> Seq<char> {
    match n {
        FsNode::File { name, .. } => name@,
        FsNode::Dir { name, .. } => name@,
    }
}

/// A name that starts with the hidden marker.
pub open spec fn spec_hidden(name: Seq<char>) -> bool {
    name.len() > 0 && name[0] == '.'
}

/// Whether a file or directory name starts with the hidden marker.
pub fn is_hidden(name: &str) -> (r: bool)
    ensures
        r == spec_hidden(name@),
{
    if name.unicode_len() == 0 {
        false
    } else {
        name.get_char(0) == '.'
    }
}

/// The path of a child under a parent path.
pub open spec fn spec_child_path(prefix: Seq<char>, name: Seq<char>) -> Seq<char> {
    prefix + "/"@ + name
}

fn child_path(prefix: &str, name: &str) -> (r: String)
    ensures
        r@ == spec_child_path(prefix@, name@),
{
    let mut res = prefix.to_owned();
    res.append("/");
    res.append(name);
    res
}

/// What the scanner yields for one node: a non-hidden regular file becomes
/// one entry; a non-hidden directory contributes its children, recursively;
/// anything hidden is pruned entirely.
pub open spec fn scan_node(n: FsNode, prefix: Seq<char>) -> Seq<EntryV>
    decreases n,
{
    match n {
        FsNode::File { name, size, modified } => if spec_hidden(name@) {
            Seq::empty()
        } else {
            seq![EntryV { path: spec_child_path(prefix, name@), size: size, modified: modified }]
        },
        FsNode::Dir { name, children } => if spec_hidden(name@) {
            Seq::empty()
        } else {
            scan_list(children@, spec_child_path(prefix, name@))
        },
    }
}

/// What the scanner yields for a list of sibling nodes, in order.
pub open spec fn scan_list(ns: Seq<FsNode>, prefix: Seq<char>) -> Seq<EntryV>
    decreases ns,
{
    if ns.len() == 0 {
        Seq::empty()
    } else {
        scan_list(ns.drop_last(), prefix) + scan_node(ns.last(), prefix)
    }
}

fn scan_into(nodes: &Vec<FsNode>, i: usize, prefix: &str, out: &mut Vec<FileEntry>)
    requires
        i <= nodes@.len(),
    ensures
        views(final(out)@) == views(old(out)@) + scan_list(nodes@.skip(i as int), prefix@),
    decreases nodes@, nodes@.len() - i,
{
    if i == nodes.len() {
        proof {
            assert(nodes@.skip(i as int) =~= Seq::<FsNode>::empty());
            assert(views(out@) =~= views(out@) + scan_list(nodes@.skip(i as int), prefix@));
        }
    } else {
        let ghost before = out@;
        match &nodes[i] {
            FsNode::File { name, size, modified } => {
                if !is_hidden(name.as_str()) {
                    let p = child_path(prefix, name.as_str());
                    out.push(FileEntry { path: p, size: *size, modified: *modified });
                }
            },
            FsNode::Dir { name, children } => {
                if !is_hidden(name.as_str()) {
                    let p = child_path(prefix, name.as_str());
                    proof {
                        assert(decreases_to!(nodes@ => nodes@[i as int]));
                    }
                    scan_into(children, 0, p.as_str(), out);
                    proof {
                        assert(children@.skip(0) =~= children@);
                    }
                }
            },
        }
        proof {
            assert(views(out@) =~= views(before) + scan_node(nodes@[i as int], prefix@));
        }
        scan_into(nodes, i + 1, prefix, out);
        proof {
            let rest = nodes@.skip(i as int);
            assert(nodes@.skip(i as int + 1) =~= rest.drop_first());
            lemma_scan_list_first(rest, prefix@);
            assert(views(out@) =~= views(before) + scan_list(rest, prefix@));
        }
    }
}

proof fn lemma_scan_list_first(ns: Seq<FsNode>, prefix: Seq<char>)
    requires
        ns.len() > 0,
    ensures
        scan_list(ns, prefix) == scan_node(ns[0], prefix) + scan_list(ns.drop_first(), prefix),
    decreases ns,
{
    if ns.len() == 1 {
        assert(ns.drop_last() =~= Seq::<FsNode>::empty());
        assert(ns.drop_first() =~= Seq::<FsNode>::empty());
        assert(scan_list(ns, prefix) =~= scan_node(ns[0], prefix) + scan_list(
            ns.drop_first(),
            prefix,
        ));
    } else {
        lemma_scan_list_first(ns.drop_last(), prefix);
        assert(ns.drop_last()[0] == ns[0]);
        assert(ns.drop_first().drop_last() =~= ns.drop_last().drop_first());
        assert(ns.drop_first().last() == ns.last());
        assert(scan_list(ns, prefix) =~= scan_node(ns[0], prefix) + scan_list(
            ns.drop_first(),
            prefix,
        ));
    }
}

/// Recursively enumerates the regular files under the given sibling nodes:
/// every hidden file is skipped, every hidden directory is pruned entirely,
/// and each remaining file is yielded with its path under `prefix`, its size,
/// and its modification time.
pub fn list_all_files(nodes: &Vec<FsNode>, prefix: &str) -> (r: Vec<FileEntry>)
    ensures
        views(r@) == scan_list(nodes@, prefix@),
{
    let mut out: Vec<FileEntry> = Vec::new();
    scan_into(nodes, 0, prefix, &mut out);
    proof {
        assert(nodes@.skip(0) =~= nodes@);
        assert(views(out@) =~= scan_list(nodes@, prefix@));
    }
    out
}

/// The size of everything a scan of the node may count: its size for a
/// non-hidden file, the visible sizes of the children for a non-hidden
/// directory, and nothing for anything hidden.
pub open spec fn visible_size_node(n: FsNode) -> int
    decreases n,
{
    match n {
        FsNode::File { name, size, .. } => if spec_hidden(name@) {
            0
        } else {
            size as int
        },
        FsNode::Dir { name, children } => if spec_hidden(name@) {
            0
        } else {
            visible_size_list(children@)
        },
    }
}

/// The total size of the visible files under the given sibling nodes.
pub open spec fn visible_size_list(ns: Seq<FsNode>) -> int
    decreases ns,
{
    if ns.len() == 0 {
        0
    } else {
        visible_size_list(ns.drop_last()) + visible_size_node(ns.last())
    }
}

/// The sum of the sizes of the scanned files equals the total size of the
/// regular, non-hidden files present in the tree.
pub proof fn lemma_scan_total_node(n: FsNode, prefix: Seq<char>)
    ensures
        spec_sum(scan_node(n, prefix)) == visible_size_node(n),
    decreases n,
{
    match n {
        FsNode::File { name, size, modified } => {
            if !spec_hidden(name@) {
                let one = scan_node(n, prefix);
                assert(one.len() == 1);
                assert(one.drop_last() =~= Seq::<EntryV>::empty());
                assert(spec_sum(Seq::<EntryV>::empty()) == 0);
            }
        },
        FsNode::Dir { name, children } => {
            if !spec_hidden(name@) {
                lemma_scan_total_list(children@, spec_child_path(prefix, name@));
            }
        },
    }
}

/// The sum of the sizes of the scanned files equals the total size of the
/// regular, non-hidden files present under the given sibling nodes.
pub proof fn lemma_scan_total_list(ns: Seq<FsNode>, prefix: Seq<char>)
    ensures
        spec_sum(scan_list(ns, prefix)) == visible_size_list(ns),
    decreases ns,
{
    if ns.len() > 0 {
        lemma_scan_total_list(ns.drop_last(), prefix);
        lemma_scan_total_node(ns.last(), prefix);
        crate::entry::lemma_sum_concat(scan_list(ns.drop_last(), prefix), scan_node(ns.last(), prefix));
    }
}

/// A hidden node contributes no files at all, its non-hidden descendants
/// included: a tree with a hidden node added scans exactly as without it.
pub proof fn lemma_hidden_contributes_nothing(ns: Seq<FsNode>, d: FsNode, prefix: Seq<char>)
    ensures
        spec_hidden(node_name(d)) ==> scan_node(d, prefix) == Seq::<EntryV>::empty(),
        spec_hidden(node_name(d)) ==> scan_list(ns.push(d), prefix) == scan_list(ns, prefix),
{
    if spec_hidden(node_name(d)) {
        assert(scan_node(d, prefix) =~= Seq::<EntryV>::empty());
        assert(ns.push(d).drop_last() =~= ns);
        assert(ns.push(d).last() == d);
        assert(ns.push(d).len() == ns.len() + 1);
        assert(scan_list(ns.push(d), prefix) == scan_list(ns.push(d).drop_last(), prefix)
            + scan_node(ns.push(d).last(), prefix));
        assert(scan_list(ns.push(d), prefix) =~= scan_list(ns, prefix));
    }
}

/// A hidden node inserted anywhere among the siblings leaves the scan
/// unchanged.
pub proof fn lemma_hidden_insert_anywhere(ns: Seq<FsNode>, d: FsNode, k: int, prefix: Seq<char>)
    requires
        0 <= k <= ns.len(),
        spec_hidden(node_name(d)),
    ensures
        scan_list(ns.insert(k, d), prefix) == scan_list(ns, prefix),
    decreases ns.len(),
{
    let t = ns.insert(k, d);
    if k == ns.len() {
        assert(t =~= ns.push(d));
        lemma_hidden_contributes_nothing(ns, d, prefix);
    } else {
        assert(t.drop_last() =~= ns.drop_last().insert(k, d));
        assert(t.last() == ns.last());
        lemma_hidden_insert_anywhere(ns.drop_last(), d, k, prefix);
    }
}

/// Relies on `std::path::Path::canonicalize`: resolves the root directory to
/// a canonical absolute path. The result depends on the state of the
/// filesystem, so nothing is stated of it; a root that cannot be
/// canonicalized, or whose canonical path is not valid Unicode, yields
/// nothing, and the caller treats that as fatal.
#[verifier::external_body]
pub fn canonicalize_base_dir(path: &str) -> (r: Option<String>)
{
    match std::path::Path::new(path).canonicalize() {
        Ok(p) => match p.to_str() {
            Some(s) => Some(s.to_string()),
            None => None,
        },
        Err(_) => None,
    }
}

} // verus!
