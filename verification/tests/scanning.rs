use dircull::entry::{total_size, FileEntry};
use dircull::filter::{file_filter, FilterChoice};
use dircull::scan::{is_hidden, list_all_files, FsNode};

fn file(name: &str, size: u64, modified: u64) -> FsNode {
    FsNode::File { name: name.to_string(), size, modified }
}

fn dir(name: &str, children: Vec<FsNode>) -> FsNode {
    FsNode::Dir { name: name.to_string(), children }
}

fn sample_tree() -> Vec<FsNode> {
    vec![
        file("a.log", 10, 1),
        file(".secret", 99, 2),
        dir("sub", vec![file("b.log", 20, 3), file(".swp", 77, 4)]),
        dir(".cache", vec![file("visible_inside_hidden", 1000, 5), dir("deep", vec![file("x", 1, 6)])]),
        dir("empty", vec![]),
    ]
}

#[test]
fn scan_yields_only_visible_regular_files() {
    let files = list_all_files(&sample_tree(), "/root");
    let paths: Vec<String> = files.iter().map(|f| f.path.clone()).collect();
    assert_eq!(paths, vec!["/root/a.log".to_string(), "/root/sub/b.log".to_string()]);
    assert_eq!(files[0].size, 10);
    assert_eq!(files[0].modified, 1);
    assert_eq!(files[1].size, 20);
    assert_eq!(files[1].modified, 3);
}

#[test]
fn scanned_total_counts_every_visible_file_once() {
    let files = list_all_files(&sample_tree(), "/root");
    assert_eq!(total_size(&files), 30);
}

#[test]
fn hidden_directory_contributes_no_descendants() {
    let tree = vec![dir(".hidden", vec![file("inside", 5, 1), dir("nested", vec![file("deep", 7, 2)])])];
    let files = list_all_files(&tree, "/root");
    assert!(files.is_empty());
}

#[test]
fn no_patterns_keep_the_full_scan() {
    let files = list_all_files(&sample_tree(), "/root");
    let scope = file_filter(&files, &FilterChoice::Unfiltered);
    let eligible = file_filter(&files, &FilterChoice::Unfiltered);
    let paths: Vec<String> = files.iter().map(|f| f.path.clone()).collect();
    let scope_paths: Vec<String> = scope.iter().map(|f| f.path.clone()).collect();
    let eligible_paths: Vec<String> = eligible.iter().map(|f| f.path.clone()).collect();
    assert_eq!(scope_paths, paths);
    assert_eq!(eligible_paths, paths);
}

#[test]
fn hidden_names_start_with_the_marker() {
    assert!(is_hidden(".git"));
    assert!(!is_hidden("git"));
    assert!(!is_hidden(""));
    assert!(!is_hidden("dotless."));
}

#[test]
fn duplicate_preserves_the_entry() {
    let e = FileEntry { path: "/d/a".to_string(), size: 4, modified: 9 };
    let d = e.duplicate();
    assert_eq!(d.path, e.path);
    assert_eq!(d.size, e.size);
    assert_eq!(d.modified, e.modified);
}

#[test]
fn scan_to_plan_deletes_the_two_oldest() {
    let tree = vec![
        file("newest", 10, 300),
        file("oldest", 30, 100),
        file("middle", 20, 200),
        dir(".cache", vec![file("huge", 10_000, 1)]),
    ];
    let files = list_all_files(&tree, "/root");
    let plan = dircull::plan::plan_evictions(
        &files,
        25,
        &FilterChoice::Unfiltered,
        &FilterChoice::Unfiltered,
    );
    assert_eq!(plan, vec!["/root/oldest".to_string(), "/root/middle".to_string()]);
}

#[test]
fn total_size_saturates_instead_of_overflowing() {
    let files = vec![
        FileEntry { path: "/d/a".to_string(), size: u64::MAX, modified: 1 },
        FileEntry { path: "/d/b".to_string(), size: u64::MAX, modified: 2 },
    ];
    assert_eq!(total_size(&files), u64::MAX);
}
