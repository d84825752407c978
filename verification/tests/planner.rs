use dircull::entry::FileEntry;
use dircull::filter::FilterChoice;
use dircull::plan::{plan_evictions, register_operations, sort_by_age};

fn entry(path: &str, size: u64, modified: u64) -> FileEntry {
    FileEntry { path: path.to_string(), size, modified }
}

#[test]
fn three_files_budget_25_deletes_two_oldest() {
    // Sizes 10, 20, 30; oldest first by age: the 30-byte file, then the
    // 20-byte file, then the 10-byte file. Budget 25 against total 60 means
    // 35 bytes must be freed: the two oldest files cover it (30 + 20 = 50).
    let files = vec![
        entry("/d/newest", 10, 300),
        entry("/d/middle", 20, 200),
        entry("/d/oldest", 30, 100),
    ];
    let plan = plan_evictions(&files, 25, &FilterChoice::Unfiltered, &FilterChoice::Unfiltered);
    assert_eq!(plan.len(), 2);
    assert_eq!(plan[0], "/d/oldest".to_string());
    assert_eq!(plan[1], "/d/middle".to_string());
}

#[test]
fn budget_at_total_plans_nothing() {
    let files = vec![entry("/d/a", 10, 1), entry("/d/b", 20, 2), entry("/d/c", 30, 3)];
    let plan = plan_evictions(&files, 60, &FilterChoice::Unfiltered, &FilterChoice::Unfiltered);
    assert!(plan.is_empty());
}

#[test]
fn budget_above_total_plans_nothing() {
    let files = vec![entry("/d/a", 10, 1), entry("/d/b", 20, 2)];
    let plan = plan_evictions(&files, 1000, &FilterChoice::Unfiltered, &FilterChoice::Unfiltered);
    assert!(plan.is_empty());
}

#[test]
fn zero_size_to_free_plans_nothing() {
    let files = vec![entry("/d/a", 10, 1), entry("/d/b", 20, 2)];
    let plan = register_operations(&files, 0);
    assert!(plan.is_empty());
}

#[test]
fn insufficient_eligible_set_is_consumed_whole() {
    let files = vec![entry("/d/a", 5, 1), entry("/d/b", 5, 2)];
    let plan = register_operations(&files, 1_000);
    assert_eq!(plan, vec!["/d/a".to_string(), "/d/b".to_string()]);
}

#[test]
fn plan_stops_at_threshold() {
    let files = vec![
        entry("/d/a", 10, 1),
        entry("/d/b", 10, 2),
        entry("/d/c", 10, 3),
        entry("/d/d", 10, 4),
    ];
    let plan = register_operations(&files, 20);
    assert_eq!(plan, vec!["/d/a".to_string(), "/d/b".to_string()]);
}

#[test]
fn sort_by_age_orders_oldest_first() {
    let files = vec![entry("/d/new", 1, 900), entry("/d/old", 2, 100), entry("/d/mid", 3, 500)];
    let sorted = sort_by_age(&files);
    assert_eq!(sorted.len(), 3);
    assert_eq!(sorted[0].path, "/d/old".to_string());
    assert_eq!(sorted[1].path, "/d/mid".to_string());
    assert_eq!(sorted[2].path, "/d/new".to_string());
}

#[test]
fn sort_by_age_keeps_order_of_ties() {
    let files = vec![entry("/d/first", 1, 100), entry("/d/second", 2, 100)];
    let sorted = sort_by_age(&files);
    assert_eq!(sorted[0].path, "/d/first".to_string());
    assert_eq!(sorted[1].path, "/d/second".to_string());
}

#[test]
fn dry_run_is_idempotent_on_unchanged_input() {
    let files = vec![
        entry("/d/newest", 10, 300),
        entry("/d/middle", 20, 200),
        entry("/d/oldest", 30, 100),
    ];
    let first = plan_evictions(&files, 25, &FilterChoice::Unfiltered, &FilterChoice::Unfiltered);
    let second = plan_evictions(&files, 25, &FilterChoice::Unfiltered, &FilterChoice::Unfiltered);
    assert_eq!(first, second);
}
