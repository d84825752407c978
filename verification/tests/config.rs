use dircull::entry::FileEntry;
use dircull::filter::{file_filter, FilterChoice};
use dircull::matching::{canonicalize_pattern, get_path_matcher, CullError};
use dircull::plan::plan_evictions;
use dircull::sizes::size_parser;

fn entry(path: &str, size: u64, modified: u64) -> FileEntry {
    FileEntry { path: path.to_string(), size, modified }
}

#[test]
fn pattern_is_anchored_to_the_base_directory() {
    let anchored = canonicalize_pattern("/var/log", "*.gz");
    assert_eq!(anchored, "/var/log/*.gz".to_string());
}

#[test]
fn no_pattern_yields_no_matcher() {
    let m = get_path_matcher("/base", &None).unwrap();
    assert!(m.is_none());
}

#[test]
fn matcher_matches_anchored_paths_only() {
    let m = get_path_matcher("/base", &Some("*.log".to_string())).unwrap().unwrap();
    assert!(m.matches("/base/a.log"));
    assert!(!m.matches("/base/a.txt"));
    assert!(!m.matches("/elsewhere/a.log"));
}

#[test]
fn invalid_glob_is_a_fatal_fault() {
    let r = get_path_matcher("/base", &Some("[".to_string()));
    assert!(matches!(r, Err(CullError::InvalidPattern)));
}

#[test]
fn include_pattern_restricts_the_scope() {
    let m = get_path_matcher("/base", &Some("*.log".to_string())).unwrap().unwrap();
    let files = vec![entry("/base/a.log", 10, 1), entry("/base/b.txt", 20, 2)];
    let kept = file_filter(&files, &FilterChoice::Include(m));
    assert_eq!(kept.len(), 1);
    assert_eq!(kept[0].path, "/base/a.log".to_string());
}

#[test]
fn exclude_pattern_removes_its_matches() {
    let m = get_path_matcher("/base", &Some("*.log".to_string())).unwrap().unwrap();
    let files = vec![entry("/base/a.log", 10, 1), entry("/base/b.txt", 20, 2)];
    let kept = file_filter(&files, &FilterChoice::Exclude(m));
    assert_eq!(kept.len(), 1);
    assert_eq!(kept[0].path, "/base/b.txt".to_string());
}

#[test]
fn protecting_every_file_plans_nothing() {
    let protect = get_path_matcher("/base", &Some("*".to_string())).unwrap().unwrap();
    let files = vec![entry("/base/a", 10, 1), entry("/base/b", 20, 2)];
    // The budget is far exceeded, yet nothing is eligible: the plan stays
    // empty and the deficit stays unresolved, without a fault.
    let plan = plan_evictions(&files, 1, &FilterChoice::Unfiltered, &FilterChoice::Exclude(protect));
    assert!(plan.is_empty());
}

#[test]
fn scope_and_eligibility_are_independent() {
    // Every file counts toward the budget, but only the compressed one may go.
    let select = get_path_matcher("/base", &Some("*.gz".to_string())).unwrap().unwrap();
    let files = vec![
        entry("/base/keep.log", 50, 1),
        entry("/base/old.gz", 10, 2),
    ];
    let plan = plan_evictions(&files, 40, &FilterChoice::Unfiltered, &FilterChoice::Include(select));
    assert_eq!(plan, vec!["/base/old.gz".to_string()]);
}

#[test]
fn size_parser_accepts_bare_and_suffixed_sizes() {
    assert_eq!(size_parser("10"), Ok(10));
    assert_eq!(size_parser("3K"), Ok(3_000));
    assert_eq!(size_parser("5MiB"), Ok(5 * 1024 * 1024));
}

#[test]
fn size_parser_rejects_malformed_sizes() {
    assert_eq!(size_parser("many bytes"), Err(CullError::InvalidSize));
    assert_eq!(size_parser(""), Err(CullError::InvalidSize));
}

#[test]
fn size_parser_accepts_the_largest_size() {
    assert_eq!(size_parser("18446744073709551615"), Ok(u64::MAX));
    assert_eq!(size_parser("018446744073709551615"), Ok(u64::MAX));
}

#[test]
fn size_parser_rejects_sizes_beyond_the_largest() {
    // One digit past the largest value, rounding up: screened off.
    assert_eq!(size_parser("184467440737095516155"), Err(CullError::InvalidSize));
    // The same digits through the fraction path.
    assert_eq!(size_parser("1.84467440737095516155"), Err(CullError::InvalidSize));
    // Digit grouping does not hide the pattern.
    assert_eq!(size_parser("18_446_744_073_709_551_615 5"), Err(CullError::InvalidSize));
    // One digit past the largest value, rounding down: an ordinary overflow.
    assert_eq!(size_parser("184467440737095516150"), Err(CullError::InvalidSize));
}

#[test]
fn base_dir_canonicalization_requires_a_real_directory() {
    assert!(dircull::scan::canonicalize_base_dir(".").is_some());
    assert!(dircull::scan::canonicalize_base_dir("").is_none());
}
