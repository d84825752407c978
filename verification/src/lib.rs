//! Keeps a directory tree under a byte budget: scans the tree, filters the
//! files that count toward the budget and the files that may be deleted, and
//! plans the deletion of the oldest eligible files until the budget is met.

pub mod entry;
pub mod filter;
pub mod matching;
pub mod plan;
pub mod scan;
pub mod sizes;
