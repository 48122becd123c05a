//! Commit traversal and diff-hunk construction for replaying a Git history.

pub mod changes;
pub mod cli;
pub mod commit;
pub mod diff;
pub mod exclusion;
pub mod file_tree;
pub mod history;
pub mod language;
pub mod range;
pub mod repository;
pub mod status_bar;
pub mod text;
