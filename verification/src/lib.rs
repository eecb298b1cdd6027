//! Verified core of `git difftool`: file-mode predicates, object ids and
//! their hexadecimal form, the parser for `git diff --raw -z` records, and
//! the decisions that drive per-file and directory diffs.
pub mod builtin;
pub mod entry;
pub mod hash;
pub mod hex;
pub mod object;
pub mod read_cache;
pub mod types;
