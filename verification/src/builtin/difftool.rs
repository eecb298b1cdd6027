//! `git difftool`: the options and configuration it reads, the records of
//! `git diff --raw -z` it parses, and the decisions of its per-file and
//! directory diff modes.
pub mod config;
pub mod dir_diff;
pub mod options;
pub mod raw;
pub mod standin;
