pub mod difftool;
