use git_difftool::builtin::difftool::dir_diff::{
    adopt_work_tree_oid, copy_back_action, copy_back_step, diff_files_command, dir_diff_end, final_exit_code,
    is_submodule_change, left_needs_checkout, needs_index_entry, nul_separated_fields, plan_record, right_is_file,
    right_step, status_exit_code, submodule_texts, symlink_source, tool_command, update_index_command,
    worth_copying_back, ChangedFiles, CopyBack, DirDiffEnd, DirDiffState, RecordPlan, RightAction, RightStep,
    SymlinkSource,
};
use git_difftool::builtin::difftool::options::DifftoolOptions;
use git_difftool::builtin::difftool::raw::{parse_index_info, IndexInfo, Record};
use git_difftool::builtin::difftool::standin::{
    add_left_or_right, standin_content, standin_files, StandinEntry, StandinMap,
};
use git_difftool::hash::{HashAlgorithm, ObjectID};

const L: &str = "480a84738811a49290ffc8e72c56f0a6fbdb9f4b";
const R: &str = "8bd554f77af18d7b35fb71dfad8056007a79ab02";

fn info(left_mode: &str, right_mode: &str, l: &str, r: &str, status: &str) -> IndexInfo {
    let s = format!(":{left_mode} {right_mode} {l} {r} {status}");
    parse_index_info(HashAlgorithm::SHA1, &s).ok().unwrap()
}

fn oid(byte: u8) -> ObjectID {
    let mut b = [0u8; 32];
    for x in b.iter_mut().take(20) {
        *x = byte;
    }
    ObjectID::from_bytes(HashAlgorithm::SHA1, &b).unwrap()
}

fn entry_of<'a>(m: &'a StandinMap, path: &str) -> Option<&'a StandinEntry> {
    m.entries().iter().find(|e| e.path == path)
}

fn blank_options() -> DifftoolOptions {
    DifftoolOptions {
        gui: None,
        no_gui: None,
        dir_diff: true,
        no_dir_diff: false,
        prompt: None,
        no_prompt: None,
        symlinks: None,
        no_symlinks: None,
        tool: None,
        tool_help: false,
        trust_exit_code: None,
        no_trust_exit_code: None,
        extcmd: None,
        no_index: false,
        staged: false,
        reverse: false,
        order_file: None,
        search: None,
        pickaxe_all: false,
        skip_to: None,
        rotate_to: None,
        arguments: Vec::new(),
        pathspecs: Vec::new(),
    }
}

#[test]
fn add_left_or_right_creates_and_completes_entries() {
    let mut m = StandinMap::new();
    add_left_or_right(&mut m, &"a".to_string(), "left".into(), false);
    let e = entry_of(&m, "a").unwrap();
    assert_eq!((e.left.as_deref(), e.right.as_deref()), (Some("left"), None));
    add_left_or_right(&mut m, &"b".to_string(), "r".into(), true);
    add_left_or_right(&mut m, &"a".to_string(), "right".into(), true);
    let e = entry_of(&m, "a").unwrap();
    assert_eq!((e.left.as_deref(), e.right.as_deref()), (Some("left"), Some("right")));
    let e = entry_of(&m, "b").unwrap();
    assert_eq!((e.left.as_deref(), e.right.as_deref()), (None, Some("r")));
    assert_eq!(m.len(), 2);
    add_left_or_right(&mut m, &"a".to_string(), "left2".into(), false);
    let e = entry_of(&m, "a").unwrap();
    assert_eq!((e.left.as_deref(), e.right.as_deref()), (Some("left2"), Some("right")));
    assert_eq!(m.len(), 2);
}

#[test]
fn insert_replaces_both_sides() {
    let mut m = StandinMap::new();
    add_left_or_right(&mut m, &"p".to_string(), "x".into(), true);
    m.insert("p".into(), Some("l".into()), None);
    let e = entry_of(&m, "p").unwrap();
    assert_eq!((e.left.as_deref(), e.right.as_deref()), (Some("l"), None));
    assert_eq!(m.len(), 1);
}

#[test]
fn standin_content_ends_with_newline() {
    assert_eq!(standin_content("target"), "target\n");
    assert_eq!(standin_content("target\n"), "target\n");
    assert_eq!(standin_content(""), "\n");
    assert_eq!(standin_content("a\n\n"), "a\n\n");
    assert_eq!(standin_content("\u{e9}"), "\u{e9}\n");
}

#[test]
fn standin_files_left_then_right() {
    let mut m = StandinMap::new();
    add_left_or_right(&mut m, &"s".to_string(), "one".into(), false);
    add_left_or_right(&mut m, &"s".to_string(), "two\n".into(), true);
    add_left_or_right(&mut m, &"t".to_string(), "three".into(), true);
    let files = standin_files(&m);
    let v: Vec<(bool, &str, &str)> = files.iter().map(|f| (f.is_right, f.path.as_str(), f.content.as_str())).collect();
    assert_eq!(v, vec![(false, "s", "one\n"), (true, "s", "two\n"), (true, "t", "three\n")]);
}

#[test]
fn submodule_texts_mark_dirty() {
    let i = info("160000", "160000", L, R, "M");
    assert!(is_submodule_change(&i));
    let (l, r) = submodule_texts(&i);
    assert_eq!(l, format!("Subproject commit {L}"));
    assert_eq!(r, format!("Subproject commit {R}-dirty"));
    let i = info("160000", "160000", L, L, "M");
    let (l, r) = submodule_texts(&i);
    assert_eq!(l, r);
    assert!(!r.ends_with("-dirty"));
}

#[test]
fn record_predicates() {
    let i = info("100644", "100644", L, R, "M");
    assert!(!is_submodule_change(&i));
    assert!(left_needs_checkout(&i));
    assert!(right_is_file(&i));
    let i = info("100644", "100644", L, R, "C75");
    assert!(!left_needs_checkout(&i));
    let i = info("000000", "120000", L, R, "A");
    assert!(!left_needs_checkout(&i));
    assert!(!right_is_file(&i));
    let i = info("100644", "000000", L, R, "D");
    assert!(!right_is_file(&i));
    assert!(is_submodule_change(&info("100644", "160000", L, R, "T")));
}

#[test]
fn dir_diff_state_records_submodules() {
    let mut st = DirDiffState::new();
    assert!(!st.counted());
    st.count_record();
    assert!(st.counted());
    let rec = Record { info: info("160000", "160000", L, R, "M"), src_path: "sub".into(), dst_path: "sub".into() };
    st.record_submodule(&rec);
    let e = entry_of(st.submodules(), "sub").unwrap();
    assert_eq!(e.left.clone().unwrap(), format!("Subproject commit {L}"));
    assert_eq!(e.right.clone().unwrap(), format!("Subproject commit {R}-dirty"));
    let rec = Record { info: info("160000", "160000", L, L, "R100"), src_path: "old".into(), dst_path: "new".into() };
    st.record_submodule(&rec);
    let o = entry_of(st.submodules(), "old").unwrap();
    assert!(o.right.is_none() && o.left.is_some());
    let n = entry_of(st.submodules(), "new").unwrap();
    assert!(n.left.is_none() && n.right.is_some());
    assert_eq!(st.symlinks().len(), 0);
}

#[test]
fn dir_diff_state_symlinks_and_dups() {
    let mut st = DirDiffState::new();
    st.record_symlink(&"link".to_string(), "target-a".into(), false);
    st.record_symlink(&"link".to_string(), "target-b".into(), true);
    let e = entry_of(st.symlinks(), "link").unwrap();
    assert_eq!((e.left.as_deref(), e.right.as_deref()), (Some("target-a"), Some("target-b")));
    assert!(st.claim_work_tree_path(&"f".to_string()));
    assert!(!st.claim_work_tree_path(&"f".to_string()));
    assert!(st.claim_work_tree_path(&"g".to_string()));
}

#[test]
fn symlink_sources() {
    let null = HashAlgorithm::SHA1.null_oid();
    assert_eq!(symlink_source(&null, HashAlgorithm::SHA1, true), SymlinkSource::ReadLink);
    assert_eq!(symlink_source(&null, HashAlgorithm::SHA1, false), SymlinkSource::ReadFile);
    assert_eq!(symlink_source(&oid(3), HashAlgorithm::SHA1, true), SymlinkSource::ObjectDatabase);
    assert_eq!(symlink_source(&null, HashAlgorithm::SHA256, true), SymlinkSource::ObjectDatabase);
}

#[test]
fn work_tree_oid_adoption() {
    let mut o = HashAlgorithm::SHA1.null_oid();
    assert!(adopt_work_tree_oid(&mut o, HashAlgorithm::SHA1, &oid(5)));
    assert!(o.same_as(&oid(5)));
    let mut o = oid(5);
    assert!(adopt_work_tree_oid(&mut o, HashAlgorithm::SHA1, &oid(5)));
    assert!(o.same_as(&oid(5)));
    let mut o = oid(6);
    assert!(!adopt_work_tree_oid(&mut o, HashAlgorithm::SHA1, &oid(5)));
    assert!(o.same_as(&oid(6)));
    assert!(needs_index_entry(&oid(6), HashAlgorithm::SHA1));
    assert!(!needs_index_entry(&HashAlgorithm::SHA1.null_oid(), HashAlgorithm::SHA1));
}

#[test]
fn tool_commands() {
    let o = blank_options();
    let (cmd, dirdiff) = tool_command(&o, &"/t/left".to_string(), &"/t/right".to_string());
    assert_eq!(cmd, vec!["git", "difftool--helper", "/t/left", "/t/right"]);
    assert!(dirdiff);
    let mut o = blank_options();
    o.extcmd = Some("meld".into());
    let (cmd, dirdiff) = tool_command(&o, &"/t/left".to_string(), &"/t/right".to_string());
    assert_eq!(cmd, vec!["meld", "/t/left", "/t/right"]);
    assert!(!dirdiff);
}

#[test]
fn copy_back_decisions() {
    assert!(worth_copying_back(false, 0o100644));
    assert!(worth_copying_back(true, 0o100644));
    assert!(!worth_copying_back(true, 0o120777));
    assert!(!worth_copying_back(false, 0o120777));
    assert!(!worth_copying_back(false, 0o040755));
    assert_eq!(copy_back_action(false, true), CopyBack::Keep);
    assert_eq!(copy_back_action(true, true), CopyBack::BothModified);
    assert_eq!(copy_back_action(true, false), CopyBack::CopyToWorkTree);
}

#[test]
fn exit_codes_of_dir_diff() {
    assert_eq!(final_exit_code(false, 0), 0);
    assert_eq!(final_exit_code(false, 3), 3);
    assert_eq!(final_exit_code(true, 0), 1);
    assert_eq!(final_exit_code(true, 7), 1);
    assert_eq!(final_exit_code(false, -5), 1);
    assert_eq!(status_exit_code(Some(2)), 2);
    assert_eq!(status_exit_code(None), 128);
}

#[test]
fn changed_files_set() {
    let mut c = ChangedFiles::new();
    assert!(!c.contains("a"));
    c.insert("a".into());
    c.insert("a".into());
    assert!(c.contains("a"));
    assert!(!c.contains("b"));
}

#[test]
fn nul_fields_of_diff_files_output() {
    assert_eq!(nul_separated_fields(b"a\0b/c\0".to_vec()), vec![b"a".to_vec(), b"b/c".to_vec()]);
    assert_eq!(nul_separated_fields(b"a\0\0b\0".to_vec()), vec![b"a".to_vec()]);
    assert_eq!(nul_separated_fields(b"last".to_vec()), vec![b"last".to_vec()]);
    assert!(nul_separated_fields(Vec::new()).is_empty());
}

#[test]
fn changed_files_commands() {
    assert_eq!(
        update_index_command("/r/.git", "/w"),
        vec!["git", "--git-dir", "/r/.git", "--work-tree", "/w", "update-index", "--really-refresh", "-q", "--unmerged"]
    );
    assert_eq!(
        diff_files_command("/r/.git", "/w"),
        vec!["git", "--git-dir", "/r/.git", "--work-tree", "/w", "diff-files", "--name-only", "-z"]
    );
}

#[test]
fn submodule_record_is_planned_without_checkout() {
    let mut st = DirDiffState::new();
    let rec = Record { info: info("160000", "160000", L, R, "M"), src_path: "sub".into(), dst_path: "sub".into() };
    let plan = plan_record(&mut st, &rec);
    assert_eq!(
        plan,
        RecordPlan {
            submodule: true,
            read_left_link: false,
            read_right_link: false,
            checkout_left: false,
            right: RightAction::Nothing,
        }
    );
    assert!(st.counted());
    let e = entry_of(st.submodules(), "sub").unwrap();
    assert_eq!(e.left.clone().unwrap(), format!("Subproject commit {L}"));
    assert_eq!(e.right.clone().unwrap(), format!("Subproject commit {R}-dirty"));
    let files = standin_files(st.submodules());
    assert_eq!(files.len(), 2);
    assert!(!files[0].is_right && files[0].path == "sub");
    assert_eq!(files[0].content, format!("Subproject commit {L}\n"));
    assert!(files[1].is_right && files[1].path == "sub");
    assert!(files[1].content.starts_with(&format!("Subproject commit {R}")));
    assert!(files[1].content.ends_with('\n'));
    // The submodule did not claim its path: a later file there is written.
    assert!(st.claim_work_tree_path(&"sub".to_string()));
}

#[test]
fn file_records_are_planned_once_per_path() {
    let mut st = DirDiffState::new();
    let rec = Record { info: info("100644", "100644", L, R, "M"), src_path: "f".into(), dst_path: "f".into() };
    let plan = plan_record(&mut st, &rec);
    assert_eq!(
        plan,
        RecordPlan {
            submodule: false,
            read_left_link: false,
            read_right_link: false,
            checkout_left: true,
            right: RightAction::WorkTreeOrCheckout,
        }
    );
    assert!(st.counted());
    let again = plan_record(&mut st, &rec);
    assert_eq!(again.right, RightAction::Duplicate);
    assert!(again.checkout_left);
    assert_eq!(st.submodules().len(), 0);
}

#[test]
fn link_added_and_copied_records_are_planned() {
    let zero = "0".repeat(40);
    let mut st = DirDiffState::new();
    let added_link = Record { info: info("000000", "120000", &zero, R, "A"), src_path: "l".into(), dst_path: "l".into() };
    let plan = plan_record(&mut st, &added_link);
    assert_eq!(
        plan,
        RecordPlan {
            submodule: false,
            read_left_link: false,
            read_right_link: true,
            checkout_left: false,
            right: RightAction::Nothing,
        }
    );
    let copy = Record { info: info("100644", "100644", L, L, "C100"), src_path: "a".into(), dst_path: "b".into() };
    let plan = plan_record(&mut st, &copy);
    assert!(!plan.checkout_left);
    assert_eq!(plan.right, RightAction::WorkTreeOrCheckout);
    let deleted = Record { info: info("100644", "000000", L, &zero, "D"), src_path: "d".into(), dst_path: "d".into() };
    let plan = plan_record(&mut st, &deleted);
    assert!(plan.checkout_left);
    assert_eq!(plan.right, RightAction::Nothing);
}

#[test]
fn right_steps() {
    let null = HashAlgorithm::SHA1.null_oid();
    assert_eq!(right_step(false, &oid(4), HashAlgorithm::SHA1, true), RightStep::Checkout);
    assert_eq!(right_step(false, &null, HashAlgorithm::SHA1, false), RightStep::Checkout);
    assert_eq!(right_step(true, &oid(4), HashAlgorithm::SHA1, true), RightStep::IndexAndLink);
    assert_eq!(right_step(true, &oid(4), HashAlgorithm::SHA1, false), RightStep::IndexAndCopy);
    assert_eq!(right_step(true, &null, HashAlgorithm::SHA1, true), RightStep::Nothing);
}

#[test]
fn copy_back_steps() {
    assert!(!copy_back_step(false, CopyBack::Keep, false));
    assert!(copy_back_step(true, CopyBack::Keep, true));
    assert!(copy_back_step(false, CopyBack::BothModified, true));
    assert!(!copy_back_step(false, CopyBack::CopyToWorkTree, true));
    assert!(copy_back_step(false, CopyBack::CopyToWorkTree, false));
    assert!(copy_back_step(true, CopyBack::CopyToWorkTree, true));
}

#[test]
fn empty_diff_ends_without_tool() {
    let st = DirDiffState::new();
    let end = dir_diff_end(st.counted(), false, None);
    assert_eq!(end, DirDiffEnd { exit_code: 0, runs_tool: false, keep_tmpdir: false, warn_failed: false });
    assert_eq!(
        dir_diff_end(false, true, Some(5)),
        DirDiffEnd { exit_code: 0, runs_tool: false, keep_tmpdir: false, warn_failed: false }
    );
}

#[test]
fn both_modified_file_fails_and_keeps_tmpdir() {
    let errored = copy_back_step(false, copy_back_action(true, true), true);
    let errored = copy_back_step(errored, copy_back_action(false, false), true);
    let errored = copy_back_step(errored, copy_back_action(true, false), true);
    assert!(errored);
    assert_eq!(
        dir_diff_end(true, errored, Some(0)),
        DirDiffEnd { exit_code: 1, runs_tool: true, keep_tmpdir: true, warn_failed: false }
    );
    assert_eq!(dir_diff_end(true, errored, Some(3)).exit_code, 1);
    assert_eq!(dir_diff_end(true, errored, None).exit_code, 1);
}

#[test]
fn dir_diff_end_codes() {
    assert_eq!(
        dir_diff_end(true, false, Some(0)),
        DirDiffEnd { exit_code: 0, runs_tool: true, keep_tmpdir: false, warn_failed: false }
    );
    assert_eq!(
        dir_diff_end(true, false, Some(2)),
        DirDiffEnd { exit_code: 2, runs_tool: true, keep_tmpdir: false, warn_failed: true }
    );
    assert_eq!(
        dir_diff_end(true, false, None),
        DirDiffEnd { exit_code: 128, runs_tool: true, keep_tmpdir: false, warn_failed: true }
    );
    assert_eq!(
        dir_diff_end(true, false, Some(-3)),
        DirDiffEnd { exit_code: 1, runs_tool: true, keep_tmpdir: false, warn_failed: true }
    );
}
