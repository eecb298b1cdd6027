use git_difftool::builtin::difftool::config::{classify_config_key, ConfigKey, DifftoolConfig};
use git_difftool::builtin::difftool::options::DifftoolOptions;

pub fn blank_options() -> DifftoolOptions {
    DifftoolOptions {
        gui: None,
        no_gui: None,
        dir_diff: false,
        no_dir_diff: false,
        prompt: None,
        no_prompt: None,
        symlinks: None,
        no_symlinks: None,
        tool: None,
        tool_help: false,
        trust_exit_code: None,
        no_trust_exit_code: None,
        extcmd: None,
        no_index: false,
        staged: false,
        reverse: false,
        order_file: None,
        search: None,
        pickaxe_all: false,
        skip_to: None,
        rotate_to: None,
        arguments: Vec::new(),
        pathspecs: Vec::new(),
    }
}

fn strs(cmd: &[Vec<u8>]) -> Vec<String> {
    cmd.iter().map(|a| String::from_utf8(a.clone()).unwrap()).collect()
}

fn env(v: &[(String, String)]) -> Vec<(&str, &str)> {
    v.iter().map(|(a, b)| (a.as_str(), b.as_str())).collect()
}

#[test]
fn config_defaults_and_keys() {
    let c = DifftoolConfig::new();
    assert!(c.has_symlinks);
    assert!(!c.trust_exit_code);
    assert_eq!(classify_config_key(Some("core.symlinks")), ConfigKey::CoreSymlinks);
    assert_eq!(classify_config_key(Some("difftool.trustexitcode")), ConfigKey::TrustExitCode);
    assert_eq!(classify_config_key(Some("core.Symlinks")), ConfigKey::Other);
    assert_eq!(classify_config_key(Some("diff.tool")), ConfigKey::Other);
    assert_eq!(classify_config_key(None), ConfigKey::Other);
}

#[test]
fn config_set_records_values() {
    let mut c = DifftoolConfig::new();
    c.set(ConfigKey::CoreSymlinks, false);
    assert!(!c.has_symlinks);
    c.set(ConfigKey::TrustExitCode, true);
    assert!(c.trust_exit_code);
    c.set(ConfigKey::Other, false);
    assert!(!c.has_symlinks && c.trust_exit_code);
}

#[test]
fn update_fills_defaults_from_config() {
    let mut o = blank_options();
    let mut c = DifftoolConfig::new();
    c.trust_exit_code = true;
    o.update(&c);
    assert_eq!(o.symlinks, Some(true));
    assert_eq!(o.trust_exit_code, Some(true));
}

#[test]
fn update_respects_negative_options_and_given_values() {
    let mut o = blank_options();
    o.no_symlinks = Some(true);
    o.no_trust_exit_code = Some(true);
    let mut c = DifftoolConfig::new();
    c.trust_exit_code = true;
    o.update(&c);
    assert_eq!(o.symlinks, Some(false));
    assert_eq!(o.trust_exit_code, Some(false));

    let mut o = blank_options();
    o.symlinks = Some(false);
    o.trust_exit_code = Some(true);
    o.update(&DifftoolConfig::new());
    assert_eq!(o.symlinks, Some(false));
    assert_eq!(o.trust_exit_code, Some(true));
}

#[test]
fn update_twice_is_update_once() {
    let mut c = DifftoolConfig::new();
    c.has_symlinks = false;
    let mut o = blank_options();
    o.update(&c);
    let (s, t) = (o.symlinks, o.trust_exit_code);
    c.has_symlinks = true;
    o.update(&c);
    assert_eq!((o.symlinks, o.trust_exit_code), (s, t));
}

#[test]
fn missing_work_tree_only_without_no_index() {
    let mut o = blank_options();
    assert!(o.missing_work_tree(false));
    assert!(!o.missing_work_tree(true));
    o.no_index = true;
    assert!(!o.missing_work_tree(false));
}

#[test]
fn plain_git_diff_command() {
    let o = blank_options();
    assert_eq!(strs(&o.git_diff_command()), vec!["git", "diff"]);
}

#[test]
fn full_git_diff_command() {
    let mut o = blank_options();
    o.no_index = true;
    o.staged = true;
    o.reverse = true;
    o.order_file = Some("order.txt".into());
    o.rotate_to = Some("b".into());
    o.search = Some("needle".into());
    o.pickaxe_all = true;
    o.skip_to = Some("a".into());
    o.dir_diff = true;
    o.arguments = vec![b"HEAD~1".to_vec(), b"HEAD".to_vec()];
    o.pathspecs = vec![b"src".to_vec(), b"docs".to_vec()];
    assert_eq!(
        strs(&o.git_diff_command()),
        vec![
            "git",
            "diff",
            "--no-index",
            "--staged",
            "-R",
            "-Oorder.txt",
            "--rotate-to=b",
            "-Sneedle",
            "--pickaxe-all",
            "--skip-to=a",
            "--raw",
            "--no-abbrev",
            "-z",
            "HEAD~1",
            "HEAD",
            "--",
            "src",
            "docs",
        ]
    );
}

#[test]
fn arguments_keep_their_bytes() {
    let mut o = blank_options();
    o.arguments = vec![vec![0xff, 0x00, b'x']];
    let cmd = o.git_diff_command();
    assert_eq!(cmd[2], vec![0xff, 0x00, b'x']);
    assert_eq!(cmd.len(), 3);
}

#[test]
fn difftool_environment_defaults() {
    let mut o = blank_options();
    o.update(&DifftoolConfig::new());
    assert_eq!(env(&o.difftool_environment()), vec![("GIT_DIFFTOOL_TRUST_EXIT_CODE", "false")]);
}

#[test]
fn difftool_environment_all() {
    let mut o = blank_options();
    o.gui = Some(true);
    o.no_gui = Some(true);
    o.tool = Some("meld".into());
    o.extcmd = Some("diff -u".into());
    o.trust_exit_code = Some(true);
    assert_eq!(
        env(&o.difftool_environment()),
        vec![
            ("GIT_MERGETOOL_GUI", "true"),
            ("GIT_DIFF_TOOL", "meld"),
            ("GIT_DIFFTOOL_EXTCMD", "diff -u"),
            ("GIT_DIFFTOOL_TRUST_EXIT_CODE", "true"),
        ]
    );
    let mut o = blank_options();
    o.no_gui = Some(true);
    assert_eq!(env(&o.difftool_environment())[0], ("GIT_MERGETOOL_GUI", "false"));
}

#[test]
fn file_diff_environment() {
    let o = blank_options();
    assert_eq!(
        env(&o.file_diff_environment()),
        vec![("GIT_PAGER", ""), ("GIT_EXTERNAL_DIFF", "git-difftool--helper")]
    );
    let mut o = blank_options();
    o.prompt = Some(true);
    o.no_prompt = Some(true);
    assert_eq!(env(&o.file_diff_environment())[2], ("GIT_DIFFTOOL_PROMPT", "true"));
    let mut o = blank_options();
    o.no_prompt = Some(true);
    assert_eq!(env(&o.file_diff_environment())[2], ("GIT_DIFFTOOL_NO_PROMPT", "true"));
}
