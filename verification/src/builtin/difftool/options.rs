//! The command-line options of `git difftool`, and what they make of the
//! `git diff` command line and of the environment of the tools it runs.
use vstd::prelude::*;
use vstd::string::StrSliceExecFns;
use crate::builtin::difftool::config::DifftoolConfig;

verus! {

/// The options of `git difftool` once parsed. Arguments forwarded to
/// `git diff` are kept as the bytes of the operating-system strings.
pub struct DifftoolOptions {
    /// use `diff.guitool` instead of `diff.tool`.
    pub gui: Option<bool>,
    /// do not use `diff.guitool` instead of `diff.tool`.
    pub no_gui: Option<bool>,
    /// perform a full-directory diff.
    pub dir_diff: bool,
    /// do not perform a full-directory diff.
    pub no_dir_diff: bool,
    /// prompt before launching a diff tool
    pub prompt: Option<bool>,
    /// do not prompt before launching a diff tool.
    pub no_prompt: Option<bool>,
    /// use symlinks in dir-diff mode.
    pub symlinks: Option<bool>,
    /// do not use symlinks in dir-diff mode.
    pub no_symlinks: Option<bool>,
    /// use the specified diff tool.
    pub tool: Option<String>,
    /// print a list of diff tools that may be used with `--tool`.
    pub tool_help: bool,
    /// exit when an invoked diff tool returns a non-zero exit code.
    pub trust_exit_code: Option<bool>,
    /// do not exit when an invoked diff tool returns a non-zero exit code.
    pub no_trust_exit_code: Option<bool>,
    /// specify a custom command for viewing diffs.
    pub extcmd: Option<String>,
    /// make `git diff` compare non-git paths.
    pub no_index: bool,
    /// view changes that have been staged for the next commit.
    pub staged: bool,
    /// swap input file pairs.
    pub reverse: bool,
    /// reorder diffs according to the <file>.
    pub order_file: Option<String>,
    /// find filepair whose only one side contains the string.
    pub search: Option<String>,
    /// show all files diff when -S is used and hit is found.
    pub pickaxe_all: bool,
    /// Discard the files before the named <file> from the diff.
    pub skip_to: Option<String>,
    /// Move the files before the named <file> to the end of the diff.
    pub rotate_to: Option<String>,
    /// options are forwarded to `git diff`
    pub arguments: Vec<Vec<u8>>,
    /// path specs are forwarded to `git diff`
    pub pathspecs: Vec<Vec<u8>>,
}

/// The value an unset `--[no-]symlinks` or `--[no-]trust-exit-code` takes:
/// the configured value, unless the negative option was given.
pub open spec fn defaulted(value: Option<bool>, negated: Option<bool>, configured: bool) -> Option<bool> {
    if value is None {
        Some(negated is None && configured)
    } else {
        value
    }
}

/// The options with the defaults from the configuration filled in.
pub open spec fn spec_updated(o: DifftoolOptions, config: DifftoolConfig) -> DifftoolOptions {
    DifftoolOptions {
        symlinks: defaulted(o.symlinks, o.no_symlinks, config.has_symlinks),
        trust_exit_code: defaulted(o.trust_exit_code, o.no_trust_exit_code, config.trust_exit_code),
        ..o
    }
}

/// The bytes of each argument.
pub open spec fn args_view(args: Seq<Vec<u8>>) -> Seq<Seq<u8>> {
    args.map_values(|a: Vec<u8>| a@)
}

/// The UTF-8 bytes of a text.
#[verifier::opaque]
pub open spec fn utf8(s: Seq<char>) -> Seq<u8> {
    vstd::utf8::encode_utf8(s)
}

/// `[prefix + value]` when the option is set, else nothing.
#[verifier::opaque]
pub open spec fn flag_with_value(prefix: Seq<char>, value: Option<String>) -> Seq<Seq<u8>> {
    match value {
        Some(v) => seq![utf8(prefix) + utf8(v@)],
        None => Seq::empty(),
    }
}

/// `[flag]` when `on`, else nothing.
#[verifier::opaque]
pub open spec fn flag_if(on: bool, flag: Seq<char>) -> Seq<Seq<u8>> {
    if on {
        seq![utf8(flag)]
    } else {
        Seq::empty()
    }
}

/// The `git diff` command line that `git difftool` runs for its options:
/// `git diff`, then `--no-index`, `--staged`, `-R`, `-O<file>`,
/// `--rotate-to=<file>`, `-S<string>`, `--pickaxe-all`, `--skip-to=<file>`
/// for the options given, `--raw --no-abbrev -z` in directory diff mode, the
/// forwarded options, and `--` before the path specs when there are any.
pub open spec fn spec_git_diff_command(o: DifftoolOptions) -> Seq<Seq<u8>> {
    seq![utf8("git"@), utf8("diff"@)] + spec_diff_option_args(o) + (if o.dir_diff {
        seq![utf8("--raw"@), utf8("--no-abbrev"@), utf8("-z"@)]
    } else {
        Seq::empty()
    }) + args_view(o.arguments@) + (if o.pathspecs@.len() > 0 {
        seq![utf8("--"@)] + args_view(o.pathspecs@)
    } else {
        Seq::empty()
    })
}

/// The `git diff` options that stand for `git difftool` options.
pub open spec fn spec_diff_option_args(o: DifftoolOptions) -> Seq<Seq<u8>> {
    flag_if(o.no_index, "--no-index"@) + flag_if(
        o.staged,
        "--staged"@,
    ) + flag_if(o.reverse, "-R"@) + flag_with_value("-O"@, o.order_file) + flag_with_value(
        "--rotate-to="@,
        o.rotate_to,
    ) + flag_with_value("-S"@, o.search) + flag_if(o.pickaxe_all, "--pickaxe-all"@)
        + flag_with_value("--skip-to="@, o.skip_to)
}

/// An environment variable and its value.
pub type EnvVar = (String, String);

/// The environment variables `git difftool` sets for the tools it starts,
/// in order: `GIT_MERGETOOL_GUI` (`true` for `--gui`, else `false` for
/// `--no-gui`), `GIT_DIFF_TOOL` and `GIT_DIFFTOOL_EXTCMD` when given, and
/// `GIT_DIFFTOOL_TRUST_EXIT_CODE`.
pub open spec fn spec_difftool_environment(o: DifftoolOptions) -> Seq<(Seq<char>, Seq<char>)> {
    (if o.gui is Some {
        seq![("GIT_MERGETOOL_GUI"@, "true"@)]
    } else if o.no_gui is Some {
        seq![("GIT_MERGETOOL_GUI"@, "false"@)]
    } else {
        Seq::empty()
    }) + (match o.tool {
        Some(t) => seq![("GIT_DIFF_TOOL"@, t@)],
        None => Seq::empty(),
    }) + (match o.extcmd {
        Some(x) => seq![("GIT_DIFFTOOL_EXTCMD"@, x@)],
        None => Seq::empty(),
    }) + seq![
        (
            "GIT_DIFFTOOL_TRUST_EXIT_CODE"@,
            if o.trust_exit_code == Some(true) {
                "true"@
            } else {
                "false"@
            },
        ),
    ]
}

/// The environment of `git diff` in per-file mode: no pager, the difftool
/// helper as external diff, and `GIT_DIFFTOOL_PROMPT` for `--prompt`, else
/// `GIT_DIFFTOOL_NO_PROMPT` for `--no-prompt`.
pub open spec fn spec_file_diff_environment(o: DifftoolOptions) -> Seq<(Seq<char>, Seq<char>)> {
    seq![("GIT_PAGER"@, ""@), ("GIT_EXTERNAL_DIFF"@, "git-difftool--helper"@)] + (if o.prompt is Some {
        seq![("GIT_DIFFTOOL_PROMPT"@, "true"@)]
    } else if o.no_prompt is Some {
        seq![("GIT_DIFFTOOL_NO_PROMPT"@, "true"@)]
    } else {
        Seq::empty()
    })
}

/// The text of environment variables.
pub open spec fn env_view(v: Seq<EnvVar>) -> Seq<(Seq<char>, Seq<char>)> {
    v.map_values(|e: EnvVar| (e.0@, e.1@))
}

fn push_env(env: &mut Vec<EnvVar>, name: &str, value: String)
    ensures
        env_view(final(env)@) == env_view(old(env)@).push((name@, value@)),
{
    env.push((name.to_owned(), value));
    assert(env_view(env@) =~= env_view(old(env)@).push((name@, value@)));
}

fn utf8_bytes(s: &str) -> (v: Vec<u8>)
    ensures
        v@ == utf8(s@),
{
    proof {
        reveal(utf8);
    }
    s.as_bytes_vec()
}

fn push_arg(cmd: &mut Vec<Vec<u8>>, arg: Vec<u8>)
    ensures
        args_view(final(cmd)@) == args_view(old(cmd)@).push(arg@),
{
    cmd.push(arg);
    assert(args_view(cmd@) =~= args_view(old(cmd)@).push(arg@));
}

fn push_arg_with_value(cmd: &mut Vec<Vec<u8>>, prefix: &str, value: &Option<String>)
    ensures
        args_view(final(cmd)@) == args_view(old(cmd)@) + flag_with_value(prefix@, *value),
{
    match value {
        Some(v) => {
            let mut arg = utf8_bytes(prefix);
            let vs = v.as_str();
            let vb = vs.as_bytes();
            assert(vb@ == utf8(v@)) by {
                reveal(utf8);
            }
            arg.extend_from_slice(vb);
            assert(arg@ == utf8(prefix@) + utf8(v@));
            push_arg(cmd, arg);
            assert(flag_with_value(prefix@, *value) == seq![utf8(prefix@) + utf8(v@)]) by {
                reveal(flag_with_value);
            }
        },
        None => {
            assert(flag_with_value(prefix@, *value) == Seq::<Seq<u8>>::empty()) by {
                reveal(flag_with_value);
            }
        },
    }
    assert(args_view(cmd@) =~= args_view(old(cmd)@) + flag_with_value(prefix@, *value));
}

fn push_flag_if(cmd: &mut Vec<Vec<u8>>, on: bool, flag: &str)
    ensures
        args_view(final(cmd)@) == args_view(old(cmd)@) + flag_if(on, flag@),
{
    proof {
        reveal(flag_if);
    }
    if on {
        push_arg(cmd, utf8_bytes(flag));
    }
    assert(args_view(cmd@) =~= args_view(old(cmd)@) + flag_if(on, flag@));
}

fn push_all(cmd: &mut Vec<Vec<u8>>, args: &Vec<Vec<u8>>)
    ensures
        args_view(final(cmd)@) == args_view(old(cmd)@) + args_view(args@),
{
    let ghost start = args_view(cmd@);
    let mut i: usize = 0;
    while i < args.len()
        invariant
            i <= args@.len(),
            args_view(cmd@) == start + args_view(args@).take(i as int),
        decreases args@.len() - i,
    {
        let a = args[i].clone();
        push_arg(cmd, a);
        assert(args_view(args@).take(i + 1) =~= args_view(args@).take(i as int).push(args[i as int]@));
        assert(start + args_view(args@).take(i + 1) =~= (start + args_view(args@).take(i as int)).push(args[i as int]@));
        i = i + 1;
    }
    assert(args_view(args@).take(args@.len() as int) =~= args_view(args@));
}

impl DifftoolOptions {
    /// Set default values from the configuration when unspecified: an unset
    /// `--[no-]symlinks` becomes the configured `core.symlinks` unless
    /// `--no-symlinks` was given, and likewise `--[no-]trust-exit-code` with
    /// `difftool.trustExitCode`. Nothing else changes.
    pub fn update(&mut self, config: &DifftoolConfig)
        ensures
            *final(self) == spec_updated(*old(self), *config),
    {
        if self.symlinks.is_none() {
            let symlinks = self.no_symlinks.is_none() && config.has_symlinks;
            self.symlinks = Some(symlinks);
        }
        if self.trust_exit_code.is_none() {
            let trust_exit_code = self.no_trust_exit_code.is_none() && config.trust_exit_code;
            self.trust_exit_code = Some(trust_exit_code);
        }
    }

    /// Whether the run needs a repository with a work tree that is missing:
    /// only `--no-index` does without one.
    pub fn missing_work_tree(&self, have_repository: bool) -> (r: bool)
        ensures
            r == (!self.no_index && !have_repository),
    {
        !self.no_index && !have_repository
    }

    fn push_diff_option_args(&self, cmd: &mut Vec<Vec<u8>>)
        ensures
            args_view(final(cmd)@) == args_view(old(cmd)@) + spec_diff_option_args(*self),
    {
        let ghost start = args_view(cmd@);
        let ghost a1 = flag_if(self.no_index, "--no-index"@);
        let ghost a2 = flag_if(self.staged, "--staged"@);
        let ghost a3 = flag_if(self.reverse, "-R"@);
        let ghost a4 = flag_with_value("-O"@, self.order_file);
        let ghost a5 = flag_with_value("--rotate-to="@, self.rotate_to);
        let ghost a6 = flag_with_value("-S"@, self.search);
        let ghost a7 = flag_if(self.pickaxe_all, "--pickaxe-all"@);
        let ghost a8 = flag_with_value("--skip-to="@, self.skip_to);
        push_flag_if(cmd, self.no_index, "--no-index");
        push_flag_if(cmd, self.staged, "--staged");
        assert(args_view(cmd@) =~= start + (a1 + a2));
        push_flag_if(cmd, self.reverse, "-R");
        push_arg_with_value(cmd, "-O", &self.order_file);
        assert(args_view(cmd@) =~= start + (a1 + a2 + a3 + a4));
        push_arg_with_value(cmd, "--rotate-to=", &self.rotate_to);
        push_arg_with_value(cmd, "-S", &self.search);
        assert(args_view(cmd@) =~= start + (a1 + a2 + a3 + a4 + a5 + a6));
        push_flag_if(cmd, self.pickaxe_all, "--pickaxe-all");
        push_arg_with_value(cmd, "--skip-to=", &self.skip_to);
        assert(args_view(cmd@) =~= start + (a1 + a2 + a3 + a4 + a5 + a6 + a7 + a8));
    }

    /// The `git diff` command line for these options.
    pub fn git_diff_command(&self) -> (cmd: Vec<Vec<u8>>)
        ensures
            args_view(cmd@) == spec_git_diff_command(*self),
    {
        let mut cmd: Vec<Vec<u8>> = Vec::new();
        push_arg(&mut cmd, utf8_bytes("git"));
        push_arg(&mut cmd, utf8_bytes("diff"));
        self.push_diff_option_args(&mut cmd);
        let ghost before_raw = args_view(cmd@);
        if self.dir_diff {
            push_arg(&mut cmd, utf8_bytes("--raw"));
            push_arg(&mut cmd, utf8_bytes("--no-abbrev"));
            push_arg(&mut cmd, utf8_bytes("-z"));
        }
        assert(args_view(cmd@) =~= before_raw + (if self.dir_diff {
            seq![utf8("--raw"@), utf8("--no-abbrev"@), utf8("-z"@)]
        } else {
            Seq::empty()
        }));
        push_all(&mut cmd, &self.arguments);
        let ghost before_paths = args_view(cmd@);
        if self.pathspecs.len() > 0 {
            push_arg(&mut cmd, utf8_bytes("--"));
            push_all(&mut cmd, &self.pathspecs);
        }
        assert(args_view(cmd@) =~= before_paths + (if self.pathspecs@.len() > 0 {
            seq![utf8("--"@)] + args_view(self.pathspecs@)
        } else {
            Seq::empty()
        }));
        assert(args_view(cmd@) =~= spec_git_diff_command(*self));
        cmd
    }

    /// The environment variables set for every tool `git difftool` starts.
    pub fn difftool_environment(&self) -> (env: Vec<EnvVar>)
        ensures
            env_view(env@) == spec_difftool_environment(*self),
    {
        let mut env: Vec<EnvVar> = Vec::new();
        if self.gui.is_some() {
            push_env(&mut env, "GIT_MERGETOOL_GUI", "true".to_owned());
        } else if self.no_gui.is_some() {
            push_env(&mut env, "GIT_MERGETOOL_GUI", "false".to_owned());
        }
        let ghost e1 = env_view(env@);
        match &self.tool {
            Some(t) => push_env(&mut env, "GIT_DIFF_TOOL", t.clone()),
            None => {},
        }
        let ghost e2 = env_view(env@);
        match &self.extcmd {
            Some(x) => push_env(&mut env, "GIT_DIFFTOOL_EXTCMD", x.clone()),
            None => {},
        }
        let ghost e3 = env_view(env@);
        let trust = match self.trust_exit_code {
            Some(t) => t,
            None => false,
        };
        if trust {
            push_env(&mut env, "GIT_DIFFTOOL_TRUST_EXIT_CODE", "true".to_owned());
        } else {
            push_env(&mut env, "GIT_DIFFTOOL_TRUST_EXIT_CODE", "false".to_owned());
        }
        assert(env_view(env@) =~= spec_difftool_environment(*self));
        env
    }

    /// The environment of `git diff` in per-file mode.
    pub fn file_diff_environment(&self) -> (env: Vec<EnvVar>)
        ensures
            env_view(env@) == spec_file_diff_environment(*self),
    {
        let mut env: Vec<EnvVar> = Vec::new();
        push_env(&mut env, "GIT_PAGER", "".to_owned());
        push_env(&mut env, "GIT_EXTERNAL_DIFF", "git-difftool--helper".to_owned());
        if self.prompt.is_some() {
            push_env(&mut env, "GIT_DIFFTOOL_PROMPT", "true".to_owned());
        } else if self.no_prompt.is_some() {
            push_env(&mut env, "GIT_DIFFTOOL_NO_PROMPT", "true".to_owned());
        }
        assert(env_view(env@) =~= spec_file_diff_environment(*self));
        env
    }
}

/// Filling in the defaults twice is the same as once, and it never changes
/// an option that was given.
pub proof fn lemma_update_idempotent(o: DifftoolOptions, config: DifftoolConfig)
    ensures
        spec_updated(spec_updated(o, config), config) == spec_updated(o, config),
        spec_updated(o, config).symlinks is Some,
        spec_updated(o, config).trust_exit_code is Some,
        o.symlinks is Some ==> spec_updated(o, config).symlinks == o.symlinks,
        o.trust_exit_code is Some ==> spec_updated(o, config).trust_exit_code == o.trust_exit_code,
{
}

/// An option left unset on the command line takes the configured value:
/// with neither `--symlinks` nor `--no-symlinks`, `core.symlinks`; with
/// `--no-symlinks` alone, false. The same holds of `--[no-]trust-exit-code`
/// and `difftool.trustExitCode`.
pub proof fn lemma_update_takes_configuration(o: DifftoolOptions, config: DifftoolConfig)
    ensures
        o.symlinks is None && o.no_symlinks is None ==> spec_updated(o, config).symlinks == Some(
            config.has_symlinks,
        ),
        o.symlinks is None && o.no_symlinks is Some ==> spec_updated(o, config).symlinks == Some(false),
        o.trust_exit_code is None && o.no_trust_exit_code is None ==> spec_updated(o, config).trust_exit_code
            == Some(config.trust_exit_code),
        o.trust_exit_code is None && o.no_trust_exit_code is Some ==> spec_updated(o, config).trust_exit_code
            == Some(false),
{
}

/// Inserting one item after the first `k` items of a sequence built from
/// `h` of length `k` and `r`.
proof fn lemma_insert_after_prefix(h: Seq<Seq<u8>>, x: Seq<u8>, r: Seq<Seq<u8>>)
    ensures
        h + seq![x] + r == (h + r).take(h.len() as int) + seq![x] + (h + r).skip(h.len() as int),
        (h + seq![x] + r)[h.len() as int] == x,
{
    assert((h + r).take(h.len() as int) =~= h);
    assert((h + r).skip(h.len() as int) =~= r);
}

/// `--staged` adds exactly one argument to the `git diff` command line,
/// whatever the other options (per-file or directory diff alike): the
/// command with it is the command without it with "--staged" after
/// "git diff" and the "--no-index" that may follow them.
#[verifier::spinoff_prover]
#[verifier::rlimit(80)]
pub proof fn lemma_staged_adds_staged(o: DifftoolOptions)
    ensures
        ({
            let on = DifftoolOptions { staged: true, ..o };
            let off = DifftoolOptions { staged: false, ..o };
            let k: int = if o.no_index { 3 } else { 2 };
            &&& spec_git_diff_command(on) == spec_git_diff_command(off).take(k) + seq![utf8("--staged"@)]
                + spec_git_diff_command(off).skip(k)
            &&& spec_git_diff_command(on)[k] == utf8("--staged"@)
            &&& spec_git_diff_command(on).contains(utf8("--staged"@))
        }),
{
    let on = DifftoolOptions { staged: true, ..o };
    let off = DifftoolOptions { staged: false, ..o };
    let k: int = if o.no_index { 3 } else { 2 };
    let x = utf8("--staged"@);
    let ni = flag_if(o.no_index, "--no-index"@);
    assert(flag_if(true, "--staged"@) == seq![x]) by {
        reveal(flag_if);
    }
    assert(flag_if(false, "--staged"@) == Seq::<Seq<u8>>::empty()) by {
        reveal(flag_if);
    }
    assert(ni.len() == (if o.no_index { 1int } else { 0 })) by {
        reveal(flag_if);
    }
    let head = seq![utf8("git"@), utf8("diff"@)] + ni;
    let rest_opts = flag_if(o.reverse, "-R"@) + flag_with_value("-O"@, o.order_file) + flag_with_value(
        "--rotate-to="@,
        o.rotate_to,
    ) + flag_with_value("-S"@, o.search) + flag_if(o.pickaxe_all, "--pickaxe-all"@)
        + flag_with_value("--skip-to="@, o.skip_to);
    let tail = (if o.dir_diff {
        seq![utf8("--raw"@), utf8("--no-abbrev"@), utf8("-z"@)]
    } else {
        Seq::empty()
    }) + args_view(o.arguments@) + (if o.pathspecs@.len() > 0 {
        seq![utf8("--"@)] + args_view(o.pathspecs@)
    } else {
        Seq::empty()
    });
    let r = rest_opts + tail;
    assert(spec_diff_option_args(off) =~= ni + rest_opts);
    assert(spec_diff_option_args(on) =~= ni + seq![x] + rest_opts);
    assert(spec_git_diff_command(off) =~= head + r);
    assert(spec_git_diff_command(on) =~= head + seq![x] + r);
    lemma_insert_after_prefix(head, x, r);
    assert(spec_git_diff_command(on).contains(x)) by {
        assert(spec_git_diff_command(on)[k] == x);
    }
}

proof fn lemma_flag_if_len(on: bool, flag: Seq<char>)
    ensures
        flag_if(on, flag).len() == (if on { 1int } else { 0 }),
        on ==> flag_if(on, flag)[0] == utf8(flag),
{
    reveal(flag_if);
}

/// `-R` adds its one argument to the `git diff` command line, whatever the
/// other options: the command with it is one argument longer than without,
/// and holds `-R`.
pub proof fn lemma_reverse_adds_r(o: DifftoolOptions)
    ensures
        ({
            let on = DifftoolOptions { reverse: true, ..o };
            let off = DifftoolOptions { reverse: false, ..o };
            &&& spec_git_diff_command(on).len() == spec_git_diff_command(off).len() + 1
            &&& spec_git_diff_command(on).contains(utf8("-R"@))
        }),
{
    lemma_flag_if_len(true, "-R"@);
    lemma_flag_if_len(false, "-R"@);
    lemma_flag_if_len(o.no_index, "--no-index"@);
    lemma_flag_if_len(o.staged, "--staged"@);
    let on = DifftoolOptions { reverse: true, ..o };
    let a = spec_diff_option_args(on);
    let i: int = (flag_if(o.no_index, "--no-index"@).len() + flag_if(o.staged, "--staged"@).len()) as int;
    assert(a[i] == utf8("-R"@));
    let c = spec_git_diff_command(on);
    assert(c[2 + i] == utf8("-R"@));
}

/// `--pickaxe-all` adds its one argument to the `git diff` command line,
/// whatever the other options.
pub proof fn lemma_pickaxe_all_adds_its_flag(o: DifftoolOptions)
    ensures
        ({
            let on = DifftoolOptions { pickaxe_all: true, ..o };
            let off = DifftoolOptions { pickaxe_all: false, ..o };
            &&& spec_git_diff_command(on).len() == spec_git_diff_command(off).len() + 1
            &&& spec_git_diff_command(on).contains(utf8("--pickaxe-all"@))
        }),
{
    lemma_flag_if_len(true, "--pickaxe-all"@);
    lemma_flag_if_len(false, "--pickaxe-all"@);
    let on = DifftoolOptions { pickaxe_all: true, ..o };
    let front = flag_if(o.no_index, "--no-index"@) + flag_if(o.staged, "--staged"@) + flag_if(o.reverse, "-R"@)
        + flag_with_value("-O"@, o.order_file) + flag_with_value("--rotate-to="@, o.rotate_to)
        + flag_with_value("-S"@, o.search);
    let a = spec_diff_option_args(on);
    let i: int = front.len() as int;
    assert(a[i] == utf8("--pickaxe-all"@));
    let c = spec_git_diff_command(on);
    assert(c[2 + i] == utf8("--pickaxe-all"@));
}

/// `--no-index` adds its one argument, right after `git diff`, whatever the
/// other options.
pub proof fn lemma_no_index_adds_its_flag(o: DifftoolOptions)
    ensures
        ({
            let on = DifftoolOptions { no_index: true, ..o };
            let off = DifftoolOptions { no_index: false, ..o };
            &&& spec_git_diff_command(on).len() == spec_git_diff_command(off).len() + 1
            &&& spec_git_diff_command(on)[2] == utf8("--no-index"@)
        }),
{
    lemma_flag_if_len(true, "--no-index"@);
    lemma_flag_if_len(false, "--no-index"@);
}

/// The command line begins with `git diff`; in directory diff mode
/// `--raw --no-abbrev -z` follow the options that stand for difftool
/// options, which per-file mode leaves out.
pub proof fn lemma_dir_diff_adds_raw_output(o: DifftoolOptions)
    ensures
        spec_git_diff_command(o)[0] == utf8("git"@),
        spec_git_diff_command(o)[1] == utf8("diff"@),
        ({
            let on = DifftoolOptions { dir_diff: true, ..o };
            let off = DifftoolOptions { dir_diff: false, ..o };
            let k: int = 2 + spec_diff_option_args(o).len() as int;
            &&& spec_git_diff_command(on).len() == spec_git_diff_command(off).len() + 3
            &&& spec_git_diff_command(on)[k] == utf8("--raw"@)
            &&& spec_git_diff_command(on)[k + 1] == utf8("--no-abbrev"@)
            &&& spec_git_diff_command(on)[k + 2] == utf8("-z"@)
        }),
{
    let on = DifftoolOptions { dir_diff: true, ..o };
    assert(spec_diff_option_args(on) == spec_diff_option_args(o));
}

/// The environment of the tools: it ends with `GIT_DIFFTOOL_TRUST_EXIT_CODE`,
/// "true" exactly when the exit code is trusted; it begins with
/// `GIT_MERGETOOL_GUI` set to "true" for `--gui` (whatever `--no-gui`
/// says) and to "false" for `--no-gui` alone; it names the tool and the
/// external command when they are given; and it holds nothing else.
pub proof fn lemma_tool_environment(o: DifftoolOptions)
    ensures
        ({
            let env = spec_difftool_environment(o);
            &&& env.len() == (if o.gui is Some || o.no_gui is Some { 1int } else { 0 }) + (if o.tool is Some {
                1int
            } else {
                0
            }) + (if o.extcmd is Some { 1int } else { 0 }) + 1
            &&& env.last() == ("GIT_DIFFTOOL_TRUST_EXIT_CODE"@, if o.trust_exit_code == Some(true) {
                "true"@
            } else {
                "false"@
            })
            &&& o.gui is Some ==> env[0] == ("GIT_MERGETOOL_GUI"@, "true"@)
            &&& o.gui is None && o.no_gui is Some ==> env[0] == ("GIT_MERGETOOL_GUI"@, "false"@)
            &&& forall|t: String| o.tool == Some(t) ==> env.contains(("GIT_DIFF_TOOL"@, t@))
            &&& forall|x: String| o.extcmd == Some(x) ==> env.contains(("GIT_DIFFTOOL_EXTCMD"@, x@))
        }),
{
    let env = spec_difftool_environment(o);
    let g: int = if o.gui is Some || o.no_gui is Some { 1 } else { 0 };
    let t: int = if o.tool is Some { 1 } else { 0 };
    assert forall|tt: String| o.tool == Some(tt) implies env.contains(("GIT_DIFF_TOOL"@, tt@)) by {
        assert(env[g] == ("GIT_DIFF_TOOL"@, tt@));
    }
    assert forall|x: String| o.extcmd == Some(x) implies env.contains(("GIT_DIFFTOOL_EXTCMD"@, x@)) by {
        assert(env[g + t] == ("GIT_DIFFTOOL_EXTCMD"@, x@));
    }
}

/// The environment of `git diff` in per-file mode: no pager and the
/// difftool helper as external diff, then `GIT_DIFFTOOL_PROMPT=true` for
/// `--prompt` (whatever `--no-prompt` says), `GIT_DIFFTOOL_NO_PROMPT=true`
/// for `--no-prompt` alone, and nothing more without either.
pub proof fn lemma_file_diff_environment(o: DifftoolOptions)
    ensures
        spec_file_diff_environment(o)[0] == ("GIT_PAGER"@, ""@),
        spec_file_diff_environment(o)[1] == ("GIT_EXTERNAL_DIFF"@, "git-difftool--helper"@),
        o.prompt is Some ==> spec_file_diff_environment(o).len() == 3 && spec_file_diff_environment(o)[2] == (
            "GIT_DIFFTOOL_PROMPT"@,
            "true"@,
        ),
        o.prompt is None && o.no_prompt is Some ==> spec_file_diff_environment(o).len() == 3
            && spec_file_diff_environment(o)[2] == ("GIT_DIFFTOOL_NO_PROMPT"@, "true"@),
        o.prompt is None && o.no_prompt is None ==> spec_file_diff_environment(o).len() == 2,
{
}

} // verus!
