//! The decisions of the directory diff: what each record of `git diff`
//! becomes in the two temporary directories, which tool runs on them, what
//! is copied back to the work tree afterwards, and the exit code.
use vstd::prelude::*;
use vstd::hash_set::StringHashSet;
use crate::builtin::difftool::options::DifftoolOptions;
use crate::builtin::difftool::raw::{
    IndexInfo, IndexInfoView, NulReader, Record, RecordOutcome, after_read, chunk_end, read_bytes_until_null,
    spec_read_record,
};
use crate::builtin::difftool::standin::{StandinMap, add_left_or_right, spec_standin_content, with_side};
use crate::hash::{HashAlgorithm, ObjectID, ObjectIDView, spec_null_oid};
use crate::hex::{hex_digit, hex_from_oid, spec_oid_to_hex};
use crate::object::{is_git_directory_link, is_link, is_regular_file, S_IFGITLINK, S_IFLNK, S_IFMT, S_IFREG};

verus! {

// ---------------------------------------------------------------------------
// One record
// ---------------------------------------------------------------------------

/// Whether a record changes a submodule on either side.
pub open spec fn spec_is_submodule_change(info: IndexInfoView) -> bool {
    (info.mode_left & S_IFMT) == S_IFGITLINK || (info.mode_right & S_IFMT) == S_IFGITLINK
}

/// Whether a record changes a submodule on either side.
pub fn is_submodule_change(info: &IndexInfo) -> (r: bool)
    ensures
        r == spec_is_submodule_change(info@),
{
    is_git_directory_link(info.mode_left) || is_git_directory_link(info.mode_right)
}

/// Whether the left side is checked out into the left directory: it exists
/// and the record is not a copy.
pub open spec fn spec_left_needs_checkout(info: IndexInfoView) -> bool {
    info.mode_left != 0 && info.status != 'C'
}

/// Whether the left side is checked out into the left directory.
pub fn left_needs_checkout(info: &IndexInfo) -> (r: bool)
    ensures
        r == spec_left_needs_checkout(info@),
{
    info.mode_left != 0 && info.status != 'C'
}

/// Whether the right side is a file that the right directory gets, from the
/// work tree or by checkout: it exists and is not a symbolic link.
pub open spec fn spec_right_is_file(info: IndexInfoView) -> bool {
    info.mode_right != 0 && (info.mode_right & S_IFMT) != S_IFLNK
}

/// Whether the right side is a file that the right directory gets.
pub fn right_is_file(info: &IndexInfo) -> (r: bool)
    ensures
        r == spec_right_is_file(info@),
{
    info.mode_right != 0 && !is_link(info.mode_right)
}

/// "Subproject commit <hex>", the text of a submodule's stand-in file.
pub open spec fn spec_subproject_text(oid: ObjectIDView) -> Seq<char> {
    "Subproject commit "@ + spec_oid_to_hex(oid)
}

/// The texts of the two stand-in files of a submodule: its commit on each
/// side, the right one marked `-dirty` when the two differ.
pub open spec fn spec_submodule_texts(info: IndexInfoView) -> (Seq<char>, Seq<char>) {
    (
        spec_subproject_text(info.oid_left),
        if info.oid_left != info.oid_right {
            spec_subproject_text(info.oid_right) + "-dirty"@
        } else {
            spec_subproject_text(info.oid_right)
        },
    )
}

fn subproject_text(oid: &ObjectID) -> (s: String)
    ensures
        s@ == spec_subproject_text(oid@),
{
    let mut s = "Subproject commit ".to_owned();
    let hex = hex_from_oid(oid);
    s.append(hex.as_str());
    s
}

/// The texts of the two stand-in files of a submodule.
pub fn submodule_texts(info: &IndexInfo) -> (r: (String, String))
    ensures
        (r.0@, r.1@) == spec_submodule_texts(info@),
{
    let left = subproject_text(&info.oid_left);
    let mut right = subproject_text(&info.oid_right);
    if !info.oid_left.same_as(&info.oid_right) {
        right.append("-dirty");
    }
    (left, right)
}

/// Where the text of a symbolic link comes from.
#[derive(Debug, Clone, Copy, PartialEq, Eq, Structural)]
pub enum SymlinkSource {
    /// The link in the work tree, read with `readlink`.
    ReadLink,
    /// The file in the work tree that stands for the link where symbolic
    /// links are not supported.
    ReadFile,
    /// The blob of the object database.
    ObjectDatabase,
}

/// Where the text of a symbolic link comes from: the work tree for the null
/// object id (a link as it is now), else the object database.
pub open spec fn spec_symlink_source(oid: ObjectIDView, algo: HashAlgorithm, has_symlinks: bool) -> SymlinkSource {
    if oid == spec_null_oid(algo) {
        if has_symlinks {
            SymlinkSource::ReadLink
        } else {
            SymlinkSource::ReadFile
        }
    } else {
        SymlinkSource::ObjectDatabase
    }
}

/// Where the text of a symbolic link comes from.
pub fn symlink_source(oid: &ObjectID, algo: HashAlgorithm, has_symlinks: bool) -> (s: SymlinkSource)
    ensures
        s == spec_symlink_source(oid@, algo, has_symlinks),
{
    let null = algo.null_oid();
    if oid.same_as(&null) {
        if has_symlinks {
            SymlinkSource::ReadLink
        } else {
            SymlinkSource::ReadFile
        }
    } else {
        SymlinkSource::ObjectDatabase
    }
}

/// Whether the work tree file can stand for the right side, given the
/// object id that hashing it produced: a right side with the null object id
/// takes that id, any other must equal it.
pub fn adopt_work_tree_oid(oid: &mut ObjectID, algo: HashAlgorithm, work_tree_oid: &ObjectID) -> (r: bool)
    ensures
        r == (old(oid)@ == spec_null_oid(algo) || old(oid)@ == work_tree_oid@),
        final(oid)@ == (if old(oid)@ == spec_null_oid(algo) {
            work_tree_oid@
        } else {
            old(oid)@
        }),
{
    let null = algo.null_oid();
    if oid.same_as(&null) {
        *oid = work_tree_oid.clone_id();
        true
    } else {
        oid.same_as(work_tree_oid)
    }
}

/// Whether a work tree file used for the right side is added to the index of
/// the work tree: when its object id is not null (edits to tracked files).
pub fn needs_index_entry(oid: &ObjectID, algo: HashAlgorithm) -> (r: bool)
    ensures
        r == (oid@ != spec_null_oid(algo)),
{
    let null = algo.null_oid();
    !oid.same_as(&null)
}

// ---------------------------------------------------------------------------
// The state built from the records
// ---------------------------------------------------------------------------

/// The stand-in texts of submodules after a submodule record: for a path
/// on both sides, both texts at once (replacing what the path had); for a
/// copy or a rename, the left text at the source path and the right text at
/// the destination path.
pub open spec fn spec_submodules_after(
    m: Map<Seq<char>, (Option<Seq<char>>, Option<Seq<char>>)>,
    info: IndexInfoView,
    src: Seq<char>,
    dst: Seq<char>,
) -> Map<Seq<char>, (Option<Seq<char>>, Option<Seq<char>>)> {
    let (l, r) = spec_submodule_texts(info);
    if src == dst {
        m.insert(src, (Some(l), Some(r)))
    } else {
        let m1 = m.insert(src, with_side(if m.contains_key(src) { Some(m[src]) } else { None }, l, false));
        m1.insert(dst, with_side(if m1.contains_key(dst) { Some(m1[dst]) } else { None }, r, true))
    }
}

/// A stand-in text of a submodule never ends with a newline: it ends with
/// the space of "Subproject commit ", a hexadecimal digit, or the `y` of
/// `-dirty`.
proof fn lemma_subproject_text_last(oid: ObjectIDView)
    ensures
        spec_subproject_text(oid).len() > 0,
        spec_subproject_text(oid).last() != '\n',
        (spec_subproject_text(oid) + "-dirty"@).last() != '\n',
{
    reveal_strlit("Subproject commit ");
    reveal_strlit("-dirty");
    let h = spec_oid_to_hex(oid);
    let t = spec_subproject_text(oid);
    assert(t.last() == (if h.len() > 0 { h.last() } else { ' ' }));
    if h.len() > 0 {
        let b = oid.0.take(oid.1.spec_rawsz() as int);
        let i = h.len() - 1;
        assert(i % 2 == 1);
        let v = b[i / 2] as int % 16;
        assert(0 <= v < 16);
        assert(h.last() == hex_digit(v));
        assert(hex_digit(v) != '\n') by {
            if v < 10 {
                assert((('0' as int) + v) as char as int == 48 + v);
            } else {
                assert((('a' as int) + v - 10) as char as int == 87 + v);
            }
        }
    }
    assert((t + "-dirty"@).last() == 'y');
}

/// The stand-in files of a submodule record whose two paths no earlier
/// record named: the left file at the source path holds
/// "Subproject commit <left hex>" and a newline; the right file at the
/// destination path begins with "Subproject commit <right hex>" and ends
/// with a newline.
pub proof fn lemma_submodule_standins(
    m: Map<Seq<char>, (Option<Seq<char>>, Option<Seq<char>>)>,
    info: IndexInfoView,
    src: Seq<char>,
    dst: Seq<char>,
)
    requires
        !m.contains_key(src),
        !m.contains_key(dst),
    ensures
        ({
            let m2 = spec_submodules_after(m, info, src, dst);
            let right_prefix = spec_subproject_text(info.oid_right);
            &&& m2.contains_key(src)
            &&& m2.contains_key(dst)
            &&& m2[src].0 == Some(spec_subproject_text(info.oid_left))
            &&& spec_standin_content(m2[src].0.unwrap()) == spec_subproject_text(info.oid_left).push('\n')
            &&& m2[dst].1 is Some
            &&& spec_standin_content(m2[dst].1.unwrap()).take(right_prefix.len() as int) == right_prefix
            &&& spec_standin_content(m2[dst].1.unwrap()).last() == '\n'
        }),
{
    lemma_subproject_text_last(info.oid_left);
    lemma_subproject_text_last(info.oid_right);
    let r = spec_submodule_texts(info).1;
    let right_prefix = spec_subproject_text(info.oid_right);
    assert(r.take(right_prefix.len() as int) =~= right_prefix);
    assert(spec_standin_content(r) =~= r.push('\n'));
    assert(r.push('\n').take(right_prefix.len() as int) =~= right_prefix);
}

/// What the directory diff gathers while it reads the records: the
/// stand-in texts of submodules and symbolic links, the work tree paths
/// already handled, and whether any record was counted.
pub struct DirDiffState {
    submodules: StandinMap,
    symlinks: StandinMap,
    work_tree_dups: StringHashSet,
    counted: bool,
}

impl DirDiffState {
    /// The stand-in texts of submodules.
    pub closed spec fn spec_submodules(&self) -> Map<Seq<char>, (Option<Seq<char>>, Option<Seq<char>>)> {
        self.submodules@
    }

    /// The stand-in texts of symbolic links.
    pub closed spec fn spec_symlinks(&self) -> Map<Seq<char>, (Option<Seq<char>>, Option<Seq<char>>)> {
        self.symlinks@
    }

    /// Whether a record was counted.
    pub closed spec fn spec_counted(&self) -> bool {
        self.counted
    }

    /// The stand-in texts of submodules.
    pub fn submodules(&self) -> (m: &StandinMap)
        ensures
            m@ == self.spec_submodules(),
    {
        &self.submodules
    }

    /// The stand-in texts of symbolic links.
    pub fn symlinks(&self) -> (m: &StandinMap)
        ensures
            m@ == self.spec_symlinks(),
    {
        &self.symlinks
    }

    /// Whether a record was counted: without one there is nothing to diff.
    pub fn counted(&self) -> (c: bool)
        ensures
            c == self.spec_counted(),
    {
        self.counted
    }

    /// The work tree paths already handled.
    pub closed spec fn spec_dups(&self) -> Set<Seq<char>> {
        self.work_tree_dups@
    }

    /// Nothing gathered yet.
    pub fn new() -> (s: Self)
        ensures
            s.spec_submodules() == Map::<Seq<char>, (Option<Seq<char>>, Option<Seq<char>>)>::empty(),
            s.spec_symlinks() == Map::<Seq<char>, (Option<Seq<char>>, Option<Seq<char>>)>::empty(),
            s.spec_dups() == Set::<Seq<char>>::empty(),
            !s.spec_counted(),
    {
        DirDiffState {
            submodules: StandinMap::new(),
            symlinks: StandinMap::new(),
            work_tree_dups: StringHashSet::new(),
            counted: false,
        }
    }

    /// Count a record.
    pub fn count_record(&mut self)
        ensures
            final(self).spec_counted(),
            final(self).spec_submodules() == old(self).spec_submodules(),
            final(self).spec_symlinks() == old(self).spec_symlinks(),
            final(self).spec_dups() == old(self).spec_dups(),
    {
        self.counted = true;
    }

    /// Record a submodule change: for a path on both sides, both texts at
    /// once (replacing what the path had); for a copy or a rename, the left
    /// text at the source path and the right text at the destination path.
    pub fn record_submodule(&mut self, record: &Record)
        ensures
            final(self).spec_symlinks() == old(self).spec_symlinks(),
            final(self).spec_dups() == old(self).spec_dups(),
            final(self).spec_counted() == old(self).spec_counted(),
            final(self).spec_submodules() == spec_submodules_after(
                old(self).spec_submodules(),
                record.info@,
                record.src_path@,
                record.dst_path@,
            ),
    {
        let (left_value, right_value) = submodule_texts(&record.info);
        if record.src_path == record.dst_path {
            self.submodules.insert(record.src_path.clone(), Some(left_value), Some(right_value));
        } else {
            add_left_or_right(&mut self.submodules, &record.src_path, left_value, false);
            add_left_or_right(&mut self.submodules, &record.dst_path, right_value, true);
        }
    }

    /// Record the text of a symbolic link on one side.
    pub fn record_symlink(&mut self, path: &String, content: String, is_right: bool)
        ensures
            final(self).spec_submodules() == old(self).spec_submodules(),
            final(self).spec_dups() == old(self).spec_dups(),
            final(self).spec_counted() == old(self).spec_counted(),
            final(self).spec_symlinks() == old(self).spec_symlinks().insert(
                path@,
                with_side(
                    if old(self).spec_symlinks().contains_key(path@) {
                        Some(old(self).spec_symlinks()[path@])
                    } else {
                        None
                    },
                    content@,
                    is_right,
                ),
            ),
    {
        add_left_or_right(&mut self.symlinks, path, content, is_right);
    }

    /// Claim a work tree path for the right directory: `true` the first
    /// time, `false` when the path was already handled (then it is skipped).
    pub fn claim_work_tree_path(&mut self, path: &String) -> (fresh: bool)
        ensures
            fresh == !old(self).spec_dups().contains(path@),
            final(self).spec_dups() == old(self).spec_dups().insert(path@),
            final(self).spec_submodules() == old(self).spec_submodules(),
            final(self).spec_symlinks() == old(self).spec_symlinks(),
            final(self).spec_counted() == old(self).spec_counted(),
    {
        if self.work_tree_dups.contains(path.as_str()) {
            proof {
                assert(self.work_tree_dups@.insert(path@) =~= self.work_tree_dups@);
            }
            false
        } else {
            self.work_tree_dups.insert(path.clone());
            true
        }
    }
}

/// What becomes of the right side of a record that is not a submodule.
#[derive(Debug, Clone, Copy, PartialEq, Eq, Structural)]
pub enum RightAction {
    /// The right side is absent or a symbolic link: nothing to write.
    Nothing,
    /// The path was already written for an earlier record: the rest of the
    /// record is skipped.
    Duplicate,
    /// The work tree file is used if it can be, else the right side is
    /// checked out.
    WorkTreeOrCheckout,
}

/// The steps a record takes in the directory diff.
#[derive(Debug, Clone, Copy, PartialEq, Eq, Structural)]
pub struct RecordPlan {
    /// A submodule change: its stand-in texts are recorded and nothing is
    /// checked out or read.
    pub submodule: bool,
    /// Read the text of the left symbolic link at the source path.
    pub read_left_link: bool,
    /// Read the text of the right symbolic link at the destination path.
    pub read_right_link: bool,
    /// Check the left side out into the left directory.
    pub checkout_left: bool,
    /// What becomes of the right side.
    pub right: RightAction,
}

/// The steps of a record, given whether its destination path was already
/// written: a submodule change takes none of them; otherwise links are read
/// on each side that is a link, the left side is checked out when it exists
/// and the record is not a copy, and a right side that is a file is written
/// once per path.
pub open spec fn spec_plan(info: IndexInfoView, seen_dst: bool) -> RecordPlan {
    if spec_is_submodule_change(info) {
        RecordPlan {
            submodule: true,
            read_left_link: false,
            read_right_link: false,
            checkout_left: false,
            right: RightAction::Nothing,
        }
    } else {
        RecordPlan {
            submodule: false,
            read_left_link: (info.mode_left & S_IFMT) == S_IFLNK,
            read_right_link: (info.mode_right & S_IFMT) == S_IFLNK,
            checkout_left: spec_left_needs_checkout(info),
            right: if !spec_right_is_file(info) {
                RightAction::Nothing
            } else if seen_dst {
                RightAction::Duplicate
            } else {
                RightAction::WorkTreeOrCheckout
            },
        }
    }
}

/// Count a record and decide its steps: a submodule change records its
/// stand-in texts (as `record_submodule` states) and takes no other step;
/// otherwise the steps are those of `spec_plan`, and a right side that is a
/// file claims its destination path.
pub fn plan_record(state: &mut DirDiffState, record: &Record) -> (p: RecordPlan)
    ensures
        p == spec_plan(record.info@, old(state).spec_dups().contains(record.dst_path@)),
        final(state).spec_counted(),
        final(state).spec_symlinks() == old(state).spec_symlinks(),
        final(state).spec_dups() == (if !spec_is_submodule_change(record.info@) && spec_right_is_file(
            record.info@,
        ) {
            old(state).spec_dups().insert(record.dst_path@)
        } else {
            old(state).spec_dups()
        }),
        final(state).spec_submodules() == (if spec_is_submodule_change(record.info@) {
            spec_submodules_after(old(state).spec_submodules(), record.info@, record.src_path@, record.dst_path@)
        } else {
            old(state).spec_submodules()
        }),
{
    state.count_record();
    if is_submodule_change(&record.info) {
        state.record_submodule(record);
        return RecordPlan {
            submodule: true,
            read_left_link: false,
            read_right_link: false,
            checkout_left: false,
            right: RightAction::Nothing,
        };
    }
    let right = if !right_is_file(&record.info) {
        RightAction::Nothing
    } else if state.claim_work_tree_path(&record.dst_path) {
        RightAction::WorkTreeOrCheckout
    } else {
        RightAction::Duplicate
    };
    RecordPlan {
        submodule: false,
        read_left_link: is_link(record.info.mode_left),
        read_right_link: is_link(record.info.mode_right),
        checkout_left: left_needs_checkout(&record.info),
        right,
    }
}

/// A submodule record takes no step but recording its stand-in texts:
/// nothing is checked out, no link is read, no right side is written.
pub proof fn lemma_submodule_takes_no_step(info: IndexInfoView, seen_dst: bool)
    requires
        spec_is_submodule_change(info),
    ensures
        spec_plan(info, seen_dst).submodule,
        !spec_plan(info, seen_dst).checkout_left,
        !spec_plan(info, seen_dst).read_left_link,
        !spec_plan(info, seen_dst).read_right_link,
        spec_plan(info, seen_dst).right == RightAction::Nothing,
{
}

/// What is done for a right side that is a file, once it is known whether
/// the work tree file can stand for it.
#[derive(Debug, Clone, Copy, PartialEq, Eq, Structural)]
pub enum RightStep {
    /// Check the right side out into the right directory.
    Checkout,
    /// Add the work tree file to the index of the work tree and link the
    /// right directory's file to it.
    IndexAndLink,
    /// Add the work tree file to the index of the work tree and copy it into
    /// the right directory.
    IndexAndCopy,
    /// The work tree file stands for a side with the null object id:
    /// nothing more.
    Nothing,
}

/// What is done for a right side that is a file: a checkout unless the work
/// tree file can stand for it; then, for a side whose object id is not
/// null, an index entry and a link (with `--symlinks`) or a copy.
pub open spec fn spec_right_step(use_work_tree: bool, oid: ObjectIDView, algo: HashAlgorithm, symlinks: bool) -> RightStep {
    if !use_work_tree {
        RightStep::Checkout
    } else if oid != spec_null_oid(algo) {
        if symlinks {
            RightStep::IndexAndLink
        } else {
            RightStep::IndexAndCopy
        }
    } else {
        RightStep::Nothing
    }
}

/// What is done for a right side that is a file.
pub fn right_step(use_work_tree: bool, oid: &ObjectID, algo: HashAlgorithm, symlinks: bool) -> (r: RightStep)
    ensures
        r == spec_right_step(use_work_tree, oid@, algo, symlinks),
{
    if !use_work_tree {
        RightStep::Checkout
    } else if needs_index_entry(oid, algo) {
        if symlinks {
            RightStep::IndexAndLink
        } else {
            RightStep::IndexAndCopy
        }
    } else {
        RightStep::Nothing
    }
}

// ---------------------------------------------------------------------------
// The tool and the copy back
// ---------------------------------------------------------------------------

/// The command run on the two directories: the `--extcmd` command, or the
/// difftool helper (which is then told that this is a directory diff), with
/// the left and right directories as its last two arguments.
pub open spec fn spec_tool_command(o: DifftoolOptions, left: Seq<char>, right: Seq<char>) -> (Seq<Seq<char>>, bool) {
    match o.extcmd {
        Some(x) => (seq![x@, left, right], false),
        None => (seq!["git"@, "difftool--helper"@, left, right], true),
    }
}

/// The command run on the two directories, and whether
/// `GIT_DIFFTOOL_DIRDIFF=true` is set for it.
pub fn tool_command(options: &DifftoolOptions, left: &String, right: &String) -> (r: (Vec<String>, bool))
    ensures
        (r.0@.map_values(|s: String| s@), r.1) == spec_tool_command(*options, left@, right@),
{
    let mut cmd: Vec<String> = Vec::new();
    let set_dirdiff = match &options.extcmd {
        Some(x) => {
            cmd.push(x.clone());
            false
        },
        None => {
            cmd.push("git".to_owned());
            cmd.push("difftool--helper".to_owned());
            true
        },
    };
    cmd.push(left.clone());
    cmd.push(right.clone());
    assert(cmd@.map_values(|s: String| s@) =~= spec_tool_command(*options, left@, right@).0);
    (cmd, set_dirdiff)
}

/// Whether a file of the right directory, by its mode from `lstat`, is
/// compared with the work tree after the tool ran: a regular file, unless it
/// is a link that `--symlinks` put there.
pub open spec fn spec_worth_copying_back(symlinks: bool, mode: i32) -> bool {
    !(symlinks && (mode & S_IFMT) == S_IFLNK) && (mode & S_IFMT) == S_IFREG
}

/// Whether a file of the right directory is compared with the work tree.
pub fn worth_copying_back(symlinks: bool, mode: i32) -> (r: bool)
    ensures
        r == spec_worth_copying_back(symlinks, mode),
{
    !(symlinks && is_link(mode)) && is_regular_file(mode)
}

/// A record whose left side or right side is a submodule (a mode of the
/// gitlink type), whatever the other side is, is a submodule change: its
/// plan records stand-ins and checks nothing out, reads no link and writes no
/// right side. A record with neither side a gitlink is no submodule change.
pub proof fn lemma_gitlink_on_either_side(info: IndexInfoView, seen_dst: bool)
    ensures
        (info.mode_left & S_IFMT) == S_IFGITLINK ==> spec_is_submodule_change(info),
        (info.mode_right & S_IFMT) == S_IFGITLINK ==> spec_is_submodule_change(info),
        (info.mode_left & S_IFMT) != S_IFGITLINK && (info.mode_right & S_IFMT) != S_IFGITLINK
            ==> !spec_is_submodule_change(info),
        ((info.mode_left & S_IFMT) == S_IFGITLINK || (info.mode_right & S_IFMT) == S_IFGITLINK) ==> {
            &&& spec_plan(info, seen_dst).submodule
            &&& !spec_plan(info, seen_dst).checkout_left
            &&& !spec_plan(info, seen_dst).read_left_link
            &&& !spec_plan(info, seen_dst).read_right_link
            &&& spec_plan(info, seen_dst).right == RightAction::Nothing
        },
{
}

/// The steps of a record with no submodule side: a link is read on each
/// side whose mode is a symbolic link; the left side is checked out exactly
/// when it exists and the record is not a copy; a right side that exists and
/// is no link is written once per path (a path already written makes it a
/// duplicate), and otherwise nothing is done for it.
pub proof fn lemma_plan_of_plain_record(info: IndexInfoView, seen_dst: bool)
    requires
        (info.mode_left & S_IFMT) != S_IFGITLINK,
        (info.mode_right & S_IFMT) != S_IFGITLINK,
    ensures
        !spec_plan(info, seen_dst).submodule,
        spec_plan(info, seen_dst).read_left_link <==> (info.mode_left & S_IFMT) == S_IFLNK,
        spec_plan(info, seen_dst).read_right_link <==> (info.mode_right & S_IFMT) == S_IFLNK,
        spec_plan(info, seen_dst).checkout_left <==> (info.mode_left != 0 && info.status != 'C'),
        (spec_plan(info, seen_dst).right == RightAction::Nothing) <==> (info.mode_right == 0 || (info.mode_right
            & S_IFMT) == S_IFLNK),
        (spec_plan(info, seen_dst).right == RightAction::Duplicate) <==> (info.mode_right != 0 && (info.mode_right
            & S_IFMT) != S_IFLNK && seen_dst),
        (spec_plan(info, seen_dst).right == RightAction::WorkTreeOrCheckout) <==> (info.mode_right != 0
            && (info.mode_right & S_IFMT) != S_IFLNK && !seen_dst),
{
}

/// A right side that is a file is checked out unless the work tree file
/// stands for it; a work tree file standing for a side with a non-null
/// object id is added to the index and linked (with `--symlinks`) or
/// copied; one standing for the null object id needs nothing more.
pub proof fn lemma_right_steps(use_work_tree: bool, oid: ObjectIDView, algo: HashAlgorithm, symlinks: bool)
    ensures
        !use_work_tree ==> spec_right_step(use_work_tree, oid, algo, symlinks) == RightStep::Checkout,
        use_work_tree && oid == spec_null_oid(algo) ==> spec_right_step(use_work_tree, oid, algo, symlinks)
            == RightStep::Nothing,
        use_work_tree && oid != spec_null_oid(algo) && symlinks ==> spec_right_step(
            use_work_tree,
            oid,
            algo,
            symlinks,
        ) == RightStep::IndexAndLink,
        use_work_tree && oid != spec_null_oid(algo) && !symlinks ==> spec_right_step(
            use_work_tree,
            oid,
            algo,
            symlinks,
        ) == RightStep::IndexAndCopy,
{
}

/// The text of a symbolic link with the null object id (the link as it is
/// in the work tree) is read from the work tree, with `readlink` where
/// links are supported; any other comes from the object database.
pub proof fn lemma_symlink_sources(oid: ObjectIDView, algo: HashAlgorithm, has_symlinks: bool)
    ensures
        oid != spec_null_oid(algo) ==> spec_symlink_source(oid, algo, has_symlinks) == SymlinkSource::ObjectDatabase,
        oid == spec_null_oid(algo) && has_symlinks ==> spec_symlink_source(oid, algo, has_symlinks)
            == SymlinkSource::ReadLink,
        oid == spec_null_oid(algo) && !has_symlinks ==> spec_symlink_source(oid, algo, has_symlinks)
            == SymlinkSource::ReadFile,
{
}

/// A file of the right directory is compared with the work tree exactly
/// when it is a regular file, with or without `--symlinks`: links and
/// directories never are.
pub proof fn lemma_worth_copying_back_is_regular(symlinks: bool, mode: i32)
    ensures
        spec_worth_copying_back(symlinks, mode) <==> (mode & S_IFMT) == S_IFREG,
        spec_worth_copying_back(true, mode) == spec_worth_copying_back(false, mode),
{
    crate::object::lemma_file_types_exclusive(mode);
}

/// What becomes of a file that the tool may have changed.
#[derive(Debug, Clone, Copy, PartialEq, Eq, Structural)]
pub enum CopyBack {
    /// The tool did not change it: nothing to do.
    Keep,
    /// Both the tool and someone in the work tree changed it: a warning and
    /// a failed run.
    BothModified,
    /// The tool changed it: it replaces the work tree file.
    CopyToWorkTree,
}

/// What becomes of a file, from whether it changed in the temporary
/// directory and in the work tree.
pub open spec fn spec_copy_back(tmp_modified: bool, work_tree_modified: bool) -> CopyBack {
    if !tmp_modified {
        CopyBack::Keep
    } else if work_tree_modified {
        CopyBack::BothModified
    } else {
        CopyBack::CopyToWorkTree
    }
}

/// What becomes of a file that the tool may have changed.
pub fn copy_back_action(tmp_modified: bool, work_tree_modified: bool) -> (a: CopyBack)
    ensures
        a == spec_copy_back(tmp_modified, work_tree_modified),
{
    if !tmp_modified {
        CopyBack::Keep
    } else if work_tree_modified {
        CopyBack::BothModified
    } else {
        CopyBack::CopyToWorkTree
    }
}

/// Only a file that the tool changed is acted on: a file the tool left as
/// it was is kept whatever happened to it in the work tree, and does not
/// change whether copying back failed. A file changed by the tool is
/// reported as changed on both sides exactly when the work tree file changed
/// too, and is copied to the work tree exactly when it did not.
pub proof fn lemma_copy_back_only_tool_changes(
    tmp_modified: bool,
    work_tree_modified: bool,
    errored: bool,
    write_ok: bool,
)
    ensures
        spec_copy_back(false, work_tree_modified) == CopyBack::Keep,
        spec_copy_back_step(errored, spec_copy_back(false, work_tree_modified), write_ok) == errored,
        (spec_copy_back(tmp_modified, work_tree_modified) == CopyBack::BothModified) <==> (tmp_modified
            && work_tree_modified),
        (spec_copy_back(tmp_modified, work_tree_modified) == CopyBack::CopyToWorkTree) <==> (tmp_modified
            && !work_tree_modified),
        (spec_copy_back(tmp_modified, work_tree_modified) == CopyBack::Keep) <==> !tmp_modified,
{
}

/// Whether copying back has failed, after one more file.
pub open spec fn spec_copy_back_step(errored: bool, action: CopyBack, write_ok: bool) -> bool {
    errored || action == CopyBack::BothModified || (action == CopyBack::CopyToWorkTree && !write_ok)
}

/// Whether copying back has failed, after one more file: a file changed on
/// both sides fails the run, and so does a copy to the work tree that could
/// not be written.
pub fn copy_back_step(errored: bool, action: CopyBack, write_ok: bool) -> (e: bool)
    ensures
        e == spec_copy_back_step(errored, action, write_ok),
{
    match action {
        CopyBack::Keep => errored,
        CopyBack::BothModified => true,
        CopyBack::CopyToWorkTree => errored || !write_ok,
    }
}

/// How a directory diff ends.
#[derive(Debug, Clone, Copy, PartialEq, Eq, Structural)]
pub struct DirDiffEnd {
    /// The exit code.
    pub exit_code: i32,
    /// Whether the tool runs on the two directories.
    pub runs_tool: bool,
    /// Whether the temporary directory is kept for the user to recover.
    pub keep_tmpdir: bool,
    /// Whether a warning reports the tool's failing exit code.
    pub warn_failed: bool,
}

/// How a directory diff ends: without a record it succeeds at once, runs no
/// tool and so touches no work tree file; otherwise the tool runs, a failed
/// copy back keeps the temporary directory and makes the exit code 1, and
/// the exit code is the tool's (128 without one, 1 for a negative one),
/// with a warning when it is not 0.
pub open spec fn spec_dir_diff_end(counted: bool, errored: bool, code: Option<i32>) -> DirDiffEnd {
    if !counted {
        DirDiffEnd { exit_code: 0, runs_tool: false, keep_tmpdir: false, warn_failed: false }
    } else {
        let tool_code = match code {
            Some(x) => x,
            None => 128,
        };
        DirDiffEnd {
            exit_code: spec_final_exit_code(errored, tool_code),
            runs_tool: true,
            keep_tmpdir: errored,
            warn_failed: !errored && tool_code != 0,
        }
    }
}

/// How a directory diff ends, from whether a record was counted, whether
/// copying back failed and the tool's exit code.
pub fn dir_diff_end(counted: bool, errored: bool, code: Option<i32>) -> (r: DirDiffEnd)
    ensures
        r == spec_dir_diff_end(counted, errored, code),
        !counted ==> r.exit_code == 0 && !r.runs_tool && !r.keep_tmpdir,
        counted && errored ==> r.exit_code == 1 && r.keep_tmpdir,
        r.exit_code >= 0,
{
    if !counted {
        return DirDiffEnd { exit_code: 0, runs_tool: false, keep_tmpdir: false, warn_failed: false };
    }
    let tool_code = status_exit_code(code);
    DirDiffEnd {
        exit_code: final_exit_code(errored, tool_code),
        runs_tool: true,
        keep_tmpdir: errored,
        warn_failed: !errored && tool_code != 0,
    }
}

/// A file changed both by the tool and in the work tree fails the run: once
/// copying back has failed it stays failed whatever the later files, and the
/// directory diff then ends with exit code 1 and keeps the temporary
/// directory, whatever the tool's exit code.
pub proof fn lemma_both_modified_fails(errored: bool, write_ok: bool, code: Option<i32>)
    ensures
        spec_copy_back(true, true) == CopyBack::BothModified,
        spec_copy_back_step(errored, CopyBack::BothModified, write_ok),
        forall|a: CopyBack, w: bool| spec_copy_back_step(true, a, w),
        spec_dir_diff_end(true, true, code).exit_code == 1,
        spec_dir_diff_end(true, true, code).keep_tmpdir,
        spec_dir_diff_end(true, true, code).runs_tool,
{
}

/// A diff without records succeeds at once: an empty output is read as the
/// end of the records with nothing counted, and a run that counted nothing
/// ends with exit code 0, no tool
/// run (so no work tree file touched) and no temporary directory kept.
pub proof fn lemma_empty_diff_succeeds(algo: HashAlgorithm, errored: bool, code: Option<i32>)
    ensures
        spec_read_record(algo, Seq::<u8>::empty(), 0) == RecordOutcome::Stop(false),
        spec_dir_diff_end(false, errored, code) == (DirDiffEnd {
            exit_code: 0,
            runs_tool: false,
            keep_tmpdir: false,
            warn_failed: false,
        }),
{
}

/// How a run that counted a record ends: the tool runs; when copying back
/// failed the exit code is 1 and the temporary directory is kept, with no
/// warning about the tool; otherwise the directory is removed, the exit code
/// is the tool's when it is not negative (1 when it is, 128 without one),
/// and a warning reports a tool that did not exit with 0.
pub proof fn lemma_counted_run_ends(errored: bool, code: Option<i32>)
    ensures
        spec_dir_diff_end(true, errored, code).runs_tool,
        spec_dir_diff_end(true, errored, code).keep_tmpdir == errored,
        errored ==> spec_dir_diff_end(true, errored, code).exit_code == 1 && !spec_dir_diff_end(
            true,
            errored,
            code,
        ).warn_failed,
        !errored && code == Some(0i32) ==> spec_dir_diff_end(true, errored, code).exit_code == 0
            && !spec_dir_diff_end(true, errored, code).warn_failed,
        forall|x: i32|
            !errored && code == Some(x) && x != 0 ==> spec_dir_diff_end(true, errored, code).warn_failed
                && spec_dir_diff_end(true, errored, code).exit_code == (if x < 0 { 1 } else { x }),
        !errored && code is None ==> spec_dir_diff_end(true, errored, code).exit_code == 128
            && spec_dir_diff_end(true, errored, code).warn_failed,
        spec_dir_diff_end(true, errored, code).exit_code >= 0,
{
}

/// The exit code of the directory diff: 1 when copying back failed,
/// otherwise the tool's code, with a negative code made 1.
pub open spec fn spec_final_exit_code(errored: bool, exit_code: i32) -> i32 {
    if errored || exit_code < 0 {
        1
    } else {
        exit_code
    }
}

/// The exit code of the directory diff.
pub fn final_exit_code(errored: bool, exit_code: i32) -> (c: i32)
    ensures
        c == spec_final_exit_code(errored, exit_code),
        c >= 0,
{
    let mut code = exit_code;
    if errored {
        code = 1;
    }
    if code < 0 {
        code = 1;
    }
    code
}

/// The exit code of a finished child: its code, or 128 (a general error)
/// when it has none, as when a signal ended it.
pub fn status_exit_code(code: Option<i32>) -> (c: i32)
    ensures
        c == (match code {
            Some(x) => x,
            None => 128,
        }),
{
    match code {
        Some(x) => x,
        None => 128,
    }
}

/// The files that `git diff-files` lists as changed.
pub struct ChangedFiles {
    files: StringHashSet,
}

impl ChangedFiles {
    /// The paths.
    pub closed spec fn spec_files(&self) -> Set<Seq<char>> {
        self.files@
    }

    /// No paths.
    pub fn new() -> (c: Self)
        ensures
            c.spec_files() == Set::<Seq<char>>::empty(),
    {
        ChangedFiles { files: StringHashSet::new() }
    }

    /// Add a path.
    pub fn insert(&mut self, path: String)
        ensures
            final(self).spec_files() == old(self).spec_files().insert(path@),
    {
        self.files.insert(path);
    }

    /// Whether a path is listed.
    pub fn contains(&self, path: &str) -> (r: bool)
        ensures
            r == self.spec_files().contains(path@),
    {
        self.files.contains(path)
    }
}

/// The fields of NUL-separated output read from `pos`, up to the end or the
/// first empty field.
pub open spec fn nul_fields(data: Seq<u8>, pos: int) -> Seq<Seq<u8>>
    decreases data.len() - pos,
{
    let end = chunk_end(data, pos);
    let field = after_read(Seq::empty(), data.subrange(pos, end));
    if pos < 0 || pos >= data.len() || end <= pos || field.len() == 0 {
        Seq::empty()
    } else {
        seq![field] + nul_fields(data, end)
    }
}

proof fn lemma_chunk_end_bounds(data: Seq<u8>, pos: int)
    requires
        0 <= pos <= data.len(),
    ensures
        pos <= chunk_end(data, pos) <= data.len(),
        pos < data.len() ==> pos < chunk_end(data, pos),
{
    crate::builtin::difftool::raw::lemma_nul_index_bounds(data, pos);
}

/// Split the output of `git diff-files --name-only -z` into the names it
/// lists, reading field by field until the end or an empty field.
pub fn nul_separated_fields(output: Vec<u8>) -> (fields: Vec<Vec<u8>>)
    ensures
        fields@.map_values(|f: Vec<u8>| f@) == nul_fields(output@, 0),
{
    let ghost data = output@;
    let mut reader = NulReader::new(output);
    let mut fields: Vec<Vec<u8>> = Vec::new();
    loop
        invariant_except_break
            fields@.map_values(|f: Vec<u8>| f@) + nul_fields(data, reader@.1 as int) == nul_fields(data, 0),
        invariant
            reader.wf(),
            reader@.0 == data,
            reader@.1 <= data.len(),
        ensures
            fields@.map_values(|f: Vec<u8>| f@) == nul_fields(data, 0),
        decreases data.len() - reader@.1,
    {
        proof {
            reader.lemma_wf();
            lemma_chunk_end_bounds(data, reader@.1 as int);
        }
        let ghost pos = reader@.1 as int;
        let mut buf: Vec<u8> = Vec::new();
        let more = read_bytes_until_null(&mut reader, &mut buf);
        assert(Seq::<u8>::empty() + data.subrange(pos, chunk_end(data, pos)) =~= data.subrange(pos, chunk_end(data, pos)));
        if !more {
            assert(nul_fields(data, pos) =~= Seq::<Seq<u8>>::empty());
            assert(fields@.map_values(|f: Vec<u8>| f@) =~= fields@.map_values(|f: Vec<u8>| f@) + nul_fields(data, pos));
            break;
        }
        let ghost before = fields@.map_values(|f: Vec<u8>| f@);
        fields.push(buf);
        assert(fields@.map_values(|f: Vec<u8>| f@) =~= before.push(buf@));
        assert(before + nul_fields(data, pos) =~= before.push(buf@) + nul_fields(data, reader@.1 as int));
    }
    fields
}

/// The command that refreshes the index of the work tree in a temporary
/// index file: `git --git-dir <dir> --work-tree <tree> update-index
/// --really-refresh -q --unmerged`.
pub open spec fn spec_update_index_command(git_dir: Seq<char>, work_tree: Seq<char>) -> Seq<Seq<char>> {
    seq![
        "git"@,
        "--git-dir"@,
        git_dir,
        "--work-tree"@,
        work_tree,
        "update-index"@,
        "--really-refresh"@,
        "-q"@,
        "--unmerged"@,
    ]
}

/// The command that lists the files that differ from that index:
/// `git --git-dir <dir> --work-tree <tree> diff-files --name-only -z`.
pub open spec fn spec_diff_files_command(git_dir: Seq<char>, work_tree: Seq<char>) -> Seq<Seq<char>> {
    seq!["git"@, "--git-dir"@, git_dir, "--work-tree"@, work_tree, "diff-files"@, "--name-only"@, "-z"@]
}

fn push_str(v: &mut Vec<String>, s: String)
    ensures
        final(v)@.map_values(|x: String| x@) == old(v)@.map_values(|x: String| x@).push(s@),
{
    v.push(s);
    assert(v@.map_values(|x: String| x@) =~= old(v)@.map_values(|x: String| x@).push(s@));
}

/// The command that refreshes the index of the work tree in a temporary
/// index file.
pub fn update_index_command(git_dir: &str, work_tree: &str) -> (cmd: Vec<String>)
    ensures
        cmd@.map_values(|s: String| s@) == spec_update_index_command(git_dir@, work_tree@),
{
    let mut cmd: Vec<String> = Vec::new();
    push_str(&mut cmd, "git".to_owned());
    push_str(&mut cmd, "--git-dir".to_owned());
    push_str(&mut cmd, git_dir.to_owned());
    push_str(&mut cmd, "--work-tree".to_owned());
    push_str(&mut cmd, work_tree.to_owned());
    push_str(&mut cmd, "update-index".to_owned());
    push_str(&mut cmd, "--really-refresh".to_owned());
    push_str(&mut cmd, "-q".to_owned());
    push_str(&mut cmd, "--unmerged".to_owned());
    assert(cmd@.map_values(|s: String| s@) =~= spec_update_index_command(git_dir@, work_tree@));
    cmd
}

/// The command that lists the files that differ from the temporary index.
pub fn diff_files_command(git_dir: &str, work_tree: &str) -> (cmd: Vec<String>)
    ensures
        cmd@.map_values(|s: String| s@) == spec_diff_files_command(git_dir@, work_tree@),
{
    let mut cmd: Vec<String> = Vec::new();
    push_str(&mut cmd, "git".to_owned());
    push_str(&mut cmd, "--git-dir".to_owned());
    push_str(&mut cmd, git_dir.to_owned());
    push_str(&mut cmd, "--work-tree".to_owned());
    push_str(&mut cmd, work_tree.to_owned());
    push_str(&mut cmd, "diff-files".to_owned());
    push_str(&mut cmd, "--name-only".to_owned());
    push_str(&mut cmd, "-z".to_owned());
    assert(cmd@.map_values(|s: String| s@) =~= spec_diff_files_command(git_dir@, work_tree@));
    cmd
}

/// Names written one after the other, each ended by a NUL byte.
pub open spec fn nul_terminated(names: Seq<Seq<u8>>) -> Seq<u8>
    decreases names.len(),
{
    if names.len() == 0 {
        Seq::empty()
    } else {
        names[0] + seq![0u8] + nul_terminated(names.drop_first())
    }
}

proof fn lemma_nul_fields_after(prefix: Seq<u8>, names: Seq<Seq<u8>>)
    requires
        forall|i: int| 0 <= i < names.len() ==> (#[trigger] names[i]).len() > 0,
        forall|i: int, j: int| 0 <= i < names.len() && 0 <= j < names[i].len() ==> names[i][j] != 0u8,
    ensures
        nul_fields(prefix + nul_terminated(names), prefix.len() as int) == names,
    decreases names.len(),
{
    let data = prefix + nul_terminated(names);
    let p = prefix.len() as int;
    if names.len() == 0 {
        assert(data =~= prefix);
        assert(nul_fields(data, p) =~= names);
    } else {
        let first = names[0];
        let tail = names.drop_first();
        assert forall|i: int| 0 <= i < tail.len() implies (#[trigger] tail[i]).len() > 0 by {
            assert(tail[i] == names[i + 1]);
        }
        assert forall|i: int, j: int| 0 <= i < tail.len() && 0 <= j < tail[i].len() implies tail[i][j] != 0u8 by {
            assert(tail[i] == names[i + 1]);
        }
        let prefix2 = prefix + first + seq![0u8];
        assert(data =~= prefix2 + nul_terminated(tail));
        lemma_nul_fields_after(prefix2, tail);
        let k = p + first.len();
        assert forall|i: int| p <= i < k implies data[i] != 0u8 by {
            assert(data[i] == first[i - p]);
        }
        assert(data[k] == 0u8);
        crate::builtin::difftool::raw::lemma_field_ends_at(data, p, k);
        assert(data.subrange(p, k) =~= first);
        assert(nul_fields(data, p) == seq![first] + nul_fields(data, k + 1));
        assert(nul_fields(data, p) =~= names);
    }
}

/// Names listed NUL-terminated, none empty and none holding a NUL, split
/// back into the same names.
pub proof fn lemma_nul_fields_round_trip(names: Seq<Seq<u8>>)
    requires
        forall|i: int| 0 <= i < names.len() ==> (#[trigger] names[i]).len() > 0,
        forall|i: int, j: int| 0 <= i < names.len() && 0 <= j < names[i].len() ==> names[i][j] != 0u8,
    ensures
        nul_fields(nul_terminated(names), 0) == names,
{
    lemma_nul_fields_after(Seq::empty(), names);
    assert(Seq::<u8>::empty() + nul_terminated(names) =~= nul_terminated(names));
}

} // verus!
