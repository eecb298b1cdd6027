//! File modes and object types as git stores them.
use vstd::prelude::*;

verus! {

/// Mask of the file-type bits of a mode (`<sys/stat.h>`).
pub const S_IFMT: i32 = 0o0170000;

/// File type of a symbolic link (`<sys/stat.h>`).
pub const S_IFLNK: i32 = 0o0120000;

/// File type git records for a submodule ("gitlink").
pub const S_IFGITLINK: i32 = 0o0160000;

/// File type of a regular file (`<sys/stat.h>`).
pub const S_IFREG: i32 = 0o0100000;

/// The four file-type bits of a mode, as a number from 0 to 15: bits 12 to 15.
pub open spec fn file_type_nibble(mode: i32) -> int {
    ((mode as int) / 4096) % 16
}

proof fn lemma_mask_is_nibble(mode: i32, expected: i32)
    requires
        expected == 0o0160000 || expected == 0o0120000 || expected == 0o0100000,
    ensures
        ((mode & 0o0170000) == expected) <==> file_type_nibble(mode) == (expected as int) / 4096,
{
    let m = mode;
    assert(expected == 0o0170000i32 & expected) by (bit_vector)
        requires
            expected == 0o0160000i32 || expected == 0o0120000i32 || expected == 0o0100000i32,
    ;
    assert(((m & 0o0170000i32) == expected) <==> (((m >> 12u32) & 15i32) == (expected >> 12u32)))
        by (bit_vector)
        requires
            expected == 0o0170000i32 & expected,
    ;
    assert(((m >> 12u32) & 15i32) as int == ((m as int) / 4096) % 16) by (bit_vector);
    assert((expected >> 12u32) as int == (expected as int) / 4096) by (bit_vector)
        requires
            expected == 0o0170000i32 & expected,
    ;
}

/// A "directory link" is a link to another git directory, AKA a submodule.
///
/// The value 0160000 is not normally a valid mode, and also just happens to
/// be S_IFDIR + S_IFLNK.
pub fn is_git_directory_link(mode: i32) -> (r: bool)
    ensures
        r == ((mode & S_IFMT) == S_IFGITLINK),
        r == (file_type_nibble(mode) == 14),
{
    proof {
        lemma_mask_is_nibble(mode, S_IFGITLINK);
    }
    (mode & S_IFMT) == S_IFGITLINK
}

/// A symlink is represented using traditional stat mode bits.
pub fn is_link(mode: i32) -> (r: bool)
    ensures
        r == ((mode & S_IFMT) == S_IFLNK),
        r == (file_type_nibble(mode) == 10),
{
    proof {
        lemma_mask_is_nibble(mode, S_IFLNK);
    }
    (mode & S_IFMT) == S_IFLNK
}

/// A regular file, by its file-type bits.
pub fn is_regular_file(mode: i32) -> (r: bool)
    ensures
        r == ((mode & S_IFMT) == S_IFREG),
        r == (file_type_nibble(mode) == 8),
{
    proof {
        lemma_mask_is_nibble(mode, S_IFREG);
    }
    (mode & S_IFMT) == S_IFREG
}

/// A mode has at most one file type: it is never two of submodule, symbolic
/// link and regular file at once.
pub proof fn lemma_file_types_exclusive(mode: i32)
    ensures
        !(((mode & S_IFMT) == S_IFGITLINK) && ((mode & S_IFMT) == S_IFLNK)),
        !(((mode & S_IFMT) == S_IFGITLINK) && ((mode & S_IFMT) == S_IFREG)),
        !(((mode & S_IFMT) == S_IFLNK) && ((mode & S_IFMT) == S_IFREG)),
{
}

/// The type of a git object, with the numbers git uses for them.
#[derive(Debug, Clone, Copy, PartialEq, Eq, Structural)]
pub enum ObjectType {
    Bad,
    NoType,
    Commit,
    Tree,
    Blob,
    Tag,
    OfsDelta,
    RefDelta,
    Any,
}

impl ObjectType {
    /// The number git gives this object type (`enum object_type`).
    pub open spec fn spec_code(self) -> i32 {
        match self {
            ObjectType::Bad => -1i32,
            ObjectType::NoType => 0,
            ObjectType::Commit => 1,
            ObjectType::Tree => 2,
            ObjectType::Blob => 3,
            ObjectType::Tag => 4,
            ObjectType::OfsDelta => 6,
            ObjectType::RefDelta => 7,
            ObjectType::Any => 8,
        }
    }

    /// The number git gives this object type.
    pub fn code(&self) -> (c: i32)
        ensures
            c == self.spec_code(),
    {
        match self {
            ObjectType::Bad => -1,
            ObjectType::NoType => 0,
            ObjectType::Commit => 1,
            ObjectType::Tree => 2,
            ObjectType::Blob => 3,
            ObjectType::Tag => 4,
            ObjectType::OfsDelta => 6,
            ObjectType::RefDelta => 7,
            ObjectType::Any => 8,
        }
    }

    /// The object type with the given number, if there is one (5 is reserved
    /// for future expansion and names none).
    pub fn from_code(code: i32) -> (t: Option<ObjectType>)
        ensures
            t matches Some(k) ==> k.spec_code() == code,
            t is None <==> !(-1 <= code <= 8 && code != 5),
    {
        match code {
            -1 => Some(ObjectType::Bad),
            0 => Some(ObjectType::NoType),
            1 => Some(ObjectType::Commit),
            2 => Some(ObjectType::Tree),
            3 => Some(ObjectType::Blob),
            4 => Some(ObjectType::Tag),
            6 => Some(ObjectType::OfsDelta),
            7 => Some(ObjectType::RefDelta),
            8 => Some(ObjectType::Any),
            _ => None,
        }
    }
}

/// Reading an object type back from its number gives the same type.
pub proof fn lemma_object_type_code_round_trip(t: ObjectType)
    ensures
        -1 <= t.spec_code() <= 8,
        t.spec_code() != 5,
        forall|u: ObjectType| u.spec_code() == t.spec_code() ==> u == t,
{
}

} // verus!
