//! Exit codes of builtins, and text from bytes.
use vstd::prelude::*;
use vstd::string::StringSliceAdditionalSpecFns;

verus! {

/// Exit codes used by builtins.
#[derive(Debug, Clone, Copy, PartialEq, Eq, Structural)]
pub enum ExitCode {
    /// Command succeeded
    Success,
    /// Command failed
    Failure,
    /// General error
    Error,
    /// Usage or unknown option error
    UsageError,
}

impl ExitCode {
    /// The process exit status of this code.
    pub open spec fn spec_code(self) -> i32 {
        match self {
            ExitCode::Success => 0,
            ExitCode::Failure => 1,
            ExitCode::Error => 128,
            ExitCode::UsageError => 129,
        }
    }

    /// The process exit status of this code.
    pub fn code(&self) -> (c: i32)
        ensures
            c == self.spec_code(),
    {
        match self {
            ExitCode::Success => 0,
            ExitCode::Failure => 1,
            ExitCode::Error => 128,
            ExitCode::UsageError => 129,
        }
    }
}

/// `std::str::from_utf8`: the bytes as text when they are valid UTF-8
/// (`Ok`), `None` otherwise (`Err`). The contract claims that the text has
/// exactly these bytes, and that the check is UTF-8 validity as the Unicode
/// standard defines it, which is what the documentation of `from_utf8`
/// promises.
#[verifier::external_body]
pub(crate) fn str_from_utf8(bytes: &[u8]) -> (s: Option<&str>)
    ensures
        s is Some <==> vstd::utf8::valid_utf8(bytes@),
        s matches Some(t) ==> t.spec_bytes() == bytes@,
{
    std::str::from_utf8(bytes).ok()
}

/// The text of some bytes: `Some` exactly when they are valid UTF-8.
pub fn utf8_string(bytes: &[u8]) -> (s: Option<String>)
    ensures
        s is Some <==> vstd::utf8::valid_utf8(bytes@),
        s matches Some(t) ==> t@ == vstd::utf8::decode_utf8(bytes@),
{
    match str_from_utf8(bytes) {
        Some(t) => {
            proof {
                vstd::utf8::encode_utf8_decode_utf8(t@);
            }
            Some(t.to_owned())
        },
        None => None,
    }
}

/// The text of the bytes of a C string, or the empty text when they are not
/// valid UTF-8.
pub fn string_or_empty(bytes: &[u8]) -> (s: String)
    ensures
        s@ == (if vstd::utf8::valid_utf8(bytes@) {
            vstd::utf8::decode_utf8(bytes@)
        } else {
            Seq::<char>::empty()
        }),
{
    match utf8_string(bytes) {
        Some(t) => t,
        None => String::new(),
    }
}

} // verus!
