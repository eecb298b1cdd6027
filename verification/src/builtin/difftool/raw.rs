//! The records of `git diff --raw -z`: NUL-terminated fields, and the
//! header field `:<mode> <mode> <oid> <oid> <status>` that opens each record.
use vstd::prelude::*;
use crate::hash::{HashAlgorithm, ObjectID, ObjectIDView};
use crate::hex::{get_oid_hex, hex_is_valid, spec_oid_from_hex};
use vstd::string::StringSliceAdditionalSpecFns;
use crate::types::str_from_utf8;

verus! {

// ---------------------------------------------------------------------------
// NUL-terminated fields
// ---------------------------------------------------------------------------

/// Index of the first NUL byte at or after `pos`, or the length when there
/// is none.
pub open spec fn nul_index(data: Seq<u8>, pos: int) -> int
    decreases data.len() - pos,
{
    if pos >= data.len() {
        data.len() as int
    } else if data[pos] == 0u8 {
        pos
    } else {
        nul_index(data, pos + 1)
    }
}

/// End of the chunk that one read takes from `pos`: through the next NUL
/// byte, or to the end of the data.
pub open spec fn chunk_end(data: Seq<u8>, pos: int) -> int {
    let k = nul_index(data, pos);
    if k < data.len() {
        k + 1
    } else {
        data.len() as int
    }
}

/// The NUL that ends a field is the first one at or after its start.
pub proof fn lemma_nul_index_bounds(data: Seq<u8>, pos: int)
    requires
        0 <= pos <= data.len(),
    ensures
        pos <= nul_index(data, pos) <= data.len(),
        nul_index(data, pos) < data.len() ==> data[nul_index(data, pos)] == 0u8,
        forall|i: int| pos <= i < nul_index(data, pos) ==> data[i] != 0u8,
    decreases data.len() - pos,
{
    if pos < data.len() && data[pos] != 0u8 {
        lemma_nul_index_bounds(data, pos + 1);
    }
}

/// `buf` after one read: the chunk appended, then a trailing NUL dropped.
pub open spec fn after_read(buf: Seq<u8>, chunk: Seq<u8>) -> Seq<u8> {
    let b = buf + chunk;
    if b.len() > 0 && b.last() == 0u8 {
        b.drop_last()
    } else {
        b
    }
}

/// The output of a command, read one NUL-terminated field at a time.
pub struct NulReader {
    data: Vec<u8>,
    pos: usize,
}

impl View for NulReader {
    /// The whole output and how much of it has been read.
    type V = (Seq<u8>, nat);

    closed spec fn view(&self) -> (Seq<u8>, nat) {
        (self.data@, self.pos as nat)
    }
}

impl NulReader {
    /// Well formed: the position lies within the data.
    pub closed spec fn wf(&self) -> bool {
        self.pos <= self.data@.len()
    }

    /// A reader at the start of `data`.
    pub fn new(data: Vec<u8>) -> (r: NulReader)
        ensures
            r.wf(),
            r@ == (data@, 0nat),
    {
        NulReader { data, pos: 0 }
    }

    /// Whether the position lies within the data.
    pub proof fn lemma_wf(&self)
        requires
            self.wf(),
        ensures
            self@.1 <= self@.0.len(),
    {
    }
}

/// Read bytes up to and including the next NUL (or to the end of the
/// output) and append them to `buf`, dropping the NUL. Returns whether
/// anything was read and `buf` is not empty: `false` at the end of the
/// output and for an empty field.
pub fn read_bytes_until_null(reader: &mut NulReader, buf: &mut Vec<u8>) -> (more: bool)
    requires
        old(reader).wf(),
    ensures
        final(reader).wf(),
        final(reader)@.0 == old(reader)@.0,
        final(reader)@.1 == chunk_end(old(reader)@.0, old(reader)@.1 as int),
        final(buf)@ == after_read(
            old(buf)@,
            old(reader)@.0.subrange(old(reader)@.1 as int, chunk_end(old(reader)@.0, old(reader)@.1 as int)),
        ),
        more == (final(reader)@.1 > old(reader)@.1 && final(buf)@.len() > 0),
{
    let ghost data = reader.data@;
    let start = reader.pos;
    let len = reader.data.len();
    let mut k = start;
    while k < len && reader.data[k] != 0u8
        invariant
            reader.data@ == data,
            len == data.len(),
            start <= k <= len,
            nul_index(data, start as int) == nul_index(data, k as int),
        decreases len - k,
    {
        k = k + 1;
    }
    let end = if k < len {
        k + 1
    } else {
        len
    };
    assert(end as int == chunk_end(data, start as int));
    let chunk = vstd::slice::slice_subrange(reader.data.as_slice(), start, end);
    buf.extend_from_slice(chunk);
    if buf.len() > 0 && buf[buf.len() - 1] == 0u8 {
        buf.pop();
    }
    reader.pos = end;
    end > start && buf.len() > 0
}

// ---------------------------------------------------------------------------
// Octal numbers
// ---------------------------------------------------------------------------

/// Whether a byte is an octal digit `0` to `7`.
pub open spec fn is_octal_digit(c: u8) -> bool {
    48 <= c <= 55
}

/// The value of a sequence of octal digits, most significant first.
pub open spec fn octal_value(digits: Seq<u8>) -> int
    decreases digits.len(),
{
    if digits.len() == 0 {
        0
    } else {
        8 * octal_value(digits.drop_last()) + (digits.last() - 48)
    }
}

/// Whether every byte is an octal digit.
pub open spec fn all_octal(digits: Seq<u8>) -> bool {
    forall|i: int| 0 <= i < digits.len() ==> is_octal_digit(#[trigger] digits[i])
}

/// Length of the optional leading `+` or `-`.
pub open spec fn sign_len(s: Seq<u8>) -> int {
    if s.len() > 0 && (s[0] == 43u8 || s[0] == 45u8) {
        1
    } else {
        0
    }
}

/// The digits after the optional sign.
pub open spec fn unsigned_digits(s: Seq<u8>) -> Seq<u8> {
    s.subrange(sign_len(s), s.len() as int)
}

/// What `i32::from_str_radix(s, 8)` gives: `None` for an empty string, a
/// lone sign, a byte other than an octal digit after the optional `+` or
/// `-`, or a value outside the range of `i32`.
pub open spec fn spec_parse_octal(s: Seq<u8>) -> Option<i32> {
    let digits = unsigned_digits(s);
    let v = if s.len() > 0 && s[0] == 45u8 {
        -octal_value(digits)
    } else {
        octal_value(digits)
    };
    if digits.len() == 0 || !all_octal(digits) || !(i32::MIN <= v <= i32::MAX) {
        None
    } else {
        Some(v as i32)
    }
}

proof fn lemma_octal_value_monotone(digits: Seq<u8>, k: int)
    requires
        0 <= k <= digits.len(),
        all_octal(digits),
    ensures
        octal_value(digits) >= octal_value(digits.take(k)) >= 0,
    decreases digits.len(),
{
    if digits.len() > 0 {
        let d = digits.drop_last();
        assert forall|i: int| 0 <= i < d.len() implies is_octal_digit(#[trigger] d[i]) by {
            assert(d[i] == digits[i]);
        }
        if k == digits.len() {
            assert(digits.take(k) =~= digits);
            lemma_octal_value_monotone(d, d.len() as int);
            assert(d.take(d.len() as int) =~= d);
        } else {
            lemma_octal_value_monotone(d, k);
            assert(d.take(k) =~= digits.take(k));
            lemma_octal_value_monotone(d, d.len() as int);
            assert(d.take(d.len() as int) =~= d);
        }
    } else {
        assert(digits.take(k) =~= digits);
    }
}

fn parse_octal_bytes(s: &[u8]) -> (r: Option<i32>)
    ensures
        r == spec_parse_octal(s@),
{
    let len = s.len();
    if len == 0 || (len == 1 && (s[0] == 43u8 || s[0] == 45u8)) {
        return None;
    }
    let negative = s[0] == 45u8;
    let start: usize = if s[0] == 43u8 || s[0] == 45u8 {
        1
    } else {
        0
    };
    let ghost digits = unsigned_digits(s@);
    let limit: u64 = 0x8000_0000;
    let mut mag: u64 = 0;
    let mut i = start;
    while i < len
        invariant
            start <= i <= len,
            len == s@.len(),
            digits == s@.subrange(start as int, len as int),
            digits == unsigned_digits(s@),
            start == sign_len(s@),
            len >= 1,
            start < len,
            negative == (s@[0] == 45u8),
            mag <= limit,
            limit == 0x8000_0000,
            mag as int == octal_value(digits.take(i - start)),
            forall|j: int| 0 <= j < i - start ==> is_octal_digit(#[trigger] digits[j]),
        decreases len - i,
    {
        let c = s[i];
        if c < 48u8 || c > 55u8 {
            assert(!is_octal_digit(digits[i - start]));
            return None;
        }
        let next: u64 = mag * 8 + (c - 48u8) as u64;
        assert(digits.take(i + 1 - start).drop_last() =~= digits.take(i - start));
        assert(octal_value(digits.take(i + 1 - start)) == next);
        if next > limit {
            proof {
                if all_octal(digits) {
                    lemma_octal_value_monotone(digits, i + 1 - start);
                }
            }
            return None;
        }
        mag = next;
        i = i + 1;
    }
    assert(digits.take(len - start) =~= digits);
    if negative {
        Some((0i64 - mag as i64) as i32)
    } else if mag < limit {
        Some(mag as i32)
    } else {
        None
    }
}

/// Parse an octal number from a str slice, as `i32::from_str_radix(s, 8)`
/// does: an optional sign, then one or more octal digits, within range.
pub fn parse_octal(octal_str: &str) -> (r: Option<i32>)
    ensures
        r == spec_parse_octal(octal_str.spec_bytes()),
{
    parse_octal_bytes(octal_str.as_bytes())
}

// ---------------------------------------------------------------------------
// The header field
// ---------------------------------------------------------------------------

/// Parsed index info from `git diff --raw`.
pub struct IndexInfo {
    pub oid_left: ObjectID,
    pub oid_right: ObjectID,
    pub mode_left: i32,
    pub mode_right: i32,
    pub status: char,
}

/// What an `IndexInfo` holds.
pub struct IndexInfoView {
    pub oid_left: ObjectIDView,
    pub oid_right: ObjectIDView,
    pub mode_left: i32,
    pub mode_right: i32,
    pub status: char,
}

impl View for IndexInfo {
    type V = IndexInfoView;

    open spec fn view(&self) -> IndexInfoView {
        IndexInfoView {
            oid_left: self.oid_left@,
            oid_right: self.oid_right@,
            mode_left: self.mode_left,
            mode_right: self.mode_right,
            status: self.status,
        }
    }
}

/// Why a header field was refused. A payload holds the text of the part of
/// the field that the message quotes.
pub enum IndexInfoError {
    /// "expected ':', got '..'": the first byte.
    ExpectedColon(String),
    /// "expected octal mode, got truncated '..'": the rest of the field.
    TruncatedMode(String),
    /// "expected octal mode, got '..'": the six bytes of the mode.
    BadMode(String),
    /// "expected space after first mode, got truncated value".
    TruncatedAfterFirstMode,
    /// "expected ' ', got '..'": the byte in place of the space.
    ExpectedSpace(String),
    /// "expected space after 2nd mode, got truncated value".
    TruncatedAfterSecondMode,
    /// "expected hex object id, got truncated '..'": the rest of the field.
    TruncatedObjectId(String),
    /// "expected hex object id, got '..'": the digits of the object id.
    BadObjectId(String),
    /// "expected space after hex object id, got truncated value".
    TruncatedAfterObjectId,
    /// "expected ' ', got '{space_str}'", the message quoting no byte.
    ExpectedSpaceBeforeStatus,
    /// "missing status: null entry".
    NullStatus,
    /// "unexpected trailer: '..'": the byte after the status.
    UnexpectedTrailer(String),
}

/// What an `IndexInfoError` holds.
pub enum IndexInfoErrorView {
    ExpectedColon(Seq<char>),
    TruncatedMode(Seq<char>),
    BadMode(Seq<char>),
    TruncatedAfterFirstMode,
    ExpectedSpace(Seq<char>),
    TruncatedAfterSecondMode,
    TruncatedObjectId(Seq<char>),
    BadObjectId(Seq<char>),
    TruncatedAfterObjectId,
    ExpectedSpaceBeforeStatus,
    NullStatus,
    UnexpectedTrailer(Seq<char>),
}

impl View for IndexInfoError {
    type V = IndexInfoErrorView;

    open spec fn view(&self) -> IndexInfoErrorView {
        match self {
            IndexInfoError::ExpectedColon(v) => IndexInfoErrorView::ExpectedColon(v@),
            IndexInfoError::TruncatedMode(v) => IndexInfoErrorView::TruncatedMode(v@),
            IndexInfoError::BadMode(v) => IndexInfoErrorView::BadMode(v@),
            IndexInfoError::TruncatedAfterFirstMode => IndexInfoErrorView::TruncatedAfterFirstMode,
            IndexInfoError::ExpectedSpace(v) => IndexInfoErrorView::ExpectedSpace(v@),
            IndexInfoError::TruncatedAfterSecondMode => IndexInfoErrorView::TruncatedAfterSecondMode,
            IndexInfoError::TruncatedObjectId(v) => IndexInfoErrorView::TruncatedObjectId(v@),
            IndexInfoError::BadObjectId(v) => IndexInfoErrorView::BadObjectId(v@),
            IndexInfoError::TruncatedAfterObjectId => IndexInfoErrorView::TruncatedAfterObjectId,
            IndexInfoError::ExpectedSpaceBeforeStatus => IndexInfoErrorView::ExpectedSpaceBeforeStatus,
            IndexInfoError::NullStatus => IndexInfoErrorView::NullStatus,
            IndexInfoError::UnexpectedTrailer(v) => IndexInfoErrorView::UnexpectedTrailer(v@),
        }
    }
}

/// The message of a refused header field.
pub open spec fn spec_index_info_message(e: IndexInfoErrorView) -> Seq<char> {
    match e {
        IndexInfoErrorView::ExpectedColon(p) => "expected ':', got '"@ + p + "'"@,
        IndexInfoErrorView::TruncatedMode(p) => "expected octal mode, got truncated '"@ + p + "'"@,
        IndexInfoErrorView::BadMode(p) => "expected octal mode, got '"@ + p + "'"@,
        IndexInfoErrorView::TruncatedAfterFirstMode => "expected space after first mode, got truncated value"@,
        IndexInfoErrorView::ExpectedSpace(p) => "expected ' ', got '"@ + p + "'"@,
        IndexInfoErrorView::TruncatedAfterSecondMode => "expected space after 2nd mode, got truncated value"@,
        IndexInfoErrorView::TruncatedObjectId(p) => "expected hex object id, got truncated '"@ + p + "'"@,
        IndexInfoErrorView::BadObjectId(p) => "expected hex object id, got '"@ + p + "'"@,
        IndexInfoErrorView::TruncatedAfterObjectId => "expected space after hex object id, got truncated value"@,
        IndexInfoErrorView::ExpectedSpaceBeforeStatus => "expected ' ', got '{space_str}'"@,
        IndexInfoErrorView::NullStatus => "missing status: null entry"@,
        IndexInfoErrorView::UnexpectedTrailer(p) => "unexpected trailer: '"@ + p + "'"@,
    }
}

fn quoted(prefix: &str, part: &String) -> (s: String)
    ensures
        s@ == prefix@ + part@ + "'"@,
{
    let mut s = prefix.to_owned();
    s.append(part.as_str());
    s.append("'");
    s
}

impl IndexInfoError {
    /// The message that reports this error.
    pub fn message(&self) -> (s: String)
        ensures
            s@ == spec_index_info_message(self@),
    {
        match self {
            IndexInfoError::ExpectedColon(p) => quoted("expected ':', got '", p),
            IndexInfoError::TruncatedMode(p) => quoted("expected octal mode, got truncated '", p),
            IndexInfoError::BadMode(p) => quoted("expected octal mode, got '", p),
            IndexInfoError::TruncatedAfterFirstMode => "expected space after first mode, got truncated value".to_owned(),
            IndexInfoError::ExpectedSpace(p) => quoted("expected ' ', got '", p),
            IndexInfoError::TruncatedAfterSecondMode => "expected space after 2nd mode, got truncated value".to_owned(),
            IndexInfoError::TruncatedObjectId(p) => quoted("expected hex object id, got truncated '", p),
            IndexInfoError::BadObjectId(p) => quoted("expected hex object id, got '", p),
            IndexInfoError::TruncatedAfterObjectId => "expected space after hex object id, got truncated value".to_owned(),
            IndexInfoError::ExpectedSpaceBeforeStatus => "expected ' ', got '{space_str}'".to_owned(),
            IndexInfoError::NullStatus => "missing status: null entry".to_owned(),
            IndexInfoError::UnexpectedTrailer(p) => quoted("unexpected trailer: '", p),
        }
    }
}

/// How reading a header field ends: the field is sliced as a `str` at fixed
/// byte offsets, which panics where an offset splits a character; otherwise
/// the field is refused or its contents given.
pub enum HeaderOutcome {
    Panics,
    Rejected(IndexInfoErrorView),
    Parsed(IndexInfoView),
}

/// Whether a `str` with these bytes may be sliced at `i`: the start, the
/// end, or any byte that does not continue a character.
pub open spec fn boundary(b: Seq<u8>, i: int) -> bool {
    i == 0 || i == b.len() || (0 < i < b.len() && !(0x80 <= b[i] < 0xC0))
}

/// The text of the bytes from `i` to `j`.
pub open spec fn field_text(b: Seq<u8>, i: int, j: int) -> Seq<char> {
    vstd::utf8::decode_utf8(b.subrange(i, j))
}

/// The outcome of reading the header field `b`, written
/// `:<mode> <mode> <hex oid> <hex oid> <status>[<score>]`, where an object
/// id has the hexadecimal length of `algo`.
#[verifier::opaque]
pub open spec fn index_info_outcome(algo: HashAlgorithm, b: Seq<u8>) -> HeaderOutcome {
    let n = b.len() as int;
    let h = algo.spec_hexsz() as int;
    let r = algo.spec_rawsz();
    if n < 1 || !boundary(b, 1) {
        HeaderOutcome::Panics
    } else if b[0] != 58u8 {
        HeaderOutcome::Rejected(IndexInfoErrorView::ExpectedColon(field_text(b, 0, 1)))
    } else if n <= 7 {
        HeaderOutcome::Rejected(IndexInfoErrorView::TruncatedMode(field_text(b, 1, n)))
    } else if !boundary(b, 7) {
        HeaderOutcome::Panics
    } else if spec_parse_octal(b.subrange(1, 7)) is None {
        HeaderOutcome::Rejected(IndexInfoErrorView::BadMode(field_text(b, 1, 7)))
    } else if n <= 8 {
        HeaderOutcome::Rejected(IndexInfoErrorView::TruncatedAfterFirstMode)
    } else if !boundary(b, 8) {
        HeaderOutcome::Panics
    } else if b[7] != 32u8 {
        HeaderOutcome::Rejected(IndexInfoErrorView::ExpectedSpace(field_text(b, 7, 8)))
    } else if n <= 14 {
        HeaderOutcome::Rejected(IndexInfoErrorView::TruncatedMode(field_text(b, 8, n)))
    } else if !boundary(b, 14) {
        HeaderOutcome::Panics
    } else if spec_parse_octal(b.subrange(8, 14)) is None {
        HeaderOutcome::Rejected(IndexInfoErrorView::BadMode(field_text(b, 8, 14)))
    } else if n <= 15 {
        HeaderOutcome::Rejected(IndexInfoErrorView::TruncatedAfterSecondMode)
    } else if !boundary(b, 15) {
        HeaderOutcome::Panics
    } else if b[14] != 32u8 {
        HeaderOutcome::Rejected(IndexInfoErrorView::ExpectedSpace(field_text(b, 14, 15)))
    } else if n <= 15 + h {
        HeaderOutcome::Rejected(IndexInfoErrorView::TruncatedObjectId(field_text(b, 15, n)))
    } else if !boundary(b, 15 + h) {
        HeaderOutcome::Panics
    } else if !hex_is_valid(b.subrange(15, 15 + h), r) {
        HeaderOutcome::Rejected(IndexInfoErrorView::BadObjectId(field_text(b, 15, 15 + h)))
    } else if n <= 16 + h {
        HeaderOutcome::Rejected(IndexInfoErrorView::TruncatedAfterObjectId)
    } else if !boundary(b, 16 + h) {
        HeaderOutcome::Panics
    } else if b[15 + h] != 32u8 {
        HeaderOutcome::Rejected(IndexInfoErrorView::ExpectedSpace(field_text(b, 15 + h, 16 + h)))
    } else if n <= 16 + 2 * h {
        HeaderOutcome::Rejected(IndexInfoErrorView::TruncatedObjectId(field_text(b, 16 + h, n)))
    } else if !boundary(b, 16 + 2 * h) {
        HeaderOutcome::Panics
    } else if !hex_is_valid(b.subrange(16 + h, 16 + 2 * h), r) {
        HeaderOutcome::Rejected(
            IndexInfoErrorView::BadObjectId(field_text(b, 16 + h, 16 + 2 * h)),
        )
    } else if n <= 17 + 2 * h {
        HeaderOutcome::Rejected(IndexInfoErrorView::TruncatedAfterObjectId)
    } else if !boundary(b, 17 + 2 * h) {
        HeaderOutcome::Panics
    } else if b[16 + 2 * h] != 32u8 {
        HeaderOutcome::Rejected(IndexInfoErrorView::ExpectedSpaceBeforeStatus)
    } else if !boundary(b, 18 + 2 * h) {
        HeaderOutcome::Panics
    } else if b[17 + 2 * h] == 0u8 {
        HeaderOutcome::Rejected(IndexInfoErrorView::NullStatus)
    } else if n > 19 + 2 * h && !boundary(b, 19 + 2 * h) {
        HeaderOutcome::Panics
    } else if n > 19 + 2 * h && !(48 <= b[18 + 2 * h] <= 57) {
        HeaderOutcome::Rejected(
            IndexInfoErrorView::UnexpectedTrailer(field_text(b, 18 + 2 * h, 19 + 2 * h)),
        )
    } else {
        HeaderOutcome::Parsed(
            IndexInfoView {
                oid_left: spec_oid_from_hex(algo, b.subrange(15, 15 + h)),
                oid_right: spec_oid_from_hex(algo, b.subrange(16 + h, 16 + 2 * h)),
                mode_left: spec_parse_octal(b.subrange(1, 7))->0,
                mode_right: spec_parse_octal(b.subrange(8, 14))->0,
                status: b[17 + 2 * h] as char,
            },
        )
    }
}

fn is_boundary(b: &[u8], i: usize) -> (r: bool)
    ensures
        r == boundary(b@, i as int),
{
    i == 0 || i == b.len() || (i < b.len() && !(0x80u8 <= b[i] && b[i] < 0xC0u8))
}

proof fn lemma_boundary_is_char_boundary(b: Seq<u8>, i: int)
    requires
        vstd::utf8::valid_utf8(b),
        0 <= i <= b.len(),
        boundary(b, i),
    ensures
        vstd::utf8::is_char_boundary(b, i),
{
    vstd::utf8::is_char_boundary_start_end_of_seq(b);
    if 0 < i < b.len() {
        vstd::utf8::is_char_boundary_iff_not_is_continuation_byte(b, i);
    }
}

/// The bytes between two places where a valid UTF-8 text may be sliced are
/// valid UTF-8.
pub proof fn lemma_slice_is_utf8(b: Seq<u8>, i: int, j: int)
    requires
        vstd::utf8::valid_utf8(b),
        0 <= i <= j <= b.len(),
        boundary(b, i),
        boundary(b, j),
    ensures
        vstd::utf8::valid_utf8(b.subrange(i, j)),
{
    lemma_boundary_is_char_boundary(b, i);
    vstd::utf8::valid_utf8_split(b, i);
    let suffix = b.subrange(i, b.len() as int);
    let k = j - i;
    assert(boundary(suffix, k)) by {
        if 0 < k < suffix.len() {
            assert(suffix[k] == b[j]);
        }
    }
    lemma_boundary_is_char_boundary(suffix, k);
    vstd::utf8::valid_utf8_split(suffix, k);
    assert(suffix.subrange(0, k) =~= b.subrange(i, j));
}

fn text_of(b: &[u8], from: usize, to: usize) -> (s: String)
    requires
        vstd::utf8::valid_utf8(b@),
        from <= to <= b@.len(),
        boundary(b@, from as int),
        boundary(b@, to as int),
    ensures
        s@ == field_text(b@, from as int, to as int),
{
    proof {
        lemma_slice_is_utf8(b@, from as int, to as int);
    }
    match crate::types::utf8_string(vstd::slice::slice_subrange(b, from, to)) {
        Some(t) => t,
        None => {
            proof {
                assert(false);
            }
            String::new()
        },
    }
}

/// How reading a header field ends, for a field given by its bytes.
enum HeaderResult {
    Panics,
    Rejected(IndexInfoError),
    Parsed(IndexInfo),
}

#[verifier::rlimit(50)]
fn read_header(algo: HashAlgorithm, b: &[u8]) -> (res: HeaderResult)
    requires
        vstd::utf8::valid_utf8(b@),
    ensures
        match res {
            HeaderResult::Panics => index_info_outcome(algo, b@) is Panics,
            HeaderResult::Rejected(e) => index_info_outcome(algo, b@) == HeaderOutcome::Rejected(e@),
            HeaderResult::Parsed(i) => index_info_outcome(algo, b@) == HeaderOutcome::Parsed(i@),
        },
{
    proof {
        reveal(index_info_outcome);
    }
    let n = b.len();
    let h = algo.hexsz();
    if n < 1 || !is_boundary(b, 1) {
        return HeaderResult::Panics;
    }
    if b[0] != 58u8 {
        return HeaderResult::Rejected(IndexInfoError::ExpectedColon(text_of(b, 0, 1)));
    }
    if n <= 7 {
        return HeaderResult::Rejected(IndexInfoError::TruncatedMode(text_of(b, 1, n)));
    }
    if !is_boundary(b, 7) {
        return HeaderResult::Panics;
    }
    let mode_left = match parse_octal_bytes(vstd::slice::slice_subrange(b, 1, 7)) {
        Some(m) => m,
        None => {
            return HeaderResult::Rejected(IndexInfoError::BadMode(text_of(b, 1, 7)));
        },
    };
    if n <= 8 {
        return HeaderResult::Rejected(IndexInfoError::TruncatedAfterFirstMode);
    }
    if !is_boundary(b, 8) {
        return HeaderResult::Panics;
    }
    if b[7] != 32u8 {
        return HeaderResult::Rejected(IndexInfoError::ExpectedSpace(text_of(b, 7, 8)));
    }
    if n <= 14 {
        return HeaderResult::Rejected(IndexInfoError::TruncatedMode(text_of(b, 8, n)));
    }
    if !is_boundary(b, 14) {
        return HeaderResult::Panics;
    }
    let mode_right = match parse_octal_bytes(vstd::slice::slice_subrange(b, 8, 14)) {
        Some(m) => m,
        None => {
            return HeaderResult::Rejected(IndexInfoError::BadMode(text_of(b, 8, 14)));
        },
    };
    if n <= 15 {
        return HeaderResult::Rejected(IndexInfoError::TruncatedAfterSecondMode);
    }
    if !is_boundary(b, 15) {
        return HeaderResult::Panics;
    }
    if b[14] != 32u8 {
        return HeaderResult::Rejected(IndexInfoError::ExpectedSpace(text_of(b, 14, 15)));
    }
    if n <= 15 + h {
        return HeaderResult::Rejected(IndexInfoError::TruncatedObjectId(text_of(b, 15, n)));
    }
    if !is_boundary(b, 15 + h) {
        return HeaderResult::Panics;
    }
    let oid_left = match get_oid_hex(algo, vstd::slice::slice_subrange(b, 15, 15 + h)) {
        Some(o) => o,
        None => {
            return HeaderResult::Rejected(IndexInfoError::BadObjectId(text_of(b, 15, 15 + h)));
        },
    };
    if n <= 16 + h {
        return HeaderResult::Rejected(IndexInfoError::TruncatedAfterObjectId);
    }
    if !is_boundary(b, 16 + h) {
        return HeaderResult::Panics;
    }
    if b[15 + h] != 32u8 {
        return HeaderResult::Rejected(IndexInfoError::ExpectedSpace(text_of(b, 15 + h, 16 + h)));
    }
    if n <= 16 + 2 * h {
        return HeaderResult::Rejected(IndexInfoError::TruncatedObjectId(text_of(b, 16 + h, n)));
    }
    if !is_boundary(b, 16 + 2 * h) {
        return HeaderResult::Panics;
    }
    let oid_right = match get_oid_hex(algo, vstd::slice::slice_subrange(b, 16 + h, 16 + 2 * h)) {
        Some(o) => o,
        None => {
            return HeaderResult::Rejected(
                IndexInfoError::BadObjectId(text_of(b, 16 + h, 16 + 2 * h)),
            );
        },
    };
    if n <= 17 + 2 * h {
        return HeaderResult::Rejected(IndexInfoError::TruncatedAfterObjectId);
    }
    if !is_boundary(b, 17 + 2 * h) {
        return HeaderResult::Panics;
    }
    if b[16 + 2 * h] != 32u8 {
        return HeaderResult::Rejected(IndexInfoError::ExpectedSpaceBeforeStatus);
    }
    if !is_boundary(b, 18 + 2 * h) {
        return HeaderResult::Panics;
    }
    let status_byte = b[17 + 2 * h];
    if status_byte == 0u8 {
        return HeaderResult::Rejected(IndexInfoError::NullStatus);
    }
    if n > 19 + 2 * h {
        if !is_boundary(b, 19 + 2 * h) {
            return HeaderResult::Panics;
        }
        let trailer = b[18 + 2 * h];
        if !(48u8 <= trailer && trailer <= 57u8) {
            return HeaderResult::Rejected(
                IndexInfoError::UnexpectedTrailer(text_of(b, 18 + 2 * h, 19 + 2 * h)),
            );
        }
    }
    HeaderResult::Parsed(
        IndexInfo { oid_left, oid_right, mode_left, mode_right, status: status_byte as char },
    )
}

/// Whether reading the header field slices it inside a character, which
/// panics; `parse_index_info` requires that it does not.
pub fn index_info_would_panic(algo: HashAlgorithm, buf_str: &str) -> (r: bool)
    ensures
        r == (index_info_outcome(algo, buf_str.spec_bytes()) is Panics),
{
    proof {
        vstd::utf8::encode_utf8_valid_utf8(buf_str@);
    }
    match read_header(algo, buf_str.as_bytes()) {
        HeaderResult::Panics => true,
        _ => false,
    }
}

/// Parse index info from a `git diff --raw` header field, such as
/// `:100644 100644 <oid> <oid> M`, where object ids have the hexadecimal
/// length of `algo`. Gives exactly the outcome `index_info_outcome`
/// describes: the modes, object ids and status, or the first part of the
/// field that does not fit.
pub fn parse_index_info(algo: HashAlgorithm, buf_str: &str) -> (res: Result<IndexInfo, IndexInfoError>)
    requires
        !(index_info_outcome(algo, buf_str.spec_bytes()) is Panics),
    ensures
        match res {
            Ok(info) => index_info_outcome(algo, buf_str.spec_bytes()) == HeaderOutcome::Parsed(info@),
            Err(e) => index_info_outcome(algo, buf_str.spec_bytes()) == HeaderOutcome::Rejected(e@),
        },
{
    proof {
        vstd::utf8::encode_utf8_valid_utf8(buf_str@);
    }
    match read_header(algo, buf_str.as_bytes()) {
        HeaderResult::Panics => {
            proof {
                assert(false);
            }
            Err(IndexInfoError::NullStatus)
        },
        HeaderResult::Rejected(e) => Err(e),
        HeaderResult::Parsed(info) => Ok(info),
    }
}

// ---------------------------------------------------------------------------
// Writing a header field
// ---------------------------------------------------------------------------

/// `8` to the power `k`.
pub open spec fn pow8(k: nat) -> int
    decreases k,
{
    if k == 0 {
        1
    } else {
        8 * pow8((k - 1) as nat)
    }
}

/// The last `k` octal digits of `m`, zero padded, most significant first.
pub open spec fn octal_digits(m: int, k: nat) -> Seq<u8>
    decreases k,
{
    if k == 0 {
        Seq::empty()
    } else {
        octal_digits(m / 8, (k - 1) as nat).push((48 + m % 8) as u8)
    }
}

proof fn lemma_octal_digits(m: int, k: nat)
    requires
        0 <= m < pow8(k),
    ensures
        octal_digits(m, k).len() == k,
        all_octal(octal_digits(m, k)),
        octal_value(octal_digits(m, k)) == m,
    decreases k,
{
    if k > 0 {
        lemma_octal_digits(m / 8, (k - 1) as nat);
        let d = octal_digits(m, k);
        assert(d.drop_last() =~= octal_digits(m / 8, (k - 1) as nat));
        assert forall|i: int| 0 <= i < d.len() implies is_octal_digit(#[trigger] d[i]) by {
            if i < d.len() - 1 {
                assert(d[i] == octal_digits(m / 8, (k - 1) as nat)[i]);
            }
        }
    }
}

/// The header field that `git diff --raw` writes for `info`, with object
/// ids of `algo` and the similarity score `score` after the status.
pub open spec fn raw_header(algo: HashAlgorithm, info: IndexInfoView, score: Seq<u8>) -> Seq<u8> {
    let r = algo.spec_rawsz() as int;
    seq![58u8] + octal_digits(info.mode_left as int, 6) + seq![32u8] + octal_digits(
        info.mode_right as int,
        6,
    ) + seq![32u8] + crate::hex::hex_ascii(info.oid_left.0.take(r)) + seq![32u8]
        + crate::hex::hex_ascii(info.oid_right.0.take(r)) + seq![32u8] + seq![info.status as u8]
        + score
}

/// A header field written for an index info reads back as that index info:
/// six-digit octal modes, canonical object ids of the repository's
/// algorithm, an ASCII status other than NUL, and a score of decimal digits.
pub proof fn lemma_raw_header_round_trip(algo: HashAlgorithm, info: IndexInfoView, score: Seq<u8>)
    requires
        0 <= info.mode_left < pow8(6),
        0 <= info.mode_right < pow8(6),
        info.oid_left.1 == algo,
        info.oid_right.1 == algo,
        crate::hash::oid_is_canonical(info.oid_left),
        crate::hash::oid_is_canonical(info.oid_right),
        0 < info.status as u32 && (info.status as u32) < 128,
        forall|i: int| 0 <= i < score.len() ==> 48 <= #[trigger] score[i] <= 57,
    ensures
        index_info_outcome(algo, raw_header(algo, info, score)) == HeaderOutcome::Parsed(info),
{
    reveal(index_info_outcome);
    let r = algo.spec_rawsz() as int;
    let h = algo.spec_hexsz() as int;
    let ml = octal_digits(info.mode_left as int, 6);
    let mr = octal_digits(info.mode_right as int, 6);
    let hl = crate::hex::hex_ascii(info.oid_left.0.take(r));
    let hr = crate::hex::hex_ascii(info.oid_right.0.take(r));
    lemma_octal_digits(info.mode_left as int, 6);
    lemma_octal_digits(info.mode_right as int, 6);
    crate::hex::lemma_hex_round_trip(info.oid_left);
    crate::hex::lemma_hex_round_trip(info.oid_right);
    crate::hex::lemma_hex_ascii_is_ascii(info.oid_left.0.take(r));
    crate::hex::lemma_hex_ascii_is_ascii(info.oid_right.0.take(r));
    let b = raw_header(algo, info, score);
    assert(ml.len() == 6);
    assert(mr.len() == 6);
    assert(hl.len() == h);
    assert(hr.len() == h);
    let p1 = seq![58u8] + ml;
    assert(p1.len() == 7);
    let p2 = p1 + seq![32u8] + mr + seq![32u8];
    assert(p2.len() == 15);
    let p3 = p2 + hl + seq![32u8];
    assert(p3.len() == 16 + h);
    let p4 = p3 + hr + seq![32u8] + seq![info.status as u8];
    assert(p4.len() == 18 + 2 * h);
    assert(b == p4 + score);
    assert(b.len() == 18 + 2 * h + score.len());
    assert(b.subrange(1, 7) =~= ml);
    assert(b.subrange(8, 14) =~= mr);
    assert(b.subrange(15, 15 + h) =~= hl);
    assert(b.subrange(16 + h, 16 + 2 * h) =~= hr);
    assert forall|i: int| 0 <= i < b.len() implies #[trigger] b[i] < 128 by {
        if 1 <= i < 7 {
            assert(b[i] == ml[i - 1]);
            assert(is_octal_digit(ml[i - 1]));
        } else if 8 <= i < 14 {
            assert(b[i] == mr[i - 8]);
            assert(is_octal_digit(mr[i - 8]));
        } else if 15 <= i < 15 + h {
            assert(b[i] == hl[i - 15]);
        } else if 16 + h <= i < 16 + 2 * h {
            assert(b[i] == hr[i - 16 - h]);
        } else if 18 + 2 * h <= i {
            assert(b[i] == score[i - 18 - 2 * h]);
        }
    }
    assert(ml.subrange(sign_len(ml), 6) =~= ml);
    assert(mr.subrange(sign_len(mr), 6) =~= mr);
    assert(unsigned_digits(b.subrange(1, 7)) =~= ml);
    assert(unsigned_digits(b.subrange(8, 14)) =~= mr);
    assert(b[7] == 32u8);
    assert(b[14] == 32u8);
    assert(b[15 + h] == 32u8);
    assert(b[16 + 2 * h] == 32u8);
    assert(b[17 + 2 * h] == info.status as u8);
    if score.len() > 0 {
        assert(b[18 + 2 * h] == score[0]);
    }
    assert(b[17 + 2 * h] as char == info.status);
}

// ---------------------------------------------------------------------------
// Records
// ---------------------------------------------------------------------------

/// One record of `git diff --raw -z`: the header and the paths on the two
/// sides, which differ only for copies and renames.
pub struct Record {
    pub info: IndexInfo,
    pub src_path: String,
    pub dst_path: String,
}

/// Why reading a record failed.
pub enum RecordError {
    /// "unable to convert from git diff output to utf8: ..": the field.
    NotUtf8(Vec<u8>),
    /// The header field was refused.
    BadHeader(IndexInfoError),
}

/// The decimal digits of a byte.
pub open spec fn decimal(n: u8) -> Seq<char> {
    if n >= 100 {
        seq![
            crate::hex::hex_digit(n as int / 100),
            crate::hex::hex_digit((n as int / 10) % 10),
            crate::hex::hex_digit(n as int % 10),
        ]
    } else if n >= 10 {
        seq![crate::hex::hex_digit(n as int / 10), crate::hex::hex_digit(n as int % 10)]
    } else {
        seq![crate::hex::hex_digit(n as int)]
    }
}

/// The bytes between the brackets of a byte list: decimal, `, ` between.
pub open spec fn byte_list_items(b: Seq<u8>) -> Seq<char>
    decreases b.len(),
{
    if b.len() == 0 {
        Seq::empty()
    } else if b.len() == 1 {
        decimal(b[0])
    } else {
        byte_list_items(b.drop_last()) + ", "@ + decimal(b.last())
    }
}

/// A byte list as Rust's `Debug` writes it, such as `[255, 0, 12]`.
pub open spec fn byte_list(b: Seq<u8>) -> Seq<char> {
    "["@ + byte_list_items(b) + "]"@
}

/// The message of a failed record read.
pub open spec fn spec_record_error_message(e: RecordError) -> Seq<char> {
    match e {
        RecordError::NotUtf8(v) => "unable to convert from git diff output to utf8: "@ + byte_list(v@),
        RecordError::BadHeader(h) => spec_index_info_message(h@),
    }
}

fn push_decimal(s: &mut String, n: u8)
    ensures
        final(s)@ == old(s)@ + decimal(n),
{
    if n >= 100 {
        s.append(crate::hex::hex_digit_str(n / 100));
        s.append(crate::hex::hex_digit_str((n / 10) % 10));
        s.append(crate::hex::hex_digit_str(n % 10));
    } else if n >= 10 {
        s.append(crate::hex::hex_digit_str(n / 10));
        s.append(crate::hex::hex_digit_str(n % 10));
    } else {
        s.append(crate::hex::hex_digit_str(n));
    }
    assert(s@ =~= old(s)@ + decimal(n));
}

fn push_byte_list(s: &mut String, b: &Vec<u8>)
    ensures
        final(s)@ == old(s)@ + byte_list(b@),
{
    let ghost start = s@;
    s.append("[");
    let mut i: usize = 0;
    while i < b.len()
        invariant
            i <= b@.len(),
            s@ == start + "["@ + byte_list_items(b@.take(i as int)),
        decreases b@.len() - i,
    {
        let ghost before = s@;
        if i > 0 {
            s.append(", ");
        }
        push_decimal(s, b[i]);
        assert(b@.take(i + 1).drop_last() =~= b@.take(i as int));
        if i == 0 {
            assert(byte_list_items(b@.take(0)) =~= Seq::<char>::empty());
            assert(s@ =~= start + "["@ + byte_list_items(b@.take(1)));
        } else {
            assert(s@ =~= start + "["@ + byte_list_items(b@.take(i + 1)));
        }
        i = i + 1;
    }
    assert(b@.take(b@.len() as int) =~= b@);
    s.append("]");
    assert(s@ =~= start + byte_list(b@));
}

impl RecordError {
    /// The message that reports this error.
    pub fn message(&self) -> (s: String)
        ensures
            s@ == spec_record_error_message(*self),
    {
        match self {
            RecordError::NotUtf8(v) => {
                let mut s = "unable to convert from git diff output to utf8: ".to_owned();
                push_byte_list(&mut s, v);
                s
            },
            RecordError::BadHeader(e) => e.message(),
        }
    }
}

/// How reading the next record ends.
pub enum RecordRead {
    /// The output ended, or held an empty field. `counted` tells whether the
    /// record had got as far as its source path, which counts it.
    Stop { counted: bool },
    /// A field could not be read.
    Failed(RecordError),
    /// The header would be sliced inside a character, which panics.
    Panics,
    /// A whole record.
    Entry(Record),
}

/// What reading the next record ends with, as text and bytes.
pub enum RecordOutcome {
    Stop(bool),
    NotUtf8(Seq<u8>),
    BadHeader(IndexInfoErrorView),
    Panics,
    Entry(IndexInfoView, Seq<char>, Seq<char>),
}

/// The field that one read from `pos` yields, the NUL dropped.
pub open spec fn field_at(data: Seq<u8>, pos: int) -> Seq<u8> {
    after_read(Seq::empty(), data.subrange(pos, chunk_end(data, pos)))
}

/// Whether a read from `pos` yields a field: something was read and the
/// field is not empty.
pub open spec fn has_field_at(data: Seq<u8>, pos: int) -> bool {
    chunk_end(data, pos) > pos && field_at(data, pos).len() > 0
}

/// Whether a status stands for a copy or a rename, whose record carries a
/// second path.
pub open spec fn spec_has_destination(status: char) -> bool {
    status == 'C' || status == 'R'
}

/// The outcome of reading a record at `pos`: the header field, checked to
/// be UTF-8 and parsed; the source path; and, for a copy or a rename, the
/// destination path, which is otherwise the source path.
pub open spec fn spec_read_record(algo: HashAlgorithm, data: Seq<u8>, pos: int) -> RecordOutcome {
    let p1 = chunk_end(data, pos);
    let f1 = field_at(data, pos);
    let p2 = chunk_end(data, p1);
    let f2 = field_at(data, p1);
    let f3 = field_at(data, p2);
    if !has_field_at(data, pos) {
        RecordOutcome::Stop(false)
    } else if !vstd::utf8::valid_utf8(f1) {
        RecordOutcome::NotUtf8(f1)
    } else {
        match index_info_outcome(algo, f1) {
            HeaderOutcome::Panics => RecordOutcome::Panics,
            HeaderOutcome::Rejected(e) => RecordOutcome::BadHeader(e),
            HeaderOutcome::Parsed(info) => if !has_field_at(data, p1) {
                RecordOutcome::Stop(false)
            } else if !vstd::utf8::valid_utf8(f2) {
                RecordOutcome::NotUtf8(f2)
            } else if !spec_has_destination(info.status) {
                RecordOutcome::Entry(info, vstd::utf8::decode_utf8(f2), vstd::utf8::decode_utf8(f2))
            } else if !has_field_at(data, p2) {
                RecordOutcome::Stop(true)
            } else if !vstd::utf8::valid_utf8(f3) {
                RecordOutcome::NotUtf8(f3)
            } else {
                RecordOutcome::Entry(info, vstd::utf8::decode_utf8(f2), vstd::utf8::decode_utf8(f3))
            },
        }
    }
}

/// What a record read ends with.
pub open spec fn record_read_view(r: RecordRead) -> RecordOutcome {
    match r {
        RecordRead::Stop { counted } => RecordOutcome::Stop(counted),
        RecordRead::Failed(RecordError::NotUtf8(v)) => RecordOutcome::NotUtf8(v@),
        RecordRead::Failed(RecordError::BadHeader(e)) => RecordOutcome::BadHeader(e@),
        RecordRead::Panics => RecordOutcome::Panics,
        RecordRead::Entry(rec) => RecordOutcome::Entry(rec.info@, rec.src_path@, rec.dst_path@),
    }
}

/// Where a record read from `pos` that yields an entry leaves the reader.
pub open spec fn spec_record_end(algo: HashAlgorithm, data: Seq<u8>, pos: int) -> int {
    let p1 = chunk_end(data, pos);
    let p2 = chunk_end(data, p1);
    match spec_read_record(algo, data, pos) {
        RecordOutcome::Entry(info, _, _) => if spec_has_destination(info.status) {
            chunk_end(data, p2)
        } else {
            p2
        },
        _ => p2,
    }
}

/// Only copies ('C') and renames ('R') carry a second path. A record with
/// any other status is its header and one path: when both read well the
/// record is that path on both sides and ends after two fields, so that
/// the next read starts at the next header. A copy or a rename that reads
/// whole ends after three fields.
pub proof fn lemma_only_copies_and_renames_have_two_paths(algo: HashAlgorithm, data: Seq<u8>, pos: int)
    ensures
        ({
            let p1 = chunk_end(data, pos);
            let p2 = chunk_end(data, p1);
            let f1 = field_at(data, pos);
            let f2 = field_at(data, p1);
            match index_info_outcome(algo, f1) {
                HeaderOutcome::Parsed(info) => (has_field_at(data, pos) && vstd::utf8::valid_utf8(f1)
                    && info.status != 'C' && info.status != 'R' && has_field_at(data, p1)
                    && vstd::utf8::valid_utf8(f2)) ==> {
                    &&& spec_read_record(algo, data, pos) == RecordOutcome::Entry(
                        info,
                        vstd::utf8::decode_utf8(f2),
                        vstd::utf8::decode_utf8(f2),
                    )
                    &&& spec_record_end(algo, data, pos) == p2
                },
                _ => true,
            }
        }),
        ({
            let p1 = chunk_end(data, pos);
            let p2 = chunk_end(data, p1);
            match spec_read_record(algo, data, pos) {
                RecordOutcome::Entry(info, src, dst) => {
                    &&& (info.status != 'C' && info.status != 'R') ==> src == dst && spec_record_end(
                        algo,
                        data,
                        pos,
                    ) == p2
                    &&& (info.status == 'C' || info.status == 'R') ==> spec_record_end(algo, data, pos)
                        == chunk_end(data, p2)
                },
                _ => true,
            }
        }),
{
}

/// The records end where the output ends or holds an empty field, and such
/// an end counts the record only when it is a copy or a rename whose header
/// and source path were read but whose destination path is missing.
pub proof fn lemma_where_records_stop(algo: HashAlgorithm, data: Seq<u8>, pos: int)
    ensures
        !has_field_at(data, pos) ==> spec_read_record(algo, data, pos) == RecordOutcome::Stop(false),
        ({
            let p1 = chunk_end(data, pos);
            let p2 = chunk_end(data, p1);
            spec_read_record(algo, data, pos) == RecordOutcome::Stop(true) ==> {
                &&& has_field_at(data, pos)
                &&& has_field_at(data, p1)
                &&& !has_field_at(data, p2)
                &&& match index_info_outcome(algo, field_at(data, pos)) {
                    HeaderOutcome::Parsed(info) => info.status == 'C' || info.status == 'R',
                    _ => false,
                }
            }
        }),
{
}

fn read_field(reader: &mut NulReader) -> (r: (bool, Vec<u8>))
    requires
        old(reader).wf(),
    ensures
        final(reader).wf(),
        final(reader)@.0 == old(reader)@.0,
        final(reader)@.1 == chunk_end(old(reader)@.0, old(reader)@.1 as int),
        r.0 == has_field_at(old(reader)@.0, old(reader)@.1 as int),
        r.1@ == field_at(old(reader)@.0, old(reader)@.1 as int),
{
    let mut buf: Vec<u8> = Vec::new();
    let more = read_bytes_until_null(reader, &mut buf);
    assert(Seq::<u8>::empty() + old(reader)@.0.subrange(
        old(reader)@.1 as int,
        chunk_end(old(reader)@.0, old(reader)@.1 as int),
    ) =~= old(reader)@.0.subrange(
        old(reader)@.1 as int,
        chunk_end(old(reader)@.0, old(reader)@.1 as int),
    ));
    (more, buf)
}

/// Read the next record of `git diff --raw -z` output: a header field, the
/// source path, and for a copy or a rename the destination path. The
/// outcome is the one `spec_read_record` describes; after a whole record
/// the reader stands after its last field.
pub fn read_record(reader: &mut NulReader, algo: HashAlgorithm) -> (r: RecordRead)
    requires
        old(reader).wf(),
    ensures
        final(reader).wf(),
        final(reader)@.0 == old(reader)@.0,
        record_read_view(r) == spec_read_record(algo, old(reader)@.0, old(reader)@.1 as int),
        r is Entry ==> final(reader)@.1 == spec_record_end(algo, old(reader)@.0, old(reader)@.1 as int),
{
    let ghost data = reader@.0;
    let ghost pos = reader@.1 as int;
    let (more, buf) = read_field(reader);
    if !more {
        return RecordRead::Stop { counted: false };
    }
    let buf_str = match str_from_utf8(buf.as_slice()) {
        Some(s) => s,
        None => {
            return RecordRead::Failed(RecordError::NotUtf8(buf));
        },
    };
    if index_info_would_panic(algo, buf_str) {
        return RecordRead::Panics;
    }
    let info = match parse_index_info(algo, buf_str) {
        Ok(i) => i,
        Err(e) => {
            return RecordRead::Failed(RecordError::BadHeader(e));
        },
    };
    let (more, lpath_buf) = read_field(reader);
    if !more {
        return RecordRead::Stop { counted: false };
    }
    let lpath_str = match str_from_utf8(lpath_buf.as_slice()) {
        Some(s) => s,
        None => {
            return RecordRead::Failed(RecordError::NotUtf8(lpath_buf));
        },
    };
    proof {
        vstd::utf8::encode_utf8_decode_utf8(lpath_str@);
    }
    let src_path = lpath_str.to_owned();
    if info.status != 'C' && info.status != 'R' {
        let dst_path = src_path.clone();
        return RecordRead::Entry(Record { info, src_path, dst_path });
    }
    let (more, rpath_buf) = read_field(reader);
    if !more {
        return RecordRead::Stop { counted: true };
    }
    let rpath_str = match str_from_utf8(rpath_buf.as_slice()) {
        Some(s) => s,
        None => {
            return RecordRead::Failed(RecordError::NotUtf8(rpath_buf));
        },
    };
    proof {
        vstd::utf8::encode_utf8_decode_utf8(rpath_str@);
    }
    let dst_path = rpath_str.to_owned();
    RecordRead::Entry(Record { info, src_path, dst_path })
}

/// A field read from the output never holds a NUL byte: fields are
/// separated by NUL bytes.
pub proof fn lemma_field_has_no_nul(data: Seq<u8>, pos: int)
    requires
        0 <= pos <= data.len(),
    ensures
        forall|i: int| 0 <= i < field_at(data, pos).len() ==> #[trigger] field_at(data, pos)[i] != 0u8,
        field_at(data, pos) == data.subrange(pos, nul_index(data, pos)),
{
    lemma_nul_index_bounds(data, pos);
    let k = nul_index(data, pos);
    let chunk = data.subrange(pos, chunk_end(data, pos));
    assert(Seq::<u8>::empty() + chunk =~= chunk);
    if k < data.len() {
        assert(chunk.drop_last() =~= data.subrange(pos, k));
    } else {
        assert(chunk =~= data.subrange(pos, k));
        if chunk.len() > 0 {
            assert(chunk.last() == data[k - 1]);
        }
    }
}

/// Reading six octal digits gives back the number they were written from.
pub proof fn lemma_parse_octal_of_digits(m: int)
    requires
        0 <= m < pow8(6),
    ensures
        spec_parse_octal(octal_digits(m, 6)) == Some(m as i32),
{
    lemma_octal_digits(m, 6);
    let d = octal_digits(m, 6);
    assert(is_octal_digit(d[0]));
    assert(sign_len(d) == 0);
    assert(d.subrange(sign_len(d), 6) =~= d);
    assert(pow8(6) == 262144) by {
        reveal_with_fuel(pow8, 7);
    }
}

// ---------------------------------------------------------------------------
// Writing a record
// ---------------------------------------------------------------------------

/// The bytes of a header field are ASCII and never NUL.
pub proof fn lemma_raw_header_bytes(algo: HashAlgorithm, info: IndexInfoView, score: Seq<u8>)
    requires
        0 <= info.mode_left < pow8(6),
        0 <= info.mode_right < pow8(6),
        crate::hash::oid_is_canonical(info.oid_left),
        crate::hash::oid_is_canonical(info.oid_right),
        0 < info.status as u32 && (info.status as u32) < 128,
        forall|i: int| 0 <= i < score.len() ==> 48 <= #[trigger] score[i] <= 57,
    ensures
        raw_header(algo, info, score).len() == 18 + 2 * algo.spec_hexsz() + score.len(),
        forall|i: int|
            0 <= i < raw_header(algo, info, score).len() ==> 0 < #[trigger] raw_header(algo, info, score)[i]
                < 128,
{
    let r = algo.spec_rawsz() as int;
    let h = algo.spec_hexsz() as int;
    let ml = octal_digits(info.mode_left as int, 6);
    let mr = octal_digits(info.mode_right as int, 6);
    let tl = info.oid_left.0.take(r);
    let tr = info.oid_right.0.take(r);
    let hl = crate::hex::hex_ascii(tl);
    let hr = crate::hex::hex_ascii(tr);
    lemma_octal_digits(info.mode_left as int, 6);
    lemma_octal_digits(info.mode_right as int, 6);
    crate::hex::lemma_hex_ascii_is_ascii(tl);
    crate::hex::lemma_hex_ascii_is_ascii(tr);
    crate::hex::lemma_hex_ascii_not_nul(tl);
    crate::hex::lemma_hex_ascii_not_nul(tr);
    let b = raw_header(algo, info, score);
    let p4 = seq![58u8] + ml + seq![32u8] + mr + seq![32u8] + hl + seq![32u8] + hr + seq![32u8]
        + seq![info.status as u8];
    assert(b == p4 + score);
    assert(tl.len() == r);
    assert(p4.len() == 18 + 2 * h);
    assert forall|i: int| 0 <= i < b.len() implies 0 < #[trigger] b[i] < 128 by {
        if i == 0 {
        } else if 1 <= i < 7 {
            assert(b[i] == ml[i - 1]);
            assert(is_octal_digit(ml[i - 1]));
        } else if i == 7 {
        } else if 8 <= i < 14 {
            assert(b[i] == mr[i - 8]);
            assert(is_octal_digit(mr[i - 8]));
        } else if i == 14 {
        } else if 15 <= i < 15 + h {
            assert(b[i] == hl[i - 15]);
        } else if i == 15 + h {
        } else if 16 + h <= i < 16 + 2 * h {
            assert(b[i] == hr[i - 16 - h]);
        } else if i == 16 + 2 * h {
        } else if i == 17 + 2 * h {
            assert(b[i] == info.status as u8);
        } else {
            assert(b[i] == score[i - 18 - 2 * h]);
        }
    }
}

/// The UTF-8 form of a text without NUL characters holds no NUL byte, and
/// is at least as long as the text.
pub proof fn lemma_encode_utf8_no_nul(chars: Seq<char>)
    requires
        forall|i: int| 0 <= i < chars.len() ==> #[trigger] chars[i] != '\0',
    ensures
        vstd::utf8::encode_utf8(chars).len() >= chars.len(),
        forall|i: int|
            0 <= i < vstd::utf8::encode_utf8(chars).len() ==> #[trigger] vstd::utf8::encode_utf8(chars)[i]
                != 0u8,
    decreases chars.len(),
{
    if chars.len() > 0 {
        let rest = chars.drop_first();
        assert forall|i: int| 0 <= i < rest.len() implies #[trigger] rest[i] != '\0' by {
            assert(rest[i] == chars[i + 1]);
        }
        lemma_encode_utf8_no_nul(rest);
        let c = chars[0] as u32;
        assert(chars[0] != '\0');
        vstd::utf8::char_u32_cast(chars[0], c);
        if c == 0 {
            assert((0u32 as char) == '\0');
        }
        assert(c != 0);
        let e = vstd::utf8::encode_scalar(c);
        vstd::utf8::char_is_scalar(chars[0]);
        assert(forall|i: int| 0 <= i < e.len() ==> #[trigger] e[i] != 0u8) by {
            if vstd::utf8::has_width_1_encoding(c) {
                assert((c & 0x7F) as u8 != 0u8) by (bit_vector)
                    requires
                        c != 0,
                        c <= 0x7F,
                ;
            } else {
                assert(0xC0u8 | ((c >> 6u32) & 0x1F) as u8 != 0u8) by (bit_vector);
                assert(0xE0u8 | ((c >> 12u32) & 0x0F) as u8 != 0u8) by (bit_vector);
                assert(0xF0u8 | ((c >> 18u32) & 0x7) as u8 != 0u8) by (bit_vector);
                assert(0x80u8 | (c & 0x3F) as u8 != 0u8) by (bit_vector);
                assert(0x80u8 | ((c >> 6u32) & 0x3F) as u8 != 0u8) by (bit_vector);
                assert(0x80u8 | ((c >> 12u32) & 0x3F) as u8 != 0u8) by (bit_vector);
            }
        }
        let all = vstd::utf8::encode_utf8(chars);
        assert(all == e + vstd::utf8::encode_utf8(rest));
        assert forall|i: int| 0 <= i < all.len() implies #[trigger] all[i] != 0u8 by {
            if i < e.len() {
                assert(all[i] == e[i]);
            } else {
                assert(all[i] == vstd::utf8::encode_utf8(rest)[i - e.len()]);
            }
        }
    }
}

/// A field read from `pos` ends at the first NUL byte `k` after it, and is
/// the bytes in between.
pub proof fn lemma_field_ends_at(data: Seq<u8>, pos: int, k: int)
    requires
        0 <= pos <= k < data.len(),
        data[k] == 0u8,
        forall|i: int| pos <= i < k ==> data[i] != 0u8,
    ensures
        chunk_end(data, pos) == k + 1,
        field_at(data, pos) == data.subrange(pos, k),
    decreases k - pos,
{
    if pos < k {
        lemma_field_ends_at(data, pos + 1, k);
    }
    let chunk = data.subrange(pos, k + 1);
    assert(Seq::<u8>::empty() + chunk =~= chunk);
    assert(chunk.drop_last() =~= data.subrange(pos, k));
}

proof fn lemma_ascii_is_utf8(b: Seq<u8>)
    requires
        forall|i: int| 0 <= i < b.len() ==> #[trigger] b[i] < 128,
    ensures
        vstd::utf8::valid_utf8(b),
{
    let chars = Seq::new(b.len(), |i: int| b[i] as char);
    assert(vstd::utf8::is_ascii_chars(chars));
    vstd::utf8::is_ascii_chars_encode_utf8(chars);
    assert(vstd::utf8::encode_utf8(chars) =~= b);
    vstd::utf8::encode_utf8_valid_utf8(chars);
}

/// The record that `git diff --raw -z` writes: the header field, the source
/// path, and for a copy or a rename the destination path, each ended by a
/// NUL byte.
pub open spec fn raw_record(
    algo: HashAlgorithm,
    info: IndexInfoView,
    score: Seq<u8>,
    src: Seq<char>,
    dst: Seq<char>,
) -> Seq<u8> {
    raw_header(algo, info, score) + seq![0u8] + vstd::utf8::encode_utf8(src) + seq![0u8] + (
    if spec_has_destination(info.status) {
        vstd::utf8::encode_utf8(dst) + seq![0u8]
    } else {
        Seq::empty()
    })
}

/// A record written by `git diff --raw -z` reads back as the same index
/// info and paths, whatever output follows it: paths that are not empty
/// and hold no NUL, and for a status other than copy or rename a single
/// path. The reader then stands right after the record.
pub proof fn lemma_raw_record_round_trip(
    algo: HashAlgorithm,
    info: IndexInfoView,
    score: Seq<u8>,
    src: Seq<char>,
    dst: Seq<char>,
    rest: Seq<u8>,
)
    requires
        0 <= info.mode_left < pow8(6),
        0 <= info.mode_right < pow8(6),
        info.oid_left.1 == algo,
        info.oid_right.1 == algo,
        crate::hash::oid_is_canonical(info.oid_left),
        crate::hash::oid_is_canonical(info.oid_right),
        0 < info.status as u32 && (info.status as u32) < 128,
        forall|i: int| 0 <= i < score.len() ==> 48 <= #[trigger] score[i] <= 57,
        src.len() > 0,
        forall|i: int| 0 <= i < src.len() ==> #[trigger] src[i] != '\0',
        dst.len() > 0,
        forall|i: int| 0 <= i < dst.len() ==> #[trigger] dst[i] != '\0',
        !spec_has_destination(info.status) ==> dst == src,
    ensures
        spec_read_record(algo, raw_record(algo, info, score, src, dst) + rest, 0)
            == RecordOutcome::Entry(info, src, dst),
        spec_record_end(algo, raw_record(algo, info, score, src, dst) + rest, 0) == raw_record(
            algo,
            info,
            score,
            src,
            dst,
        ).len(),
{
    let h = raw_header(algo, info, score);
    let es = vstd::utf8::encode_utf8(src);
    let ed = vstd::utf8::encode_utf8(dst);
    let rec = raw_record(algo, info, score, src, dst);
    let data = rec + rest;
    lemma_raw_header_round_trip(algo, info, score);
    lemma_raw_header_bytes(algo, info, score);
    lemma_encode_utf8_no_nul(src);
    lemma_encode_utf8_no_nul(dst);
    vstd::utf8::encode_utf8_valid_utf8(src);
    vstd::utf8::encode_utf8_valid_utf8(dst);
    vstd::utf8::encode_utf8_decode_utf8(src);
    vstd::utf8::encode_utf8_decode_utf8(dst);
    lemma_ascii_is_utf8(h);
    let n1 = h.len() as int;
    let n2 = n1 + 1 + es.len();
    // The header field.
    assert forall|i: int| 0 <= i < n1 implies data[i] != 0u8 by {
        assert(data[i] == h[i]);
    }
    assert(data[n1] == 0u8);
    lemma_field_ends_at(data, 0, n1);
    assert(data.subrange(0, n1) =~= h);
    // The source path.
    assert forall|i: int| n1 + 1 <= i < n2 implies data[i] != 0u8 by {
        assert(data[i] == es[i - n1 - 1]);
    }
    assert(data[n2] == 0u8);
    lemma_field_ends_at(data, n1 + 1, n2);
    assert(data.subrange(n1 + 1, n2) =~= es);
    if spec_has_destination(info.status) {
        let n3 = n2 + 1 + ed.len();
        assert forall|i: int| n2 + 1 <= i < n3 implies data[i] != 0u8 by {
            assert(data[i] == ed[i - n2 - 1]);
        }
        assert(data[n3] == 0u8);
        lemma_field_ends_at(data, n2 + 1, n3);
        assert(data.subrange(n2 + 1, n3) =~= ed);
        assert(rec.len() == n3 + 1);
    } else {
        assert(rec.len() == n2 + 1);
    }
}

} // verus!
