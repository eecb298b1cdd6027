//! Object ids in hexadecimal (`hex.h`).
use vstd::prelude::*;
use crate::hash::{HashAlgorithm, ObjectID, ObjectIDView, GIT_MAX_RAWSZ};

verus! {

/// The lowercase hexadecimal digit of a value below 16.
pub open spec fn hex_digit(v: int) -> char {
    if v < 10 {
        (('0' as int) + v) as char
    } else {
        (('a' as int) + v - 10) as char
    }
}

/// Bytes in lowercase hexadecimal: two digits per byte, high nibble first.
pub open spec fn hex_chars(bytes: Seq<u8>) -> Seq<char> {
    Seq::new(
        2 * bytes.len(),
        |i: int|
            if i % 2 == 0 {
                hex_digit(bytes[i / 2] as int / 16)
            } else {
                hex_digit(bytes[i / 2] as int % 16)
            },
    )
}

/// The hexadecimal form of an object id: its algorithm's hash length in
/// bytes, in lowercase hexadecimal.
pub open spec fn spec_oid_to_hex(oid: ObjectIDView) -> Seq<char> {
    hex_chars(oid.0.take(oid.1.spec_rawsz() as int))
}

/// The value of a hexadecimal digit, either case; -1 for any other byte.
pub open spec fn hex_value(c: u8) -> int {
    if 48 <= c <= 57 {
        c - 48
    } else if 97 <= c <= 102 {
        c - 87
    } else if 65 <= c <= 70 {
        c - 55
    } else {
        -1
    }
}

/// Whether the first `2 * n` bytes are all hexadecimal digits.
pub open spec fn hex_is_valid(hex: Seq<u8>, n: nat) -> bool {
    forall|i: int| 0 <= i < 2 * n ==> hex_value(#[trigger] hex[i]) >= 0
}

/// The byte that the digit pair at `2 * i` stands for.
pub open spec fn hex_byte(hex: Seq<u8>, i: int) -> u8 {
    (16 * hex_value(hex[2 * i]) + hex_value(hex[2 * i + 1])) as u8
}

/// The object id that `get_oid_hex` reads: the algorithm's hash length in
/// bytes from the digit pairs, the rest of the buffer zero.
pub open spec fn spec_oid_from_hex(algo: HashAlgorithm, hex: Seq<u8>) -> ObjectIDView {
    (
        Seq::new(
            GIT_MAX_RAWSZ as nat,
            |i: int| if i < algo.spec_rawsz() { hex_byte(hex, i) } else { 0u8 },
        ),
        algo,
    )
}

/// The ASCII codes of `hex_chars`.
pub open spec fn hex_ascii(bytes: Seq<u8>) -> Seq<u8> {
    hex_chars(bytes).map_values(|c: char| c as u8)
}

pub(crate) fn hex_digit_str(v: u8) -> (s: &'static str)
    requires
        v < 16,
    ensures
        s@ == seq![hex_digit(v as int)],
{
    let digits = "0123456789abcdef";
    proof {
        reveal_strlit("0123456789abcdef");
    }
    assert(vstd::string::is_ascii(digits));
    let s = digits.substring_ascii(v as usize, v as usize + 1);
    assert(s@ =~= seq![hex_digit(v as int)]);
    s
}

/// Calculate and return the hex form of an object id: its algorithm's hash
/// length in bytes, in lowercase hexadecimal.
pub fn hex_from_oid(oid: &ObjectID) -> (s: String)
    ensures
        s@ == spec_oid_to_hex(oid@),
        s@.len() == oid@.1.spec_hexsz(),
{
    let bytes = oid.hash_bytes();
    let n = oid.algo().rawsz();
    let ghost target = bytes@.take(n as int);
    let mut s = String::new();
    let mut i: usize = 0;
    while i < n
        invariant
            n == oid@.1.spec_rawsz(),
            n <= bytes@.len(),
            bytes@ == oid@.0,
            target == bytes@.take(n as int),
            i <= n,
            s@ =~= hex_chars(target.take(i as int)),
        decreases n - i,
    {
        let b = bytes[i];
        let hi = hex_digit_str(b / 16);
        let lo = hex_digit_str(b % 16);
        s.append(hi);
        s.append(lo);
        assert(s@ =~= hex_chars(target.take(i + 1)));
        i = i + 1;
    }
    assert(target.take(n as int) =~= target);
    s
}

fn hex_value_exec(c: u8) -> (v: i32)
    ensures
        v == hex_value(c),
{
    if 48 <= c && c <= 57 {
        (c - 48) as i32
    } else if 97 <= c && c <= 102 {
        (c - 87) as i32
    } else if 65 <= c && c <= 70 {
        (c - 55) as i32
    } else {
        -1
    }
}

/// Read an object id of the given algorithm from hexadecimal digits, as
/// `get_oid_hex_algop` does: `None` unless the first `hexsz` bytes are all
/// hexadecimal digits (either case); otherwise their value, the rest of the
/// hash buffer zero.
pub fn get_oid_hex(algo: HashAlgorithm, hex: &[u8]) -> (oid: Option<ObjectID>)
    requires
        hex@.len() >= algo.spec_hexsz(),
    ensures
        oid is Some <==> hex_is_valid(hex@, algo.spec_rawsz()),
        oid matches Some(o) ==> o@ == spec_oid_from_hex(algo, hex@),
{
    let n = algo.rawsz();
    let mut hash: Vec<u8> = Vec::new();
    let mut i: usize = 0;
    while i < n
        invariant
            n == algo.spec_rawsz(),
            hex@.len() >= 2 * n,
            i <= n,
            hash@.len() == i,
            forall|k: int| 0 <= k < 2 * i ==> hex_value(#[trigger] hex@[k]) >= 0,
            forall|k: int| 0 <= k < i ==> hash@[k] == hex_byte(hex@, k),
        decreases n - i,
    {
        let hi = hex_value_exec(hex[2 * i]);
        if hi < 0 {
            return None;
        }
        let lo = hex_value_exec(hex[2 * i + 1]);
        if lo < 0 {
            return None;
        }
        hash.push((16 * hi + lo) as u8);
        i = i + 1;
    }
    while i < GIT_MAX_RAWSZ
        invariant
            n == algo.spec_rawsz(),
            n <= i <= GIT_MAX_RAWSZ,
            hash@.len() == i,
            forall|k: int| 0 <= k < n ==> hash@[k] == hex_byte(hex@, k),
            forall|k: int| n <= k < i ==> hash@[k] == 0u8,
        decreases GIT_MAX_RAWSZ - i,
    {
        hash.push(0u8);
        i = i + 1;
    }
    assert(hash@ =~= spec_oid_from_hex(algo, hex@).0);
    ObjectID::from_bytes(algo, hash.as_slice())
}

proof fn lemma_hex_digit_value(v: int)
    requires
        0 <= v < 16,
    ensures
        hex_value(hex_digit(v) as u8) == v,
{
}

/// Reading back the hexadecimal form of a canonical object id gives the same
/// object id.
pub proof fn lemma_hex_round_trip(oid: ObjectIDView)
    requires
        crate::hash::oid_is_canonical(oid),
    ensures
        hex_ascii(oid.0.take(oid.1.spec_rawsz() as int)).len() == oid.1.spec_hexsz(),
        hex_is_valid(hex_ascii(oid.0.take(oid.1.spec_rawsz() as int)), oid.1.spec_rawsz()),
        spec_oid_from_hex(oid.1, hex_ascii(oid.0.take(oid.1.spec_rawsz() as int))) == oid,
{
    let n = oid.1.spec_rawsz() as int;
    let t = oid.0.take(n);
    let h = hex_ascii(t);
    assert forall|i: int| 0 <= i < 2 * n implies hex_value(#[trigger] h[i]) >= 0 by {
        let b = t[i / 2] as int;
        if i % 2 == 0 {
            lemma_hex_digit_value(b / 16);
        } else {
            lemma_hex_digit_value(b % 16);
        }
    }
    assert forall|i: int| 0 <= i < n implies hex_byte(h, i) == oid.0[i] by {
        let b = t[i] as int;
        assert((2 * i) / 2 == i);
        assert((2 * i + 1) / 2 == i);
        assert((2 * i) % 2 == 0);
        assert((2 * i + 1) % 2 == 1);
        lemma_hex_digit_value(b / 16);
        lemma_hex_digit_value(b % 16);
        assert(16 * (b / 16) + b % 16 == b);
    }
    assert(spec_oid_from_hex(oid.1, h).0 =~= oid.0);
}

/// The hexadecimal form is ASCII, of two digits per byte.
pub proof fn lemma_hex_ascii_is_ascii(bytes: Seq<u8>)
    ensures
        hex_ascii(bytes).len() == 2 * bytes.len(),
        forall|i: int| 0 <= i < 2 * bytes.len() ==> (#[trigger] hex_ascii(bytes)[i]) < 128,
{
}

/// The hexadecimal form holds no NUL byte.
pub proof fn lemma_hex_ascii_not_nul(bytes: Seq<u8>)
    ensures
        forall|i: int| 0 <= i < 2 * bytes.len() ==> (#[trigger] hex_ascii(bytes)[i]) >= 48,
{
}

} // verus!
