use git_difftool::hash::{HashAlgorithm, ObjectID, GIT_MAX_RAWSZ};
use git_difftool::hex::{get_oid_hex, hex_from_oid};

fn sha1_oid(prefix: &[u8]) -> ObjectID {
    let mut bytes = [0u8; 32];
    bytes[..prefix.len()].copy_from_slice(prefix);
    ObjectID::from_bytes(HashAlgorithm::SHA1, &bytes).unwrap()
}

#[test]
fn algorithm_sizes() {
    assert_eq!(HashAlgorithm::SHA1.rawsz(), 20);
    assert_eq!(HashAlgorithm::SHA1.hexsz(), 40);
    assert_eq!(HashAlgorithm::SHA256.rawsz(), 32);
    assert_eq!(HashAlgorithm::SHA256.hexsz(), 64);
    assert_eq!(HashAlgorithm::SHA1.format_id(), 1);
    assert_eq!(HashAlgorithm::SHA256.format_id(), 2);
    assert_eq!(HashAlgorithm::from_format_id(2), Some(HashAlgorithm::SHA256));
    assert_eq!(HashAlgorithm::from_format_id(0), None);
}

#[test]
fn null_oid_is_all_zero() {
    let n = HashAlgorithm::SHA256.null_oid();
    assert_eq!(n.hash_bytes(), &[0u8; 32][..]);
    assert!(n.is_null());
    assert_eq!(n.algo(), HashAlgorithm::SHA256);
    assert!(!n.same_as(&HashAlgorithm::SHA1.null_oid()));
}

#[test]
fn from_bytes_needs_full_buffer() {
    assert!(ObjectID::from_bytes(HashAlgorithm::SHA1, &[0u8; 20]).is_none());
    assert!(ObjectID::from_bytes(HashAlgorithm::SHA1, &[0u8; GIT_MAX_RAWSZ]).is_some());
}

#[test]
fn hex_of_sha1_oid() {
    let oid = sha1_oid(&[
        0x48, 0x0a, 0x84, 0x73, 0x88, 0x11, 0xa4, 0x92, 0x90, 0xff, 0xc8, 0xe7, 0x2c, 0x56, 0xf0, 0xa6, 0xfb,
        0xdb, 0x9f, 0x4b,
    ]);
    assert_eq!(hex_from_oid(&oid), "480a84738811a49290ffc8e72c56f0a6fbdb9f4b");
}

#[test]
fn hex_of_null_sha256_oid() {
    let n = HashAlgorithm::SHA256.null_oid();
    assert_eq!(hex_from_oid(&n), "0".repeat(64));
}

#[test]
fn hex_decode_either_case() {
    let lower = get_oid_hex(HashAlgorithm::SHA1, b"480a84738811a49290ffc8e72c56f0a6fbdb9f4b").unwrap();
    let upper = get_oid_hex(HashAlgorithm::SHA1, b"480A84738811A49290FFC8E72C56F0A6FBDB9F4B").unwrap();
    assert!(lower.same_as(&upper));
    assert_eq!(lower.hash_bytes()[0], 0x48);
    assert_eq!(lower.hash_bytes()[19], 0x4b);
    assert_eq!(&lower.hash_bytes()[20..], &[0u8; 12][..]);
}

#[test]
fn hex_decode_reads_only_hexsz_digits() {
    let oid = get_oid_hex(HashAlgorithm::SHA1, b"00000000000000000000000000000000000000ffzz").unwrap();
    assert_eq!(oid.hash_bytes()[19], 0xff);
}

#[test]
fn hex_decode_rejects_non_hex() {
    assert!(get_oid_hex(HashAlgorithm::SHA1, b"g80a84738811a49290ffc8e72c56f0a6fbdb9f4b").is_none());
    assert!(get_oid_hex(HashAlgorithm::SHA1, b"480a84738811a49290ffc8e72c56f0a6fbdb9f4 ").is_none());
}

#[test]
fn hex_round_trip() {
    let oid = sha1_oid(&[1, 2, 3, 250, 251, 252, 0, 9, 10, 11, 12, 13, 14, 15, 16, 17, 18, 19, 20, 255]);
    let hex = hex_from_oid(&oid);
    let back = get_oid_hex(HashAlgorithm::SHA1, hex.as_bytes()).unwrap();
    assert!(back.same_as(&oid));
    let mut bytes = [0u8; 32];
    for (i, b) in bytes.iter_mut().enumerate() {
        *b = (i as u8).wrapping_mul(37);
    }
    let oid = ObjectID::from_bytes(HashAlgorithm::SHA256, &bytes).unwrap();
    let hex = hex_from_oid(&oid);
    assert_eq!(hex.len(), 64);
    assert!(get_oid_hex(HashAlgorithm::SHA256, hex.as_bytes()).unwrap().same_as(&oid));
}

#[test]
fn clone_id_is_equal() {
    let oid = sha1_oid(&[7; 20]);
    assert!(oid.clone_id().same_as(&oid));
    assert!(!oid.same_as(&sha1_oid(&[8; 20])));
}
