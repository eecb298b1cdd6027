use git_difftool::entry::CheckoutBitFields;
use git_difftool::object::{is_git_directory_link, is_link, is_regular_file, ObjectType};
use git_difftool::read_cache::{AddCache, COMMIT_LOCK};
use git_difftool::types::{string_or_empty, utf8_string, ExitCode};

#[test]
fn mode_predicates_classify_file_types() {
    assert!(is_regular_file(0o100644));
    assert!(is_regular_file(0o100755));
    assert!(!is_link(0o100644));
    assert!(!is_git_directory_link(0o100644));
    assert!(is_link(0o120000));
    assert!(!is_regular_file(0o120000));
    assert!(is_git_directory_link(0o160000));
    assert!(!is_link(0o160000));
    assert!(!is_regular_file(0o160000));
    assert!(!is_regular_file(0o040000));
    assert!(!is_link(0));
    assert!(!is_git_directory_link(0));
}

#[test]
fn mode_predicates_ignore_permission_bits() {
    assert!(is_regular_file(0o100000 | 0o7777));
    assert!(is_link(0o120777));
    assert!(is_git_directory_link(0o160000 | 0o644));
}

#[test]
fn file_types_are_exclusive_on_every_mode_tested() {
    for mode in [0, 0o100644, 0o120000, 0o160000, 0o040000, -1, i32::MIN, i32::MAX, 0o170000] {
        let count = [is_regular_file(mode), is_link(mode), is_git_directory_link(mode)]
            .iter()
            .filter(|b| **b)
            .count();
        assert!(count <= 1, "mode {mode:o}");
    }
}

#[test]
fn object_type_codes() {
    assert_eq!(ObjectType::Bad.code(), -1);
    assert_eq!(ObjectType::NoType.code(), 0);
    assert_eq!(ObjectType::Commit.code(), 1);
    assert_eq!(ObjectType::Tree.code(), 2);
    assert_eq!(ObjectType::Blob.code(), 3);
    assert_eq!(ObjectType::Tag.code(), 4);
    assert_eq!(ObjectType::OfsDelta.code(), 6);
    assert_eq!(ObjectType::RefDelta.code(), 7);
    assert_eq!(ObjectType::Any.code(), 8);
}

#[test]
fn object_type_from_code_round_trip() {
    for t in [
        ObjectType::Bad,
        ObjectType::NoType,
        ObjectType::Commit,
        ObjectType::Tree,
        ObjectType::Blob,
        ObjectType::Tag,
        ObjectType::OfsDelta,
        ObjectType::RefDelta,
        ObjectType::Any,
    ] {
        assert_eq!(ObjectType::from_code(t.code()), Some(t));
    }
    assert_eq!(ObjectType::from_code(5), None);
    assert_eq!(ObjectType::from_code(9), None);
    assert_eq!(ObjectType::from_code(-2), None);
}

#[test]
fn add_cache_values_are_single_bits() {
    let all = [
        AddCache::OkToAdd,
        AddCache::OkToReplace,
        AddCache::SkipDFCheck,
        AddCache::JustAppend,
        AddCache::NewOnly,
        AddCache::KeepCacheTree,
        AddCache::Renormalize,
    ];
    let values: Vec<i32> = all.iter().map(|a| a.value()).collect();
    assert_eq!(values, vec![1, 2, 4, 8, 16, 32, 64]);
    assert_eq!(COMMIT_LOCK, 1);
}

#[test]
fn exit_codes() {
    assert_eq!(ExitCode::Success.code(), 0);
    assert_eq!(ExitCode::Failure.code(), 1);
    assert_eq!(ExitCode::Error.code(), 128);
    assert_eq!(ExitCode::UsageError.code(), 129);
}

#[test]
fn checkout_flags_start_cleared() {
    let f = CheckoutBitFields::new();
    assert_eq!(f.into_bits(), 0);
    let d = CheckoutBitFields::default();
    assert!(!d.force() && !d.quiet() && !d.not_new() && !d.clone() && !d.refresh_cache());
}

#[test]
fn checkout_flags_set_and_get() {
    let mut f = CheckoutBitFields::new();
    f.set_force(true);
    assert!(f.force());
    assert_eq!(f.into_bits(), 1);
    let mut f = CheckoutBitFields::from_bits(1);
    f.set_quiet(true);
    f.set_refresh_cache(true);
    assert_eq!(f.into_bits(), 0b10011);
    let mut f = CheckoutBitFields::from_bits(0b10011);
    f.set_force(false);
    assert!(!f.force());
    assert!(f.quiet());
    assert!(f.refresh_cache());
    assert_eq!(f.into_bits(), 0b10010);
}

#[test]
fn checkout_flags_each_bit_position() {
    let f = CheckoutBitFields::new().with_not_new(true);
    assert_eq!(f.into_bits(), 4);
    let f = CheckoutBitFields::new().with_clone(true);
    assert_eq!(f.into_bits(), 8);
    let f = CheckoutBitFields::new().with_refresh_cache(true);
    assert_eq!(f.into_bits(), 16);
    let f = CheckoutBitFields::new().with_quiet(true).with_force(true);
    assert_eq!(f.into_bits(), 3);
}

#[test]
fn checkout_flags_keep_padding_bits() {
    let mut f = CheckoutBitFields::from_bits(0xFFFF_FFE0);
    f.set_clone(true);
    assert_eq!(f.into_bits(), 0xFFFF_FFE8);
    let mut f = CheckoutBitFields::from_bits(0xFFFF_FFFF);
    f.set_not_new(false);
    assert_eq!(f.into_bits(), 0xFFFF_FFFB);
}

#[test]
fn checkout_flag_set_twice_keeps_last() {
    let mut f = CheckoutBitFields::from_bits(0b101);
    f.set_quiet(true);
    f.set_quiet(false);
    assert_eq!(f.into_bits(), 0b101);
}

#[test]
fn utf8_text_from_bytes() {
    assert_eq!(utf8_string(b"hello"), Some("hello".to_string()));
    assert_eq!(utf8_string("h\u{e9}".as_bytes()), Some("h\u{e9}".to_string()));
    assert_eq!(utf8_string(&[0x68, 0xff]), None);
    assert_eq!(string_or_empty(b"dir/file"), "dir/file");
    assert_eq!(string_or_empty(&[0xc3]), "");
}
