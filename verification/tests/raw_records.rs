use git_difftool::builtin::difftool::raw::{
    index_info_would_panic, parse_index_info, parse_octal, read_bytes_until_null, read_record, IndexInfoError,
    NulReader, RecordError, RecordRead,
};
use git_difftool::hash::HashAlgorithm;
use git_difftool::hex::hex_from_oid;

const L: &str = "480a84738811a49290ffc8e72c56f0a6fbdb9f4b";
const R: &str = "8bd554f77af18d7b35fb71dfad8056007a79ab02";

fn header(status: &str) -> String {
    format!(":100644 100644 {L} {R} {status}")
}

fn err(s: &str) -> IndexInfoError {
    match parse_index_info(HashAlgorithm::SHA1, s) {
        Ok(_) => panic!("parsed: {s:?}"),
        Err(e) => e,
    }
}

#[test]
fn parse_octal_values() {
    assert_eq!(parse_octal("100644"), Some(0o100644));
    assert_eq!(parse_octal("000000"), Some(0));
    assert_eq!(parse_octal("+17"), Some(15));
    assert_eq!(parse_octal("-17"), Some(-15));
    assert_eq!(parse_octal("-0"), Some(0));
    assert_eq!(parse_octal("17777777777"), Some(i32::MAX));
    assert_eq!(parse_octal("-20000000000"), Some(i32::MIN));
}

#[test]
fn parse_octal_rejects() {
    assert_eq!(parse_octal(""), None);
    assert_eq!(parse_octal("+"), None);
    assert_eq!(parse_octal("-"), None);
    assert_eq!(parse_octal("8"), None);
    assert_eq!(parse_octal("10064 "), None);
    assert_eq!(parse_octal("+-1"), None);
    assert_eq!(parse_octal("20000000000"), None);
    assert_eq!(parse_octal("-20000000001"), None);
    assert_eq!(parse_octal("777777777777777777777"), None);
}

#[test]
fn parse_octal_matches_std_on_samples() {
    for s in ["0", "7", "10", "777777", "+777", "-777", "9", "1x", "", "+", "-", "00000000000000000001"] {
        assert_eq!(parse_octal(s), i32::from_str_radix(s, 8).ok(), "{s:?}");
    }
}

#[test]
fn parse_index_info_modify() {
    let info = parse_index_info(HashAlgorithm::SHA1, &header("M")).ok().unwrap();
    assert_eq!(info.mode_left, 0o100644);
    assert_eq!(info.mode_right, 0o100644);
    assert_eq!(info.status, 'M');
    assert_eq!(hex_from_oid(&info.oid_left), L);
    assert_eq!(hex_from_oid(&info.oid_right), R);
}

#[test]
fn parse_index_info_rename_with_score() {
    let info = parse_index_info(HashAlgorithm::SHA1, &header("R80")).ok().unwrap();
    assert_eq!(info.status, 'R');
    let info = parse_index_info(HashAlgorithm::SHA1, &header("R8")).ok().unwrap();
    assert_eq!(info.status, 'R');
    // A single byte after the status is not examined.
    let info = parse_index_info(HashAlgorithm::SHA1, &header("Rx")).ok().unwrap();
    assert_eq!(info.status, 'R');
}

#[test]
fn parse_index_info_new_and_deleted_files() {
    let s = format!(":000000 100755 {} {R} A", "0".repeat(40));
    let info = parse_index_info(HashAlgorithm::SHA1, &s).ok().unwrap();
    assert_eq!(info.mode_left, 0);
    assert_eq!(info.mode_right, 0o100755);
    assert!(info.oid_left.is_null());
    assert_eq!(info.status, 'A');
}

#[test]
fn parse_index_info_sha256() {
    let l = "a".repeat(64);
    let r = "B".repeat(64);
    let s = format!(":120000 160000 {l} {r} T");
    let info = parse_index_info(HashAlgorithm::SHA256, &s).ok().unwrap();
    assert_eq!(info.mode_left, 0o120000);
    assert_eq!(info.mode_right, 0o160000);
    assert_eq!(hex_from_oid(&info.oid_left), l);
    assert_eq!(hex_from_oid(&info.oid_right), "b".repeat(64));
}

#[test]
fn parse_index_info_errors() {
    assert!(matches!(err("x100644"), IndexInfoError::ExpectedColon(v) if v == "x"));
    assert!(matches!(err(":10064"), IndexInfoError::TruncatedMode(v) if v == "10064"));
    assert!(matches!(err(":100644"), IndexInfoError::TruncatedMode(v) if v == "100644"));
    assert!(matches!(err(":10064x 100644"), IndexInfoError::BadMode(v) if v == "10064x"));
    assert!(matches!(err(":100644 "), IndexInfoError::TruncatedAfterFirstMode));
    assert!(matches!(err(":100644-100644 "), IndexInfoError::ExpectedSpace(v) if v == "-"));
    assert!(matches!(err(":100644 10064"), IndexInfoError::TruncatedMode(v) if v == "10064"));
    assert!(matches!(err(":100644 99 "), IndexInfoError::TruncatedMode(v) if v == "99 "));
    assert!(matches!(err(":100644 100944 x"), IndexInfoError::BadMode(v) if v == "100944"));
    assert!(matches!(err(":100644 100644 "), IndexInfoError::TruncatedAfterSecondMode));
    assert!(matches!(err(":100644 100644_x"), IndexInfoError::ExpectedSpace(v) if v == "_"));
    assert!(matches!(err(":100644 100644 abc"), IndexInfoError::TruncatedObjectId(v) if v == "abc"));
    let bad = format!(":100644 100644 {}z {R} M", &L[..39]);
    assert!(matches!(err(&bad), IndexInfoError::BadObjectId(v) if *v == format!("{}z", &L[..39])));
    assert!(matches!(err(&format!(":100644 100644 {L} ")), IndexInfoError::TruncatedAfterObjectId));
    assert!(matches!(err(&format!(":100644 100644 {L}-{R} M")), IndexInfoError::ExpectedSpace(v) if v == "-"));
    assert!(matches!(err(&format!(":100644 100644 {L} {}", &R[..10])), IndexInfoError::TruncatedObjectId(v) if v == &R[..10]));
    assert!(matches!(err(&format!(":100644 100644 {L} {R}")), IndexInfoError::TruncatedObjectId(_)));
    assert!(matches!(err(&format!(":100644 100644 {L} {}q M", &R[..39])), IndexInfoError::BadObjectId(_)));
    assert!(matches!(err(&format!(":100644 100644 {L} {R} ")), IndexInfoError::TruncatedAfterObjectId));
    assert!(matches!(err(&format!(":100644 100644 {L} {R}-M")), IndexInfoError::ExpectedSpaceBeforeStatus));
    assert!(matches!(err(&format!(":100644 100644 {L} {R} \0")), IndexInfoError::NullStatus));
    assert!(matches!(err(&format!(":100644 100644 {L} {R} Rxy")), IndexInfoError::UnexpectedTrailer(v) if v == "x"));
}

#[test]
fn header_slicing_inside_a_character_is_detected() {
    assert!(index_info_would_panic(HashAlgorithm::SHA1, ""));
    assert!(index_info_would_panic(HashAlgorithm::SHA1, "\u{e9}100644"));
    assert!(index_info_would_panic(HashAlgorithm::SHA1, ":10064\u{e9} 100644"));
    assert!(!index_info_would_panic(HashAlgorithm::SHA1, ":1\u{e9}345 100644"));
    assert!(matches!(err(":1\u{e9}345 100644"), IndexInfoError::BadMode(_)));
    assert!(!index_info_would_panic(HashAlgorithm::SHA1, &header("M")));
}

#[test]
fn read_fields_until_null() {
    let mut reader = NulReader::new(b"abc\0de\0\0fg".to_vec());
    let mut buf = Vec::new();
    assert!(read_bytes_until_null(&mut reader, &mut buf));
    assert_eq!(buf, b"abc");
    buf.clear();
    assert!(read_bytes_until_null(&mut reader, &mut buf));
    assert_eq!(buf, b"de");
    buf.clear();
    assert!(!read_bytes_until_null(&mut reader, &mut buf));
    assert_eq!(buf, b"");
    buf.clear();
    assert!(read_bytes_until_null(&mut reader, &mut buf));
    assert_eq!(buf, b"fg");
    buf.clear();
    assert!(!read_bytes_until_null(&mut reader, &mut buf));
}

#[test]
fn read_appends_to_buffer() {
    let mut reader = NulReader::new(b"xy\0".to_vec());
    let mut buf = b"ab".to_vec();
    assert!(read_bytes_until_null(&mut reader, &mut buf));
    assert_eq!(buf, b"abxy");
}

fn output(parts: &[&str]) -> Vec<u8> {
    let mut v = Vec::new();
    for p in parts {
        v.extend_from_slice(p.as_bytes());
        v.push(0);
    }
    v
}

#[test]
fn read_records_of_raw_output() {
    let data = output(&[&header("M"), "a.txt", &header("R100"), "old.txt", "new.txt"]);
    let mut reader = NulReader::new(data);
    match read_record(&mut reader, HashAlgorithm::SHA1) {
        RecordRead::Entry(r) => {
            assert_eq!(r.src_path, "a.txt");
            assert_eq!(r.dst_path, "a.txt");
            assert_eq!(r.info.status, 'M');
        },
        _ => panic!("expected a record"),
    }
    match read_record(&mut reader, HashAlgorithm::SHA1) {
        RecordRead::Entry(r) => {
            assert_eq!(r.src_path, "old.txt");
            assert_eq!(r.dst_path, "new.txt");
            assert_eq!(r.info.status, 'R');
        },
        _ => panic!("expected a rename"),
    }
    assert!(matches!(read_record(&mut reader, HashAlgorithm::SHA1), RecordRead::Stop { counted: false }));
}

#[test]
fn read_record_stops_and_fails() {
    let mut reader = NulReader::new(output(&[&header("C90"), "src"]));
    assert!(matches!(read_record(&mut reader, HashAlgorithm::SHA1), RecordRead::Stop { counted: true }));
    let mut reader = NulReader::new(output(&[&header("M")]));
    assert!(matches!(read_record(&mut reader, HashAlgorithm::SHA1), RecordRead::Stop { counted: false }));
    let mut bad = b"\xff\xfe".to_vec();
    bad.push(0);
    let mut reader = NulReader::new(bad);
    assert!(matches!(read_record(&mut reader, HashAlgorithm::SHA1), RecordRead::Failed(RecordError::NotUtf8(v)) if v == b"\xff\xfe"));
    let mut reader = NulReader::new(output(&["x"]));
    assert!(matches!(read_record(&mut reader, HashAlgorithm::SHA1), RecordRead::Failed(RecordError::BadHeader(IndexInfoError::ExpectedColon(_)))));
    let mut reader = NulReader::new(output(&["\u{e9}"]));
    assert!(matches!(read_record(&mut reader, HashAlgorithm::SHA1), RecordRead::Panics));
    let mut data = output(&[&header("M")]);
    data.extend_from_slice(b"\xc3\0");
    let mut reader = NulReader::new(data);
    assert!(matches!(read_record(&mut reader, HashAlgorithm::SHA1), RecordRead::Failed(RecordError::NotUtf8(_))));
}

#[test]
fn written_records_read_back_with_unicode_paths() {
    let data = output(&[&header("C75"), "d\u{e9}j\u{e0}/a.txt", "\u{4e2d}.txt", &header("D"), "gone"]);
    let mut reader = NulReader::new(data);
    match read_record(&mut reader, HashAlgorithm::SHA1) {
        RecordRead::Entry(r) => {
            assert_eq!(r.src_path, "d\u{e9}j\u{e0}/a.txt");
            assert_eq!(r.dst_path, "\u{4e2d}.txt");
            assert_eq!(r.info.status, 'C');
        },
        _ => panic!("expected a copy"),
    }
    match read_record(&mut reader, HashAlgorithm::SHA1) {
        RecordRead::Entry(r) => {
            assert_eq!(r.src_path, "gone");
            assert_eq!(r.dst_path, "gone");
            assert_eq!(r.info.status, 'D');
        },
        _ => panic!("expected a deletion"),
    }
}

#[test]
fn empty_field_ends_the_records() {
    let mut data = output(&[&header("M"), "a"]);
    data.push(0);
    data.extend_from_slice(&output(&[&header("M"), "b"]));
    let mut reader = NulReader::new(data);
    assert!(matches!(read_record(&mut reader, HashAlgorithm::SHA1), RecordRead::Entry(_)));
    assert!(matches!(read_record(&mut reader, HashAlgorithm::SHA1), RecordRead::Stop { counted: false }));
}

#[test]
fn index_info_error_messages() {
    assert_eq!(err("x100644").message(), "expected ':', got 'x'");
    assert_eq!(err(":10064").message(), "expected octal mode, got truncated '10064'");
    assert_eq!(err(":10064x 100644").message(), "expected octal mode, got '10064x'");
    assert_eq!(err(":100644 ").message(), "expected space after first mode, got truncated value");
    assert_eq!(err(":100644-100644 ").message(), "expected ' ', got '-'");
    assert_eq!(err(":100644 100644 ").message(), "expected space after 2nd mode, got truncated value");
    assert_eq!(err(":100644 100644 abc").message(), "expected hex object id, got truncated 'abc'");
    let bad = format!(":100644 100644 {}z {R} M", &L[..39]);
    assert_eq!(err(&bad).message(), format!("expected hex object id, got '{}z'", &L[..39]));
    assert_eq!(
        err(&format!(":100644 100644 {L} ")).message(),
        "expected space after hex object id, got truncated value"
    );
    assert_eq!(err(&format!(":100644 100644 {L} {R}-M")).message(), "expected ' ', got '{space_str}'");
    assert_eq!(err(&format!(":100644 100644 {L} {R} \0")).message(), "missing status: null entry");
    assert_eq!(err(&format!(":100644 100644 {L} {R} Rxy")).message(), "unexpected trailer: 'x'");
}

#[test]
fn record_error_messages() {
    assert_eq!(
        RecordError::NotUtf8(vec![255, 254, 0, 7, 10, 99, 100]).message(),
        "unable to convert from git diff output to utf8: [255, 254, 0, 7, 10, 99, 100]"
    );
    assert_eq!(RecordError::NotUtf8(vec![]).message(), "unable to convert from git diff output to utf8: []");
    assert_eq!(RecordError::BadHeader(err("x")).message(), "expected ':', got 'x'");
    let bytes: Vec<u8> = b"\xff\xfe".to_vec();
    assert_eq!(
        RecordError::NotUtf8(bytes.clone()).message(),
        format!("unable to convert from git diff output to utf8: {bytes:?}")
    );
}
