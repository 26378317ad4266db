use objstore::digits::{parse_dec_u64, u64_to_dec};
use objstore::error::ObjectError;
use objstore::header::{encode_header_bytes, parse_header};
use objstore::kind::ObjectKind;

#[test]
fn encode_header_wire_form() {
    assert_eq!(encode_header_bytes(ObjectKind::Blob, 6), b"blob 6\0".to_vec());
    assert_eq!(encode_header_bytes(ObjectKind::Tree, 0), b"tree 0\0".to_vec());
    assert_eq!(
        encode_header_bytes(ObjectKind::Commit, 12345),
        b"commit 12345\0".to_vec()
    );
}

#[test]
fn parse_header_accepts_known_kinds() {
    let h = parse_header(&b"blob 6".to_vec()).unwrap();
    assert_eq!(h.kind, ObjectKind::Blob);
    assert_eq!(h.payload_size, 6);
    let h = parse_header(&b"commit 0".to_vec()).unwrap();
    assert_eq!(h.kind, ObjectKind::Commit);
    assert_eq!(h.payload_size, 0);
}

#[test]
fn parse_header_unknown_kind() {
    match parse_header(&b"widget 3".to_vec()) {
        Err(ObjectError::UnknownKind { name }) => assert_eq!(name, b"widget".to_vec()),
        other => panic!("expected UnknownKind, got {:?}", other),
    }
}

#[test]
fn parse_header_no_space() {
    match parse_header(&b"blob6".to_vec()) {
        Err(ObjectError::MalformedHeader { bytes }) => assert_eq!(bytes, b"blob6".to_vec()),
        other => panic!("expected MalformedHeader, got {:?}", other),
    }
}

#[test]
fn parse_header_bad_size() {
    assert!(matches!(
        parse_header(&b"blob abc".to_vec()),
        Err(ObjectError::MalformedHeader { .. })
    ));
    assert!(matches!(
        parse_header(&b"blob ".to_vec()),
        Err(ObjectError::MalformedHeader { .. })
    ));
    // One above u64::MAX overflows.
    assert!(matches!(
        parse_header(&b"blob 18446744073709551616".to_vec()),
        Err(ObjectError::MalformedHeader { .. })
    ));
}

#[test]
fn parse_header_rejects_non_utf8() {
    // 0xff is not valid UTF-8 anywhere, so this is a malformed header even
    // though the offending byte sits where a kind name would be.
    let mut region: Vec<u8> = Vec::new();
    region.push(0xff);
    region.extend_from_slice(b" 3");
    assert!(matches!(
        parse_header(&region),
        Err(ObjectError::MalformedHeader { .. })
    ));
}

#[test]
fn parse_header_utf8_kind_name_is_unknown_not_malformed() {
    // A kind name in valid (multi-byte) UTF-8 is readable text, so it fails
    // as an unknown kind rather than as a malformed header.
    let mut region: Vec<u8> = Vec::new();
    region.extend_from_slice("blöb".as_bytes());
    region.extend_from_slice(b" 3");
    match parse_header(&region) {
        Err(ObjectError::UnknownKind { name }) => {
            assert_eq!(name, "blöb".as_bytes().to_vec())
        }
        other => panic!("expected UnknownKind, got {:?}", other),
    }
}

#[test]
fn parse_header_rejects_overlong_and_surrogate_encodings() {
    // 0xc0 0xaf is an overlong encoding of '/', invalid UTF-8.
    let mut region: Vec<u8> = vec![0xc0, 0xaf];
    region.extend_from_slice(b" 3");
    assert!(matches!(
        parse_header(&region),
        Err(ObjectError::MalformedHeader { .. })
    ));
    // 0xed 0xa0 0x80 encodes a surrogate, invalid UTF-8.
    let mut region: Vec<u8> = vec![0xed, 0xa0, 0x80];
    region.extend_from_slice(b" 3");
    assert!(matches!(
        parse_header(&region),
        Err(ObjectError::MalformedHeader { .. })
    ));
}

#[test]
fn decimal_rendering() {
    assert_eq!(u64_to_dec(0), b"0".to_vec());
    assert_eq!(u64_to_dec(7), b"7".to_vec());
    assert_eq!(u64_to_dec(18446744073709551615), b"18446744073709551615".to_vec());
}

#[test]
fn decimal_parsing() {
    assert_eq!(parse_dec_u64(&b"0".to_vec()), Some(0));
    assert_eq!(parse_dec_u64(&b"007".to_vec()), Some(7));
    assert_eq!(
        parse_dec_u64(&b"18446744073709551615".to_vec()),
        Some(u64::MAX)
    );
    assert_eq!(parse_dec_u64(&b"18446744073709551616".to_vec()), None);
    assert_eq!(parse_dec_u64(&b"".to_vec()), None);
    assert_eq!(parse_dec_u64(&b"12a".to_vec()), None);
    assert_eq!(parse_dec_u64(&b"+5".to_vec()), None);
}
