use objstore::error::ObjectError;
use objstore::hash::ContentHash;
use objstore::kind::ObjectKind;
use objstore::laws::write_then_read;
use objstore::locator::path_for;
use objstore::reader::{decode_object, read_object};
use objstore::writer::{hash_object, write_object};
use sha1::Digest;

/// Compresses bytes the same way the store does, for crafting test objects.
fn zlib(data: &[u8]) -> Vec<u8> {
    let mut enc = flate2::write::ZlibEncoder::new(Vec::new(), flate2::Compression::default());
    std::io::Write::write_all(&mut enc, data).unwrap();
    enc.finish().unwrap()
}

#[test]
fn round_trip_blob() {
    let content: Vec<u8> = b"hello world".to_vec();
    let obj = write_then_read(ObjectKind::Blob, &content);
    assert_eq!(obj.header.kind, ObjectKind::Blob);
    assert_eq!(obj.header.payload_size, 11);
    assert_eq!(obj.payload, content);
    assert!(obj.check_size().is_ok());
}

#[test]
fn round_trip_all_kinds() {
    for kind in [ObjectKind::Blob, ObjectKind::Tree, ObjectKind::Commit] {
        let content: Vec<u8> = vec![0, 1, 2, 255, 0, 32, 10];
        let (_hash, plan) = write_object(kind, &content, true);
        let plan = plan.unwrap();
        let obj = decode_object(&plan.data).unwrap();
        assert_eq!(obj.header.kind, kind);
        assert_eq!(obj.header.payload_size, 7);
        assert_eq!(obj.payload, content);
    }
}

#[test]
fn round_trip_empty_content() {
    let content: Vec<u8> = Vec::new();
    let obj = write_then_read(ObjectKind::Blob, &content);
    assert_eq!(obj.header.payload_size, 0);
    assert!(obj.payload.is_empty());
}

#[test]
fn idempotent_rewrite() {
    let content: Vec<u8> = b"same thing twice".to_vec();
    let (h1, p1) = write_object(ObjectKind::Blob, &content, true);
    let (h2, p2) = write_object(ObjectKind::Blob, &content, true);
    assert_eq!(h1.to_hex(), h2.to_hex());
    let p1 = p1.unwrap();
    let p2 = p2.unwrap();
    assert_eq!(p1.path, p2.path);
    assert_eq!(p1.dir, p2.dir);
    assert_eq!(p1.data, p2.data);
    // The store stays readable after the rewrite: the (identical) bytes
    // still decode to the written object.
    let obj = decode_object(&p2.data).unwrap();
    assert_eq!(obj.payload, content);
}

#[test]
fn hash_determinism_hello() {
    let content: Vec<u8> = b"hello\n".to_vec();
    let (hash, plan) = write_object(ObjectKind::Blob, &content, false);
    assert!(plan.is_none());
    assert_eq!(hash.to_hex(), b"ce013625030ba8dba906f756967f9e9ca394464a".to_vec());
    // The same digest computed from scratch over the encoded form.
    let mut h = sha1::Sha1::new();
    h.update(b"blob 6\0hello\n");
    let expected: Vec<u8> = h.finalize().to_vec();
    assert_eq!(hash.bytes, expected);
}

#[test]
fn hash_depends_on_kind() {
    let content: Vec<u8> = b"abc".to_vec();
    let hb = hash_object(ObjectKind::Blob, &content);
    let ht = hash_object(ObjectKind::Tree, &content);
    assert_ne!(hb.to_hex(), ht.to_hex());
}

#[test]
fn size_mismatch_detected() {
    // Declared size 10, but only 3 payload bytes present.
    let data = zlib(b"blob 10\0abc");
    let obj = decode_object(&data).unwrap();
    assert_eq!(obj.header.payload_size, 10);
    assert_eq!(obj.payload, b"abc".to_vec());
    match obj.check_size() {
        Err(ObjectError::SizeMismatch { declared, actual }) => {
            assert_eq!(declared, 10);
            assert_eq!(actual, 3);
        }
        other => panic!("expected SizeMismatch, got {:?}", other),
    }
}

#[test]
fn overlong_stream_is_capped() {
    // Declared size 3, but the stream decompresses to more: the payload is
    // bounded to the declared size and the object still checks out.
    let data = zlib(b"blob 3\0abcdefgh");
    let obj = decode_object(&data).unwrap();
    assert_eq!(obj.payload, b"abc".to_vec());
    assert!(obj.check_size().is_ok());
}

#[test]
fn unknown_kind_rejected() {
    let data = zlib(b"widget 3\0abc");
    match decode_object(&data) {
        Err(ObjectError::UnknownKind { name }) => assert_eq!(name, b"widget".to_vec()),
        other => panic!("expected UnknownKind, got {:?}", other),
    }
}

#[test]
fn missing_object_is_not_found() {
    match read_object(None) {
        Err(ObjectError::NotFound) => {}
        other => panic!("expected NotFound, got {:?}", other),
    }
    // Distinguishable from a decode failure on present but corrupt bytes.
    let garbage: Vec<u8> = vec![1, 2, 3, 4];
    match read_object(Some(garbage)) {
        Err(ObjectError::NotFound) => panic!("corrupt bytes must not read as NotFound"),
        Ok(_) | Err(_) => {}
    }
}

#[test]
fn header_nul_must_appear_within_scan_bound() {
    // A 32-byte header ("blob ", 26 digits, NUL at index 31) is still found...
    let data = zlib(b"blob 00000000000000000000000003\0abc");
    let obj = decode_object(&data).unwrap();
    assert_eq!(obj.header.payload_size, 3);
    assert_eq!(obj.payload, b"abc".to_vec());
    // ...but one more digit pushes the NUL past the scan bound.
    let data = zlib(b"blob 000000000000000000000000003\0abc");
    assert!(matches!(
        decode_object(&data),
        Err(ObjectError::MalformedHeader { .. })
    ));
    // A stream with no NUL at all is malformed too.
    let data = zlib(b"blob 3");
    assert!(matches!(
        decode_object(&data),
        Err(ObjectError::MalformedHeader { .. })
    ));
}

#[test]
fn largest_declared_size_parses() {
    // "commit " plus twenty digits plus NUL: the longest well-formed header.
    let data = zlib(b"commit 18446744073709551615\0");
    let obj = decode_object(&data).unwrap();
    assert_eq!(obj.header.kind, ObjectKind::Commit);
    assert_eq!(obj.header.payload_size, u64::MAX);
    assert!(obj.payload.is_empty());
}

#[test]
fn blob_payload_dispatch() {
    let content: Vec<u8> = b"payload".to_vec();
    let obj = write_then_read(ObjectKind::Blob, &content);
    assert_eq!(obj.blob_payload().unwrap(), content);

    let tree_obj = write_then_read(ObjectKind::Tree, &content);
    match tree_obj.blob_payload() {
        Err(ObjectError::InvalidOperation { kind }) => assert_eq!(kind, ObjectKind::Tree),
        other => panic!("expected InvalidOperation, got {:?}", other),
    }
}

#[test]
fn path_for_shards_by_hash() {
    let content: Vec<u8> = b"hello\n".to_vec();
    let hash = hash_object(ObjectKind::Blob, &content);
    let path = path_for(&hash);
    assert_eq!(
        path,
        b"objects/ce/013625030ba8dba906f756967f9e9ca394464a".to_vec()
    );
}

#[test]
fn hex_rendering_round_trips() {
    let text: Vec<u8> = b"ce013625030ba8dba906f756967f9e9ca394464a".to_vec();
    let hash = ContentHash::from_hex(&text).unwrap();
    assert_eq!(hash.to_hex(), text);
    // Uppercase digits are read too, rendered back in lowercase.
    let upper: Vec<u8> = b"CE013625030BA8DBA906F756967F9E9CA394464A".to_vec();
    let hash2 = ContentHash::from_hex(&upper).unwrap();
    assert_eq!(hash2.to_hex(), text);
    // Wrong length or a non-hex character is rejected.
    assert!(ContentHash::from_hex(&b"ce0136".to_vec()).is_none());
    let bad: Vec<u8> = b"ze013625030ba8dba906f756967f9e9ca394464a".to_vec();
    assert!(ContentHash::from_hex(&bad).is_none());
}
