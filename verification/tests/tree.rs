use objstore::error::ObjectError;
use objstore::header::ObjectHeader;
use objstore::kind::ObjectKind;
use objstore::reader::StoredObject;
use objstore::tree::{decode_tree, format_listing, TreeReader};

fn tree_object(payload: Vec<u8>) -> StoredObject {
    let size = payload.len() as u64;
    StoredObject {
        header: ObjectHeader { kind: ObjectKind::Tree, payload_size: size },
        payload,
    }
}

fn two_entry_payload() -> Vec<u8> {
    let mut payload: Vec<u8> = Vec::new();
    payload.extend_from_slice(b"40000 dir\0");
    payload.extend_from_slice(&[0u8; 20]);
    payload.extend_from_slice(b"100644 file.txt\0");
    payload.extend_from_slice(&[0xffu8; 20]);
    payload
}

#[test]
fn tree_decode_boundary() {
    let entries = decode_tree(tree_object(two_entry_payload())).unwrap();
    assert_eq!(entries.len(), 2);
    assert_eq!(entries[0].entry_kind, ObjectKind::Tree);
    assert_eq!(entries[0].mode, b"40000".to_vec());
    assert_eq!(entries[0].name, b"dir".to_vec());
    assert_eq!(
        entries[0].hash.to_hex(),
        b"0000000000000000000000000000000000000000".to_vec()
    );
    assert_eq!(entries[1].entry_kind, ObjectKind::Blob);
    assert_eq!(entries[1].mode, b"100644".to_vec());
    assert_eq!(entries[1].name, b"file.txt".to_vec());
    assert_eq!(
        entries[1].hash.to_hex(),
        b"ffffffffffffffffffffffffffffffffffffffff".to_vec()
    );
}

#[test]
fn empty_tree_decodes_to_no_entries() {
    let entries = decode_tree(tree_object(Vec::new())).unwrap();
    assert!(entries.is_empty());
}

#[test]
fn lazy_reader_walks_entries_in_order() {
    let mut tr = TreeReader::new(tree_object(two_entry_payload())).unwrap();
    let first = tr.next_entry().unwrap().unwrap();
    assert_eq!(first.name, b"dir".to_vec());
    let second = tr.next_entry().unwrap().unwrap();
    assert_eq!(second.name, b"file.txt".to_vec());
    assert!(tr.next_entry().unwrap().is_none());
}

#[test]
fn truncated_final_entry_is_malformed() {
    // The second entry's hash is cut short.
    let mut payload = two_entry_payload();
    payload.truncate(payload.len() - 5);
    assert!(matches!(
        decode_tree(tree_object(payload)),
        Err(ObjectError::MalformedTree)
    ));
    // A mode token with no space at all.
    assert!(matches!(
        decode_tree(tree_object(b"40000".to_vec())),
        Err(ObjectError::MalformedTree)
    ));
}

#[test]
fn short_payload_is_malformed() {
    // The payload is shorter than the size the header declares.
    let mut obj = tree_object(two_entry_payload());
    obj.header.payload_size += 1;
    assert!(matches!(decode_tree(obj), Err(ObjectError::MalformedTree)));
}

#[test]
fn non_tree_is_invalid_operation() {
    let mut obj = tree_object(Vec::new());
    obj.header.kind = ObjectKind::Blob;
    match decode_tree(obj) {
        Err(ObjectError::InvalidOperation { kind }) => assert_eq!(kind, ObjectKind::Blob),
        other => panic!("expected InvalidOperation, got {:?}", other),
    }
}

#[test]
fn listing_formats() {
    let entries = decode_tree(tree_object(two_entry_payload())).unwrap();
    let names = format_listing(&entries, true);
    assert_eq!(names, b"dir\nfile.txt\n".to_vec());
    let long = format_listing(&entries, false);
    let expected: Vec<u8> = [
        b"40000\ttree\t0000000000000000000000000000000000000000\tdir\n".as_slice(),
        b"100644\tblob\tffffffffffffffffffffffffffffffffffffffff\tfile.txt\n".as_slice(),
    ]
    .concat();
    assert_eq!(long, expected);
}

#[test]
fn empty_mode_and_name_tokens_decode() {
    // The grammar puts no lower bound on the mode or name tokens: an entry
    // of a single space, a NUL and 20 hash bytes decodes with empty tokens.
    let mut payload: Vec<u8> = Vec::new();
    payload.push(b' ');
    payload.push(0);
    payload.extend_from_slice(&[0xabu8; 20]);
    let entries = decode_tree(tree_object(payload)).unwrap();
    assert_eq!(entries.len(), 1);
    assert!(entries[0].mode.is_empty());
    assert!(entries[0].name.is_empty());
    assert_eq!(entries[0].entry_kind, ObjectKind::Blob);
    assert_eq!(
        entries[0].hash.to_hex(),
        b"abababababababababababababababababababab".to_vec()
    );
}

#[test]
fn multi_byte_utf8_name_decodes() {
    let mut payload: Vec<u8> = Vec::new();
    payload.extend_from_slice(b"100644 ");
    payload.extend_from_slice("héllo🙂.txt".as_bytes());
    payload.push(0);
    payload.extend_from_slice(&[0u8; 20]);
    let entries = decode_tree(tree_object(payload)).unwrap();
    assert_eq!(entries.len(), 1);
    assert_eq!(entries[0].name, "héllo🙂.txt".as_bytes().to_vec());
}

#[test]
fn non_utf8_name_is_malformed() {
    let mut payload: Vec<u8> = Vec::new();
    payload.extend_from_slice(b"100644 ");
    payload.push(0xff);
    payload.push(0);
    payload.extend_from_slice(&[0u8; 20]);
    assert!(matches!(
        decode_tree(tree_object(payload)),
        Err(ObjectError::MalformedTree)
    ));
}
