//! The object writer: encodes `"<kind> <size>\0" + content`, hashes the
//! encoded form, and plans the compressed bytes and the sharded path that a
//! persisting caller writes to disk.
use vstd::prelude::*;
use crate::compress::{deflation, inflation, zlib_compress};
use crate::digest::{sha1_of, sha1_digest};
use crate::hash::ContentHash;
use crate::header::{encode_header, encode_header_bytes};
use crate::kind::ObjectKind;
use crate::locator::{shard_dir_of, object_rel_path, shard_dir_for, path_for};

verus! {

/// The logical encoding of an object: header, then payload.
pub open spec fn encode_object(k: ObjectKind, content: Seq<u8>) -> Seq<u8> {
    encode_header(k, content.len()) + content
}

/// The identity of an object: the digest of its encoded form, header
/// included, so that equal payloads of different kinds hash differently.
pub open spec fn object_hash(k: ObjectKind, content: Seq<u8>) -> Seq<u8> {
    sha1_of(encode_object(k, content))
}

/// The bytes a persisting write stores: the compressed encoded form.
pub open spec fn planned_data(k: ObjectKind, content: Seq<u8>) -> Seq<u8> {
    deflation(encode_object(k, content))
}

/// A persisting write, planned but not yet performed: the shard directory to
/// create, the destination path, and the compressed bytes to store there.
#[derive(Debug)]
pub struct PlannedWrite {
    pub dir: Vec<u8>,
    pub path: Vec<u8>,
    pub data: Vec<u8>,
}

/// Encodes an object as `"<kind> <size>\0" + content`.
pub fn encode_object_bytes(kind: ObjectKind, content: &Vec<u8>) -> (r: Vec<u8>)
    requires
        content@.len() <= u64::MAX,
    ensures
        r@ == encode_object(kind, content@),
{
    let len64 = content.len() as u64;
    let mut r = encode_header_bytes(kind, len64);
    let mut i: usize = 0;
    while i < content.len()
        invariant
            0 <= i <= content@.len(),
            r@ == encode_header(kind, content@.len()) + content@.take(i as int),
        decreases content@.len() - i,
    {
        r.push(content[i]);
        proof {
            assert(r@ =~= encode_header(kind, content@.len()) + content@.take(i + 1));
        }
        i += 1;
    }
    proof {
        assert(content@.take(content@.len() as int) =~= content@);
    }
    r
}

/// The content hash of an object: the digest of its encoded form.
pub fn hash_object(kind: ObjectKind, content: &Vec<u8>) -> (r: ContentHash)
    requires
        content@.len() <= u64::MAX,
    ensures
        r@ == object_hash(kind, content@),
        r.wf(),
{
    let enc = encode_object_bytes(kind, content);
    let digest = sha1_digest(&enc);
    ContentHash { bytes: digest }
}

/// Writes an object: returns its content hash and, when `persist` is set, the
/// planned storage write. With `persist` false nothing is planned (a
/// hash-only dry run). The planned bytes decompress back to the encoded form,
/// so a stored object can always be read again.
pub fn write_object(kind: ObjectKind, content: &Vec<u8>, persist: bool) -> (r: (
    ContentHash,
    Option<PlannedWrite>,
))
    requires
        content@.len() <= u64::MAX,
    ensures
        r.0@ == object_hash(kind, content@),
        r.0.wf(),
        !persist ==> r.1 is None,
        persist ==> (r.1 matches Some(p) && p.dir@ == shard_dir_of(object_hash(kind, content@))
            && p.path@ == object_rel_path(object_hash(kind, content@)) && p.data@ == planned_data(
            kind,
            content@,
        ) && inflation(p.data@) == Some(encode_object(kind, content@))),
{
    let enc = encode_object_bytes(kind, content);
    let digest = sha1_digest(&enc);
    let h = ContentHash { bytes: digest };
    if !persist {
        return (h, None);
    }
    let data = zlib_compress(&enc);
    let dir = shard_dir_for(&h);
    let path = path_for(&h);
    (h, Some(PlannedWrite { dir, path, data }))
}

/// Idempotence: two writes of the same kind and content agree. The hash and
/// the stored bytes of a write are functions of the kind and content alone,
/// so writing the same object twice plans the identical path and bytes.
pub proof fn lemma_write_idempotent(
    k: ObjectKind,
    content: Seq<u8>,
    h1: Seq<u8>,
    h2: Seq<u8>,
    d1: Seq<u8>,
    d2: Seq<u8>,
)
    requires
        h1 == object_hash(k, content),
        h2 == object_hash(k, content),
        d1 == planned_data(k, content),
        d2 == planned_data(k, content),
    ensures
        h1 == h2,
        d1 == d2,
        object_rel_path(h1) == object_rel_path(h2),
{
}

} // verus!
