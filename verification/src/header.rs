//! The object header grammar: `"<kind> <size>\0"`, encoded and parsed with an
//! exact contract for every outcome.
use vstd::prelude::*;
use vstd::utf8::valid_utf8;
use crate::bytes::{find_byte, find_byte_from, copy_range, bytes_eq};
use crate::digits::{dec_rep, dec_val, is_dec_digits, u64_to_dec, parse_dec_u64};
use crate::error::ObjectError;
use crate::kind::{ObjectKind, kind_name, kind_of_name};
use crate::utf8check::utf8_check;

verus! {

/// The parsed header of a stored object: its kind and the number of payload
/// bytes that the decompressed stream declares after the NUL terminator.
#[derive(Clone, Copy, Debug, PartialEq, Eq, Structural)]
pub struct ObjectHeader {
    pub kind: ObjectKind,
    pub payload_size: u64,
}

/// The encoded header for a kind and payload size: name, space, decimal size,
/// NUL.
pub open spec fn encode_header(k: ObjectKind, size: nat) -> Seq<u8> {
    kind_name(k) + seq![32u8] + dec_rep(size) + seq![0u8]
}

/// The index of the separating space in a header region (the bytes before the
/// NUL), when present.
pub open spec fn space_idx(region: Seq<u8>) -> int
    recommends
        find_byte(region, 32) is Some,
{
    find_byte(region, 32)->Some_0
}

/// The kind name in a header region: the bytes before the first space.
pub open spec fn kind_token(region: Seq<u8>) -> Seq<u8> {
    region.take(space_idx(region))
}

/// The size text in a header region: the bytes after the first space.
pub open spec fn size_token(region: Seq<u8>) -> Seq<u8> {
    region.skip(space_idx(region) + 1)
}

/// Whether the size text is a decimal number that fits a `u64`.
pub open spec fn size_token_ok(region: Seq<u8>) -> bool {
    &&& size_token(region).len() > 0
    &&& is_dec_digits(size_token(region))
    &&& dec_val(size_token(region)) <= u64::MAX
}

/// Whether a header region is fully well formed: UTF-8 text, a space, a known
/// kind name, and a valid size.
pub open spec fn region_ok(region: Seq<u8>) -> bool {
    &&& valid_utf8(region)
    &&& find_byte(region, 32) is Some
    &&& kind_of_name(kind_token(region)) is Some
    &&& size_token_ok(region)
}

/// The header a well-formed region denotes.
pub open spec fn region_header(region: Seq<u8>) -> ObjectHeader
    recommends
        region_ok(region),
{
    ObjectHeader {
        kind: kind_of_name(kind_token(region))->Some_0,
        payload_size: dec_val(size_token(region)) as u64,
    }
}

/// Encodes a header as `"<kind> <size>\0"`.
pub fn encode_header_bytes(kind: ObjectKind, size: u64) -> (r: Vec<u8>)
    ensures
        r@ == encode_header(kind, size as nat),
{
    let mut r = kind.name_bytes();
    r.push(32);
    let mut digits = u64_to_dec(size);
    r.append(&mut digits);
    r.push(0);
    proof {
        assert(r@ =~= encode_header(kind, size as nat));
    }
    r
}

/// Decides which kind a wire name denotes, if any.
pub fn kind_from_name(name: &Vec<u8>) -> (r: Option<ObjectKind>)
    ensures
        r == kind_of_name(name@),
{
    let blob = ObjectKind::Blob.name_bytes();
    if bytes_eq(name, &blob) {
        return Some(ObjectKind::Blob);
    }
    let tree = ObjectKind::Tree.name_bytes();
    if bytes_eq(name, &tree) {
        return Some(ObjectKind::Tree);
    }
    let commit = ObjectKind::Commit.name_bytes();
    if bytes_eq(name, &commit) {
        return Some(ObjectKind::Commit);
    }
    None
}

/// Parses a header region (the decompressed bytes before the terminating
/// NUL). Fails with `MalformedHeader` when the region is not UTF-8, has no
/// space, or has a non-numeric or overflowing size; with `UnknownKind` when
/// the text before the space is not a known kind name.
pub fn parse_header(region: &Vec<u8>) -> (r: Result<ObjectHeader, ObjectError>)
    ensures
        r is Ok <==> region_ok(region@),
        r matches Ok(h) ==> h == region_header(region@),
        !valid_utf8(region@) ==> (r matches Err(ObjectError::MalformedHeader { bytes })
            && bytes@ == region@),
        valid_utf8(region@) && find_byte(region@, 32) is None ==> (r matches Err(
            ObjectError::MalformedHeader { bytes },
        ) && bytes@ == region@),
        valid_utf8(region@) && find_byte(region@, 32) is Some && kind_of_name(
            kind_token(region@),
        ) is None ==> (r matches Err(ObjectError::UnknownKind { name }) && name@ == kind_token(
            region@,
        )),
        valid_utf8(region@) && find_byte(region@, 32) is Some && kind_of_name(
            kind_token(region@),
        ) is Some && !size_token_ok(region@) ==> (r matches Err(
            ObjectError::MalformedHeader { bytes },
        ) && bytes@ == region@),
{
    if !utf8_check(region) {
        return Err(ObjectError::MalformedHeader { bytes: region.clone() });
    }
    let sp = match find_byte_from(region, 0, 32) {
        Some(i) => i,
        None => {
            proof {
                assert(region@.skip(0) =~= region@);
            }
            return Err(ObjectError::MalformedHeader { bytes: region.clone() });
        },
    };
    proof {
        assert(region@.skip(0) =~= region@);
    }
    let name = copy_range(region, 0, sp);
    proof {
        assert(name@ =~= kind_token(region@));
    }
    let kind = match kind_from_name(&name) {
        Some(k) => k,
        None => {
            return Err(ObjectError::UnknownKind { name });
        },
    };
    let digits = copy_range(region, sp + 1, region.len());
    proof {
        assert(digits@ =~= size_token(region@));
    }
    let size = match parse_dec_u64(&digits) {
        Some(v) => v,
        None => {
            return Err(ObjectError::MalformedHeader { bytes: region.clone() });
        },
    };
    Ok(ObjectHeader { kind, payload_size: size })
}

} // verus!
