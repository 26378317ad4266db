//! The store's round-trip law: decoding what the writer encodes gives back
//! exactly the kind, size and payload that were written.
use vstd::prelude::*;
use vstd::math::min;
use vstd::utf8::{valid_utf8, partial_valid_utf8, partial_valid_utf8_extend_ascii_block};
use crate::bytes::lemma_find_byte_from_witness;
use crate::digits::{
    dec_rep, dec_val, is_dec_digits, lemma_dec_rep_digits, lemma_dec_rep_val,
    lemma_dec_rep_len_u64,
};
use crate::header::{
    ObjectHeader, kind_token, size_token, size_token_ok, region_ok, region_header,
};
use crate::kind::{ObjectKind, kind_name, kind_of_name, lemma_kind_name_bytes,
    lemma_kind_name_round_trip};
use crate::reader::{
    StoredObject, header_prefix, header_nul_idx, stream_region, stream_header_ok, stream_header,
    stream_payload, fetch_cap, decode_object,
};
use crate::writer::{encode_object, write_object};

verus! {

/// Round trip, stated of the decompressed stream: the encoded form of any
/// kind and content opens with a well-formed header that declares that kind
/// and the content's length, and its payload is the content itself. Together
/// with the writer's and reader's contracts this pins
/// `read(write(k, content))` down to `(k, content)`.
pub proof fn lemma_decode_of_encode(k: ObjectKind, content: Seq<u8>)
    requires
        content.len() + 32 <= usize::MAX,
    ensures
        stream_header_ok(encode_object(k, content)),
        stream_header(encode_object(k, content)) == (ObjectHeader {
            kind: k,
            payload_size: content.len() as u64,
        }),
        stream_payload(encode_object(k, content)) == content,
{
    let name = kind_name(k);
    let digits = dec_rep(content.len());
    let full = encode_object(k, content);
    lemma_kind_name_bytes(k);
    lemma_kind_name_round_trip(k);
    lemma_dec_rep_digits(content.len());
    lemma_dec_rep_val(content.len());
    lemma_dec_rep_len_u64(content.len());
    let nl = name.len() as int;
    let dl = digits.len() as int;
    let hl = nl + 1 + dl + 1;
    assert(full =~= name + seq![32u8] + digits + seq![0u8] + content);
    assert(full.len() == hl + content.len());
    assert(hl <= 28);

    // Byte layout of the header.
    assert forall|j: int| 0 <= j < hl - 1 implies full[j] != 0 by {
        if j < nl {
            assert(full[j] == name[j]);
        } else if j == nl {
            assert(full[j] == 32);
        } else {
            assert(full[j] == digits[j - nl - 1]);
            assert(is_dec_digits(digits));
        }
    }
    assert(full[hl - 1] == 0);

    // The NUL is found at index hl - 1 of the scanned prefix.
    let m = min(32int, full.len() as int);
    let prefix = header_prefix(full);
    assert(hl <= m);
    assert(prefix[hl - 1] == 0);
    assert forall|j: int| 0 <= j < hl - 1 implies prefix[j] != 0 by {
        assert(prefix[j] == full[j]);
    }
    lemma_find_byte_from_witness(prefix, 0, hl - 1);
    assert(header_nul_idx(full) == Some(hl - 1));

    // The region before the NUL is the name, a space, and the digits.
    let region = stream_region(full);
    assert(region =~= name + seq![32u8] + digits);

    // The region is ASCII, hence valid UTF-8.
    assert(region.subrange(0, 0) =~= Seq::<u8>::empty());
    assert(valid_utf8(Seq::<u8>::empty()));
    assert(partial_valid_utf8(region, 0));
    assert forall|j: int| 0 <= j < region.len() implies region[j] <= 0x7f by {
        if j < nl {
            assert(region[j] == name[j]);
        } else if j == nl {
        } else {
            assert(region[j] == digits[j - nl - 1]);
            assert(is_dec_digits(digits));
        }
    }
    partial_valid_utf8_extend_ascii_block(region, 0, region.len() as int);
    assert(region.subrange(0, region.len() as int) =~= region);
    assert(valid_utf8(region));

    // The first space separates the name from the digits.
    assert(region[nl] == 32);
    assert forall|j: int| 0 <= j < nl implies region[j] != 32 by {
        assert(region[j] == name[j]);
    }
    lemma_find_byte_from_witness(region, 32, nl);
    assert(kind_token(region) =~= name);
    assert(kind_of_name(kind_token(region)) == Some(k));
    assert(size_token(region) =~= digits);
    assert(dec_val(size_token(region)) == content.len());
    assert(size_token_ok(region));
    assert(region_ok(region));
    assert(stream_header_ok(full));
    assert(region_header(region) == ObjectHeader { kind: k, payload_size: content.len() as u64 });

    // The payload is the content: the fetch cap covers the whole stream.
    let size = content.len() as int;
    assert(fetch_cap(hl, size) == hl + size);
    let fetched = min(full.len() as int, fetch_cap(hl, size));
    assert(fetched == full.len());
    assert(stream_payload(full) =~= content);
}

/// The round trip performed: writing an object and decoding the planned bytes
/// yields the same kind, the content's exact length, and the content itself.
pub fn write_then_read(kind: ObjectKind, content: &Vec<u8>) -> (r: StoredObject)
    requires
        content@.len() + 32 <= usize::MAX,
    ensures
        r.header.kind == kind,
        r.header.payload_size as nat == content@.len(),
        r.payload@ == content@,
{
    let (_hash, plan) = write_object(kind, content, true);
    let plan = match plan {
        Some(p) => p,
        None => vstd::pervasive::unreached(),
    };
    let decoded = decode_object(&plan.data);
    proof {
        lemma_decode_of_encode(kind, content@);
    }
    match decoded {
        Ok(o) => o,
        Err(_) => vstd::pervasive::unreached(),
    }
}

} // verus!
