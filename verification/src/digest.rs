//! The content digest, named abstractly and computed by an outside crate.
use vstd::prelude::*;
use sha1::Digest;

verus! {

/// The 20-byte digest of a byte sequence. Its value is fixed by the digest
/// algorithm alone; this crate only names it.
pub uninterp spec fn sha1_of(data: Seq<u8>) -> Seq<u8>;

/// Relies on the `sha1` crate's `Sha1`: the digest is a function of the
/// input bytes alone and is 20 bytes long.
#[verifier::external_body]
pub(crate) fn sha1_digest(data: &Vec<u8>) -> (r: Vec<u8>)
    ensures
        r@ == sha1_of(data@),
        r@.len() == 20,
{
    let mut h = sha1::Sha1::new();
    h.update(data.as_slice());
    h.finalize().to_vec()
}

} // verus!
