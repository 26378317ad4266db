//! The 20-byte content hash that identifies an object, and its canonical
//! 40-character lowercase hex rendering.
use vstd::prelude::*;
use crate::hex::{hex_of, hex_encode, hex_decode, is_hex_digit, hex_val, hex_digit, lemma_hex_digit_val};

verus! {

/// A 20-byte content hash. Canonically rendered as 40 lowercase hex
/// characters; also the object's storage identity.
#[derive(Debug)]
pub struct ContentHash {
    pub bytes: Vec<u8>,
}

impl View for ContentHash {
    type V = Seq<u8>;

    open spec fn view(&self) -> Seq<u8> {
        self.bytes@
    }
}

impl ContentHash {
    /// A hash is exactly 20 bytes.
    pub open spec fn wf(&self) -> bool {
        self@.len() == 20
    }

    /// Wraps raw digest bytes; `None` unless exactly 20 bytes were given.
    pub fn from_bytes(bytes: Vec<u8>) -> (r: Option<ContentHash>)
        ensures
            r is Some <==> bytes@.len() == 20,
            r matches Some(h) ==> h@ == bytes@ && h.wf(),
    {
        if bytes.len() == 20 {
            Some(ContentHash { bytes })
        } else {
            None
        }
    }

    /// Reads a 40-character hex rendering (either case). `None` exactly when
    /// the text is not 40 hex digits.
    pub fn from_hex(text: &Vec<u8>) -> (r: Option<ContentHash>)
        ensures
            r is Some <==> (text@.len() == 40 && forall|i: int|
                0 <= i < text@.len() ==> is_hex_digit(#[trigger] text@[i])),
            r matches Some(h) ==> h.wf() && forall|i: int|
                0 <= i < 20 ==> #[trigger] h@[i] as nat == hex_val(text@[2 * i]) * 16 + hex_val(
                    text@[2 * i + 1],
                ),
    {
        if text.len() != 40 {
            return None;
        }
        match hex_decode(text) {
            Some(bytes) => Some(ContentHash { bytes }),
            None => None,
        }
    }

    /// The canonical rendering: 40 lowercase hex characters.
    pub fn to_hex(&self) -> (r: Vec<u8>)
        ensures
            r@ == hex_of(self@),
            self.wf() ==> r@.len() == 40,
    {
        hex_encode(&self.bytes)
    }
}

/// Rendering a hash and reading the rendering back gives the hash again.
pub proof fn lemma_hash_hex_round_trip(h: Seq<u8>, i: int)
    requires
        0 <= i < h.len(),
    ensures
        is_hex_digit(hex_of(h)[2 * i]),
        is_hex_digit(hex_of(h)[2 * i + 1]),
        hex_val(hex_of(h)[2 * i]) * 16 + hex_val(hex_of(h)[2 * i + 1]) == h[i],
{
    let b = h[i];
    assert(hex_of(h)[2 * i] == hex_digit((b >> 4u8) as nat));
    assert(hex_of(h)[2 * i + 1] == hex_digit((b & 0xfu8) as nat));
    assert(b >> 4u8 < 16 && b & 0xfu8 < 16 && (b >> 4u8) * 16 + (b & 0xfu8) == b)
        by (bit_vector);
    lemma_hex_digit_val((b >> 4u8) as nat);
    lemma_hex_digit_val((b & 0xfu8) as nat);
}

} // verus!
