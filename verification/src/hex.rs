//! Lowercase hexadecimal rendering of hash bytes, and the reverse reading.
use vstd::prelude::*;

verus! {

/// The lowercase hex digit for a nibble value.
pub open spec fn hex_digit(n: nat) -> u8
    recommends
        n < 16,
{
    if n < 10 {
        (48 + n) as u8
    } else {
        (87 + n) as u8
    }
}

/// The lowercase hex rendering of a byte sequence: two digits per byte,
/// high nibble first.
pub open spec fn hex_of(s: Seq<u8>) -> Seq<u8> {
    Seq::new(
        2 * s.len(),
        |i: int|
            if i % 2 == 0 {
                hex_digit((s[i / 2] >> 4u8) as nat)
            } else {
                hex_digit((s[i / 2] & 0xfu8) as nat)
            },
    )
}

/// Whether a byte is an ASCII hex digit (either case).
pub open spec fn is_hex_digit(c: u8) -> bool {
    (48 <= c <= 57) || (97 <= c <= 102) || (65 <= c <= 70)
}

/// The nibble value of a hex digit.
pub open spec fn hex_val(c: u8) -> nat
    recommends
        is_hex_digit(c),
{
    if 48 <= c <= 57 {
        (c - 48) as nat
    } else if 97 <= c <= 102 {
        (c - 87) as nat
    } else if 65 <= c <= 70 {
        (c - 55) as nat
    } else {
        0
    }
}

/// Rendering a nibble and reading it back is the identity, and the rendered
/// digit is lowercase.
pub proof fn lemma_hex_digit_val(n: nat)
    requires
        n < 16,
    ensures
        is_hex_digit(hex_digit(n)),
        hex_val(hex_digit(n)) == n,
        !(65 <= hex_digit(n) <= 70),
{
}

/// Renders bytes as lowercase hex, two digits per byte.
pub fn hex_encode(bytes: &Vec<u8>) -> (r: Vec<u8>)
    ensures
        r@ == hex_of(bytes@),
{
    let mut r: Vec<u8> = Vec::new();
    let mut i: usize = 0;
    while i < bytes.len()
        invariant
            0 <= i <= bytes@.len(),
            r@ == hex_of(bytes@).take(2 * i),
        decreases bytes@.len() - i,
    {
        let b = bytes[i];
        let hi = b >> 4;
        let lo = b & 0xf;
        proof {
            assert(hi < 16 && lo < 16) by (bit_vector)
                requires
                    hi == b >> 4u8 && lo == b & 0xfu8,
            ;
        }
        let dh = if hi < 10 {
            48 + hi
        } else {
            87 + hi
        };
        let dl = if lo < 10 {
            48 + lo
        } else {
            87 + lo
        };
        r.push(dh);
        r.push(dl);
        proof {
            assert(r@ =~= hex_of(bytes@).take(2 * (i + 1)));
        }
        i += 1;
    }
    proof {
        assert(hex_of(bytes@).take(2 * bytes@.len() as int) =~= hex_of(bytes@));
    }
    r
}

/// Reads a hex digit string back into bytes. Returns `Some` exactly when the
/// string has even length and holds hex digits only (either case); the
/// resulting bytes pair the nibble values.
pub fn hex_decode(s: &Vec<u8>) -> (r: Option<Vec<u8>>)
    ensures
        r is Some <==> (s@.len() % 2 == 0 && forall|i: int|
            0 <= i < s@.len() ==> is_hex_digit(#[trigger] s@[i])),
        r matches Some(v) ==> v@.len() * 2 == s@.len() && forall|i: int|
            0 <= i < v@.len() ==> #[trigger] v@[i] as nat == hex_val(s@[2 * i]) * 16 + hex_val(
                s@[2 * i + 1],
            ),
{
    if s.len() % 2 != 0 {
        return None;
    }
    let mut v: Vec<u8> = Vec::new();
    let mut i: usize = 0;
    while i < s.len()
        invariant
            0 <= i <= s@.len(),
            s@.len() % 2 == 0,
            i % 2 == 0,
            v@.len() * 2 == i,
            forall|j: int| 0 <= j < i ==> is_hex_digit(#[trigger] s@[j]),
            forall|j: int|
                0 <= j < v@.len() ==> #[trigger] v@[j] as nat == hex_val(s@[2 * j]) * 16 + hex_val(
                    s@[2 * j + 1],
                ),
        decreases s@.len() - i,
    {
        let hi = match hex_digit_value(s[i]) {
            Some(x) => x,
            None => {
                return None;
            },
        };
        let lo = match hex_digit_value(s[i + 1]) {
            Some(x) => x,
            None => {
                return None;
            },
        };
        v.push(hi * 16 + lo);
        i += 2;
    }
    Some(v)
}

/// The nibble value of one byte, when it is a hex digit.
fn hex_digit_value(c: u8) -> (r: Option<u8>)
    ensures
        r is Some <==> is_hex_digit(c),
        r matches Some(x) ==> x as nat == hex_val(c) && x < 16,
{
    if 48 <= c && c <= 57 {
        Some(c - 48)
    } else if 97 <= c && c <= 102 {
        Some(c - 87)
    } else if 65 <= c && c <= 70 {
        Some(c - 55)
    } else {
        None
    }
}

} // verus!
