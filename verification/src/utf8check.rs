//! An executable UTF-8 validity check, verified against vstd's model of the
//! encoding: leading and continuation byte shapes, no overlong encodings, no
//! surrogates.
use vstd::prelude::*;
use vstd::utf8::{
    valid_utf8, valid_first_scalar, valid_leading_and_continuation_bytes_first_codepoint,
    decode_first_codepoint, length_of_first_codepoint, not_overlong_encoding, not_surrogate,
    partial_valid_utf8, partial_valid_utf8_extend, partial_valid_partial_invalid_utf8,
    is_leading_byte_width_1, is_leading_byte_width_2, is_leading_byte_width_3,
    is_leading_byte_width_4, is_continuation_byte, codepoint_width_2, codepoint_width_3,
    codepoint_width_4,
};

verus! {

/// A byte run that begins with an invalid first scalar is not valid UTF-8.
proof fn lemma_invalid_at(s: Seq<u8>, i: int)
    requires
        0 <= i < s.len(),
        partial_valid_utf8(s, i),
        !valid_first_scalar(s.subrange(i, s.len() as int)),
    ensures
        !valid_utf8(s),
{
    let rest = s.subrange(i, s.len() as int);
    assert(rest.len() > 0);
    assert(!valid_utf8(rest));
    partial_valid_partial_invalid_utf8(s, i);
}

/// Whether `bytes` is a valid UTF-8 encoding.
pub fn utf8_check(bytes: &Vec<u8>) -> (r: bool)
    ensures
        r == valid_utf8(bytes@),
{
    let n = bytes.len();
    let mut i: usize = 0;
    while i < n
        invariant
            0 <= i <= n,
            n == bytes@.len(),
            partial_valid_utf8(bytes@, i as int),
        decreases n - i,
    {
        let ghost rest = bytes@.subrange(i as int, n as int);
        let b0 = bytes[i];
        if b0 <= 0x7f {
            proof {
                assert(rest[0] == b0);
                assert(is_leading_byte_width_1(rest[0]));
                assert(valid_first_scalar(rest));
                partial_valid_utf8_extend(bytes@, i as int);
            }
            i += 1;
        } else if 0xc0 <= b0 && b0 <= 0xdf {
            if n - i < 2 || !is_continuation(bytes[i + 1]) {
                proof {
                    assert(rest[0] == b0);
                    assert(!valid_leading_and_continuation_bytes_first_codepoint(rest));
                    lemma_invalid_at(bytes@, i as int);
                }
                return false;
            }
            let b1 = bytes[i + 1];
            let cp = (((b0 & 0x1f) as u32) << 6u32) | ((b1 & 0x3f) as u32);
            proof {
                assert(rest[0] == b0 && rest[1] == b1);
                assert(cp == codepoint_width_2(b0, b1));
                assert(decode_first_codepoint(rest) == cp);
                assert(length_of_first_codepoint(rest) == 2);
            }
            if cp < 0x80 {
                proof {
                    assert(!not_overlong_encoding(cp, 2));
                    lemma_invalid_at(bytes@, i as int);
                }
                return false;
            }
            proof {
                assert(cp < 0xd800) by (bit_vector)
                    requires
                        cp == (((b0 & 0x1f) as u32) << 6u32) | ((b1 & 0x3f) as u32),
                ;
                assert(valid_first_scalar(rest));
                partial_valid_utf8_extend(bytes@, i as int);
            }
            i += 2;
        } else if 0xe0 <= b0 && b0 <= 0xef {
            if n - i < 3 || !is_continuation(bytes[i + 1]) || !is_continuation(bytes[i + 2]) {
                proof {
                    assert(rest[0] == b0);
                    assert(!valid_leading_and_continuation_bytes_first_codepoint(rest));
                    lemma_invalid_at(bytes@, i as int);
                }
                return false;
            }
            let b1 = bytes[i + 1];
            let b2 = bytes[i + 2];
            let cp = (((b0 & 0x0f) as u32) << 12u32) | (((b1 & 0x3f) as u32) << 6u32) | ((b2
                & 0x3f) as u32);
            proof {
                assert(rest[0] == b0 && rest[1] == b1 && rest[2] == b2);
                assert(cp == codepoint_width_3(b0, b1, b2));
                assert(decode_first_codepoint(rest) == cp);
                assert(length_of_first_codepoint(rest) == 3);
            }
            if cp < 0x800 || (0xd800 <= cp && cp <= 0xdfff) {
                proof {
                    assert(!(not_overlong_encoding(cp, 3) && not_surrogate(cp)));
                    lemma_invalid_at(bytes@, i as int);
                }
                return false;
            }
            proof {
                assert(valid_first_scalar(rest));
                partial_valid_utf8_extend(bytes@, i as int);
            }
            i += 3;
        } else if 0xf0 <= b0 && b0 <= 0xf7 {
            if n - i < 4 || !is_continuation(bytes[i + 1]) || !is_continuation(bytes[i + 2])
                || !is_continuation(bytes[i + 3]) {
                proof {
                    assert(rest[0] == b0);
                    assert(!valid_leading_and_continuation_bytes_first_codepoint(rest));
                    lemma_invalid_at(bytes@, i as int);
                }
                return false;
            }
            let b1 = bytes[i + 1];
            let b2 = bytes[i + 2];
            let b3 = bytes[i + 3];
            let cp = (((b0 & 0x07) as u32) << 18u32) | (((b1 & 0x3f) as u32) << 12u32) | (((b2
                & 0x3f) as u32) << 6u32) | ((b3 & 0x3f) as u32);
            proof {
                assert(rest[0] == b0 && rest[1] == b1 && rest[2] == b2 && rest[3] == b3);
                assert(cp == codepoint_width_4(b0, b1, b2, b3));
                assert(decode_first_codepoint(rest) == cp);
                assert(length_of_first_codepoint(rest) == 4);
            }
            if cp < 0x10000 || cp > 0x10ffff {
                proof {
                    assert(!not_overlong_encoding(cp, 4));
                    lemma_invalid_at(bytes@, i as int);
                }
                return false;
            }
            proof {
                assert(not_surrogate(cp));
                assert(valid_first_scalar(rest));
                partial_valid_utf8_extend(bytes@, i as int);
            }
            i += 4;
        } else {
            // A stray continuation byte (0x80..=0xbf) or a byte no encoding
            // uses (0xf8..=0xff).
            proof {
                assert(rest[0] == b0);
                assert(!valid_leading_and_continuation_bytes_first_codepoint(rest));
                lemma_invalid_at(bytes@, i as int);
            }
            return false;
        }
    }
    proof {
        assert(bytes@.subrange(0, n as int) =~= bytes@);
    }
    true
}

/// Whether a byte has the continuation shape `10xxxxxx`.
fn is_continuation(b: u8) -> (r: bool)
    ensures
        r == is_continuation_byte(b),
{
    0x80 <= b && b <= 0xbf
}

} // verus!
