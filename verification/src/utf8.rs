//! Decoding of single UTF-8 scalars with replacement of ill-formed input.
//!
//! An ill-formed sequence is replaced by U+FFFD and its maximal well-formed
//! prefix is consumed (at least one byte), as the Unicode standard recommends.

use vstd::prelude::*;

verus! {

pub const REPLACEMENT: u32 = 0xFFFD;

/// Number of bytes the lead byte announces; 0 if it can't start a scalar.
pub open spec fn lead_len(b0: u8) -> int {
    if b0 < 0x80 {
        1
    } else if 0xC2 <= b0 <= 0xDF {
        2
    } else if 0xE0 <= b0 <= 0xEF {
        3
    } else if 0xF0 <= b0 <= 0xF4 {
        4
    } else {
        0
    }
}

/// Lowest allowed value of the second byte, given the lead byte.
pub open spec fn second_lo(b0: u8) -> u8 {
    if b0 == 0xE0 {
        0xA0
    } else if b0 == 0xF0 {
        0x90
    } else {
        0x80
    }
}

/// Highest allowed value of the second byte, given the lead byte.
pub open spec fn second_hi(b0: u8) -> u8 {
    if b0 == 0xED {
        0x9F
    } else if b0 == 0xF4 {
        0x8F
    } else {
        0xBF
    }
}

pub open spec fn is_cont(b: u8) -> bool {
    0x80 <= b <= 0xBF
}

/// Whether the byte at `bytes[off + k]` (k >= 1) is a valid `k`-th byte of the
/// sequence led by `bytes[off]`.
pub open spec fn trail_ok(bytes: Seq<u8>, off: int, k: int) -> bool {
    &&& off + k < bytes.len()
    &&& if k == 1 {
        second_lo(bytes[off]) <= bytes[off + 1] <= second_hi(bytes[off])
    } else {
        is_cont(bytes[off + k])
    }
}

/// The scalar value of the well-formed sequence of length `n` at `off`.
pub open spec fn scalar_value(bytes: Seq<u8>, off: int, n: int) -> int {
    if n == 2 {
        (bytes[off] - 0xC0) * 64 + (bytes[off + 1] - 0x80)
    } else if n == 3 {
        (bytes[off] - 0xE0) * 4096 + (bytes[off + 1] - 0x80) * 64 + (bytes[off + 2] - 0x80)
    } else {
        (bytes[off] - 0xF0) * 262144 + (bytes[off + 1] - 0x80) * 4096 + (bytes[off + 2] - 0x80)
            * 64 + (bytes[off + 3] - 0x80)
    }
}

/// Decodes the scalar at `off` (which must be `< bytes.len()`): the scalar value and the
/// offset right after what was consumed.
pub open spec fn spec_decode(bytes: Seq<u8>, off: int) -> (u32, int) {
    let b0 = bytes[off];
    let n = lead_len(b0);
    if n == 1 {
        (b0 as u32, off + 1)
    } else if n == 0 {
        (REPLACEMENT, off + 1)
    } else if !trail_ok(bytes, off, 1) {
        (REPLACEMENT, off + 1)
    } else if n == 2 {
        (scalar_value(bytes, off, 2) as u32, off + 2)
    } else if !trail_ok(bytes, off, 2) {
        (REPLACEMENT, off + 2)
    } else if n == 3 {
        (scalar_value(bytes, off, 3) as u32, off + 3)
    } else if !trail_ok(bytes, off, 3) {
        (REPLACEMENT, off + 3)
    } else {
        (scalar_value(bytes, off, 4) as u32, off + 4)
    }
}

pub open spec fn is_scalar_value(v: u32) -> bool {
    v <= 0x10FFFF && !(0xD800 <= v <= 0xDFFF)
}

/// `char::from_u32`: the `char` with the given code point, or `None` where the
/// value is a surrogate or above U+10FFFF.
#[verifier::external_body]
fn char_from_u32(v: u32) -> (c: Option<char>)
    ensures
        c is Some <==> is_scalar_value(v),
        c matches Some(ch) ==> ch as u32 == v && ch == v as char,
{
    char::from_u32(v)
}

pub proof fn lemma_decode_is_scalar(bytes: Seq<u8>, off: int)
    requires
        0 <= off < bytes.len(),
    ensures
        is_scalar_value(spec_decode(bytes, off).0),
        off < spec_decode(bytes, off).1 <= bytes.len(),
{
}

/// Decodes the next scalar at `off`; returns it and the offset after it.
pub fn decode_at(bytes: &[u8], off: usize) -> (r: (char, usize))
    requires
        off < bytes@.len(),
    ensures
        r.0 as u32 == spec_decode(bytes@, off as int).0,
        r.0 == spec_decode(bytes@, off as int).0 as char,
        r.1 == spec_decode(bytes@, off as int).1,
        off < r.1 <= bytes@.len(),
{
    proof {
        lemma_decode_is_scalar(bytes@, off as int);
    }
    let len = bytes.len();
    let b0 = bytes[off];
    let (v, next): (u32, usize) = if b0 < 0x80 {
        (b0 as u32, off + 1)
    } else {
        let n: usize = if 0xC2 <= b0 && b0 <= 0xDF {
            2
        } else if 0xE0 <= b0 && b0 <= 0xEF {
            3
        } else if 0xF0 <= b0 && b0 <= 0xF4 {
            4
        } else {
            0
        };
        if n == 0 {
            (REPLACEMENT, off + 1)
        } else {
            let lo: u8 = if b0 == 0xE0 {
                0xA0
            } else if b0 == 0xF0 {
                0x90
            } else {
                0x80
            };
            let hi: u8 = if b0 == 0xED {
                0x9F
            } else if b0 == 0xF4 {
                0x8F
            } else {
                0xBF
            };
            if !(off + 1 < len && lo <= bytes[off + 1] && bytes[off + 1] <= hi) {
                (REPLACEMENT, off + 1)
            } else {
                let b1 = bytes[off + 1];
                if n == 2 {
                    (((b0 - 0xC0) as u32) * 64 + ((b1 - 0x80) as u32), off + 2)
                } else if !(off + 2 < len && 0x80 <= bytes[off + 2] && bytes[off + 2] <= 0xBF) {
                    (REPLACEMENT, off + 2)
                } else {
                    let b2 = bytes[off + 2];
                    if n == 3 {
                        (
                            ((b0 - 0xE0) as u32) * 4096 + ((b1 - 0x80) as u32) * 64 + ((b2
                                - 0x80) as u32),
                            off + 3,
                        )
                    } else if !(off + 3 < len && 0x80 <= bytes[off + 3] && bytes[off + 3]
                        <= 0xBF) {
                        (REPLACEMENT, off + 3)
                    } else {
                        let b3 = bytes[off + 3];
                        (
                            ((b0 - 0xF0) as u32) * 262144 + ((b1 - 0x80) as u32) * 4096 + ((b2
                                - 0x80) as u32) * 64 + ((b3 - 0x80) as u32),
                            off + 4,
                        )
                    }
                }
            }
        }
    };
    let c = match char_from_u32(v) {
        Some(c) => c,
        None => '\u{FFFD}',
    };
    (c, next)
}

} // verus!
