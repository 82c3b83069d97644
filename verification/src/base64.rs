//! Base64 encoding (standard alphabet, with `=` padding).

use vstd::prelude::*;

verus! {

/// The base64 alphabet: `A-Z`, `a-z`, `0-9`, `+`, `/`.
pub open spec fn spec_charset(v: int) -> u8 {
    if v < 26 {
        (0x41 + v) as u8
    } else if v < 52 {
        (0x61 + (v - 26)) as u8
    } else if v < 62 {
        (0x30 + (v - 52)) as u8
    } else if v == 62 {
        0x2bu8
    } else {
        0x2fu8
    }
}

/// The 6-bit values 0 to 63 stand for the characters of
/// `ABCDEFGHIJKLMNOPQRSTUVWXYZabcdefghijklmnopqrstuvwxyz0123456789+/` in
/// order (62 for `+`, 63 for `/`), each value for a different character.
pub proof fn lemma_charset_is_the_alphabet(v: int, w: int)
    requires
        0 <= v < 64,
        0 <= w < 64,
    ensures
        spec_charset(v) as char == "ABCDEFGHIJKLMNOPQRSTUVWXYZabcdefghijklmnopqrstuvwxyz0123456789+/"@[v],
        v != w ==> spec_charset(v) != spec_charset(w),
{
    reveal_strlit("ABCDEFGHIJKLMNOPQRSTUVWXYZabcdefghijklmnopqrstuvwxyz0123456789+/");
    let a = "ABCDEFGHIJKLMNOPQRSTUVWXYZabcdefghijklmnopqrstuvwxyz0123456789+/"@;
    assert(forall|i: int| 0 <= i < 26 ==> a[i] as int == 0x41 + i);
    assert(forall|i: int| 26 <= i < 52 ==> a[i] as int == 0x61 + (i - 26));
    assert(forall|i: int| 52 <= i < 62 ==> a[i] as int == 0x30 + (i - 52));
}

/// Base64 of `src`: every 3 bytes become 4 characters of 6 bits each; a last
/// group of 1 or 2 bytes is padded with `=` to 4 characters.
pub open spec fn spec_encode(src: Seq<u8>) -> Seq<u8>
    decreases src.len(),
{
    if src.len() == 0 {
        Seq::empty()
    } else if src.len() == 1 {
        seq![spec_charset((src[0] as int) / 4), spec_charset(((src[0] as int) % 4) * 16), 0x3du8, 0x3du8]
    } else if src.len() == 2 {
        seq![
            spec_charset((src[0] as int) / 4),
            spec_charset(((src[0] as int) % 4) * 16 + (src[1] as int) / 16),
            spec_charset(((src[1] as int) % 16) * 4),
            0x3du8,
        ]
    } else {
        seq![
            spec_charset((src[0] as int) / 4),
            spec_charset(((src[0] as int) % 4) * 16 + (src[1] as int) / 16),
            spec_charset(((src[1] as int) % 16) * 4 + (src[2] as int) / 64),
            spec_charset((src[2] as int) % 64),
        ] + spec_encode(src.skip(3))
    }
}

/// The 6-bit value of a character of the base64 alphabet; 64 for any other byte.
pub open spec fn alphabet_index(c: u8) -> int {
    if 0x41 <= c <= 0x5a {
        c - 0x41
    } else if 0x61 <= c <= 0x7a {
        c - 0x61 + 26
    } else if 0x30 <= c <= 0x39 {
        c - 0x30 + 52
    } else if c == 0x2b {
        62
    } else if c == 0x2f {
        63
    } else {
        64
    }
}

/// Base64 decoding: every 4 characters give 3 bytes, or 1 or 2 where the
/// group ends in `==` or `=`.
pub open spec fn spec_decode(e: Seq<u8>) -> Seq<u8>
    decreases e.len(),
{
    if e.len() < 4 {
        Seq::empty()
    } else {
        let v0 = alphabet_index(e[0]);
        let v1 = alphabet_index(e[1]);
        let v2 = alphabet_index(e[2]);
        let v3 = alphabet_index(e[3]);
        if e[2] == 0x3d {
            seq![(v0 * 4 + v1 / 16) as u8]
        } else if e[3] == 0x3d {
            seq![(v0 * 4 + v1 / 16) as u8, ((v1 % 16) * 16 + v2 / 4) as u8]
        } else {
            seq![(v0 * 4 + v1 / 16) as u8, ((v1 % 16) * 16 + v2 / 4) as u8, ((v2 % 4) * 64 + v3) as u8]
                + spec_decode(e.skip(4))
        }
    }
}

/// Each 6-bit value's character gives the value back, and is no `=`.
proof fn lemma_index_of_charset(v: int)
    requires
        0 <= v < 64,
    ensures
        alphabet_index(spec_charset(v)) == v,
        spec_charset(v) != 0x3d,
{
}

/// The 6-bit values a group of three bytes is cut into put the bytes back together.
proof fn lemma_group_values(a: int, b: int, c: int)
    requires
        0 <= a < 256,
        0 <= b < 256,
        0 <= c < 256,
    ensures
        0 <= a / 4 < 64,
        0 <= (a % 4) * 16 + b / 16 < 64,
        0 <= (b % 16) * 4 + c / 64 < 64,
        0 <= c % 64 < 64,
        (a / 4) * 4 + ((a % 4) * 16 + b / 16) / 16 == a,
        (((a % 4) * 16 + b / 16) % 16) * 16 + ((b % 16) * 4 + c / 64) / 4 == b,
        (((b % 16) * 4 + c / 64) % 4) * 64 + c % 64 == c,
        0 <= (a % 4) * 16 < 64,
        0 <= (b % 16) * 4 < 64,
        ((a % 4) * 16) / 16 == a % 4,
        (b % 16) * 4 / 4 == b % 16,
        (((a % 4) * 16 + b / 16) % 16) * 16 + ((b % 16) * 4) / 4 == b,
        (a / 4) * 4 + ((a % 4) * 16) / 16 == a,
{
    assert((a / 4) * 4 + a % 4 == a) by (nonlinear_arith);
    assert(b / 16 < 16 && (b / 16) * 16 + b % 16 == b) by (nonlinear_arith)
        requires
            0 <= b < 256,
    ;
    assert(c / 64 < 4 && (c / 64) * 64 + c % 64 == c) by (nonlinear_arith)
        requires
            0 <= c < 256,
    ;
    assert(((a % 4) * 16 + b / 16) / 16 == a % 4 && ((a % 4) * 16 + b / 16) % 16 == b / 16) by (nonlinear_arith)
        requires
            0 <= a % 4 < 4,
            0 <= b / 16 < 16,
    ;
    assert(((b % 16) * 4 + c / 64) / 4 == b % 16 && ((b % 16) * 4 + c / 64) % 4 == c / 64) by (nonlinear_arith)
        requires
            0 <= b % 16 < 16,
            0 <= c / 64 < 4,
    ;
    assert(((a % 4) * 16) / 16 == a % 4) by (nonlinear_arith)
        requires
            0 <= a % 4 < 4,
    ;
    assert((b % 16) * 4 / 4 == b % 16) by (nonlinear_arith)
        requires
            0 <= b % 16 < 16,
    ;
    assert(0 <= a / 4 < 64) by (nonlinear_arith)
        requires
            0 <= a < 256,
    ;
}

/// Decoding what was encoded gives the bytes back.
pub proof fn lemma_decode_encode(src: Seq<u8>)
    ensures
        spec_decode(spec_encode(src)) == src,
    decreases src.len(),
{
    let e = spec_encode(src);
    if src.len() == 0 {
    } else {
        let a = src[0] as int;
        let b = if src.len() > 1 { src[1] as int } else { 0 };
        let c = if src.len() > 2 { src[2] as int } else { 0 };
        lemma_group_values(a, b, c);
        lemma_index_of_charset(a / 4);
        lemma_index_of_charset((a % 4) * 16 + b / 16);
        lemma_index_of_charset((a % 4) * 16);
        lemma_index_of_charset((b % 16) * 4 + c / 64);
        lemma_index_of_charset((b % 16) * 4);
        lemma_index_of_charset(c % 64);
        if src.len() == 1 {
            assert(spec_decode(e) =~= src);
        } else if src.len() == 2 {
            assert(spec_decode(e) =~= src);
        } else {
            lemma_decode_encode(src.skip(3));
            lemma_encode_len(src.skip(3));
            let head = seq![
                spec_charset(a / 4),
                spec_charset((a % 4) * 16 + b / 16),
                spec_charset((b % 16) * 4 + c / 64),
                spec_charset(c % 64),
            ];
            assert(e == head + spec_encode(src.skip(3)));
            assert(e.skip(4) =~= spec_encode(src.skip(3)));
            assert(spec_decode(e) =~= seq![src[0], src[1], src[2]] + src.skip(3));
            assert(seq![src[0], src[1], src[2]] + src.skip(3) =~= src);
        }
    }
}

/// The encoded length of `n` bytes: 4 characters for every started group of 3.
pub open spec fn spec_encode_len(n: int) -> int {
    ((n + 2) / 3) * 4
}

/// One aspect of base64 is that the encoded length can be
/// calculated accurately in advance, which is what this returns.
pub fn encode_len(src_len: usize) -> (r: usize)
    requires
        spec_encode_len(src_len as int) <= usize::MAX,
    ensures
        r == spec_encode_len(src_len as int),
{
    let groups = src_len / 3 + if src_len % 3 != 0 { 1 } else { 0 };
    assert(groups == (src_len + 2) / 3);
    groups * 4
}

/// The encoded length is the length of what `encode` appends.
pub proof fn lemma_encode_len(src: Seq<u8>)
    ensures
        spec_encode(src).len() == spec_encode_len(src.len() as int),
    decreases src.len(),
{
    if src.len() > 2 {
        lemma_encode_len(src.skip(3));
    }
}

fn charset(v: u8) -> (c: u8)
    requires
        v < 64,
    ensures
        c == spec_charset(v as int),
{
    if v < 26 {
        0x41 + v
    } else if v < 52 {
        0x61 + (v - 26)
    } else if v < 62 {
        0x30 + (v - 52)
    } else if v == 62 {
        0x2b
    } else {
        0x2f
    }
}

/// Encodes the given bytes as base64 and appends them to the destination.
pub fn encode(dst: &mut Vec<u8>, src: &[u8])
    ensures
        final(dst)@ == old(dst)@ + spec_encode(src@),
{
    let mut i: usize = 0;
    assert(src@.skip(0) =~= src@);
    while src.len() - i > 3
        invariant
            i <= src@.len(),
            i % 3 == 0,
            dst@ + spec_encode(src@.skip(i as int)) == old(dst)@ + spec_encode(src@),
        decreases src@.len() - i,
    {
        let a = src[i];
        let b = src[i + 1];
        let c = src[i + 2];
        dst.push(charset(a / 4));
        dst.push(charset((a % 4) * 16 + b / 16));
        dst.push(charset((b % 16) * 4 + c / 64));
        dst.push(charset(c % 64));
        proof {
            let s = src@.skip(i as int);
            assert(s.skip(3) =~= src@.skip(i + 3));
            assert(s[0] == a && s[1] == b && s[2] == c);
        }
        i += 3;
        assert(dst@ + spec_encode(src@.skip(i as int)) =~= old(dst)@ + spec_encode(src@));
    }
    let rest = src.len() - i;
    let ghost s = src@.skip(i as int);
    if rest == 0 {
        assert(s.len() == 0);
        assert(dst@ =~= old(dst)@ + spec_encode(src@));
        return;
    }
    let a = src[i];
    dst.push(charset(a / 4));
    if rest == 1 {
        dst.push(charset((a % 4) * 16));
        dst.push(0x3d);
        dst.push(0x3d);
    } else {
        let b = src[i + 1];
        dst.push(charset((a % 4) * 16 + b / 16));
        if rest == 2 {
            dst.push(charset((b % 16) * 4));
            dst.push(0x3d);
        } else {
            let c = src[i + 2];
            dst.push(charset((b % 16) * 4 + c / 64));
            dst.push(charset(c % 64));
            assert(s.skip(3).len() == 0);
            assert(spec_encode(s.skip(3)) =~= Seq::<u8>::empty());
        }
    }
    assert(dst@ =~= old(dst)@ + spec_encode(src@));
}

} // verus!
