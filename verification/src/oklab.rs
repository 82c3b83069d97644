//! Colors: sRGB with straight (not premultiplied) alpha, packed in a `u32`
//! as `0xAABBGGRR` in native byte order.

use vstd::prelude::*;

verus! {

/// The bytes of `x` in reverse order.
pub open spec fn swap_bytes32(x: u32) -> u32 {
    ((x & 0xff) << 24) | (((x >> 8) & 0xff) << 16) | (((x >> 16) & 0xff) << 8) | (x >> 24)
}

/// `u32::from_le`: the identity on a little-endian target, a byte swap on a
/// big-endian one. Which of the two is not stated.
#[verifier::external_body]
fn u32_from_le(x: u32) -> (r: u32)
    ensures
        r == x || r == swap_bytes32(x),
{
    u32::from_le(x)
}

/// `u32::from_be`: a byte swap on a little-endian target, the identity on a
/// big-endian one. Which of the two is not stated.
#[verifier::external_body]
fn u32_from_be(x: u32) -> (r: u32)
    ensures
        r == x || r == swap_bytes32(x),
{
    u32::from_be(x)
}

/// `u32::to_le`: the identity on a little-endian target, a byte swap on a
/// big-endian one. Which of the two is not stated.
#[verifier::external_body]
fn u32_to_le(x: u32) -> (r: u32)
    ensures
        r == x || r == swap_bytes32(x),
{
    x.to_le()
}

/// `u32::to_be`: a byte swap on a little-endian target, the identity on a
/// big-endian one. Which of the two is not stated.
#[verifier::external_body]
fn u32_to_be(x: u32) -> (r: u32)
    ensures
        r == x || r == swap_bytes32(x),
{
    x.to_be()
}

/// A sRGB color with straight (= not premultiplied) alpha.
#[derive(Default, Clone, Copy, Debug, PartialEq, Eq, Structural)]
pub struct StraightRgba(pub u32);

impl StraightRgba {
    /// Transparent black.
    pub fn zero() -> (c: Self)
        ensures
            c.0 == 0,
    {
        StraightRgba(0)
    }

    /// The color from its little-endian packing (byte order `R, G, B, A`).
    pub fn from_le(color: u32) -> (c: Self)
        ensures
            c.0 == color || c.0 == swap_bytes32(color),
    {
        StraightRgba(u32_from_le(color))
    }

    /// The color from its big-endian packing.
    pub fn from_be(color: u32) -> (c: Self)
        ensures
            c.0 == color || c.0 == swap_bytes32(color),
    {
        StraightRgba(u32_from_be(color))
    }

    /// The packed value in native byte order.
    pub fn to_ne(self) -> (r: u32)
        ensures
            r == self.0,
    {
        self.0
    }

    /// The packed value in little-endian byte order.
    pub fn to_le(self) -> (r: u32)
        ensures
            r == self.0 || r == swap_bytes32(self.0),
    {
        u32_to_le(self.0)
    }

    /// The packed value in big-endian byte order.
    pub fn to_be(self) -> (r: u32)
        ensures
            r == self.0 || r == swap_bytes32(self.0),
    {
        u32_to_be(self.0)
    }

    /// The red channel, 0 to 255.
    pub fn red(self) -> (r: u32)
        ensures
            r == self.0 & 0xff,
            r < 256,
    {
        let v = self.0;
        assert(v & 0xff < 256) by (bit_vector);
        v & 0xff
    }

    /// The green channel, 0 to 255.
    pub fn green(self) -> (r: u32)
        ensures
            r == (self.0 >> 8) & 0xff,
            r < 256,
    {
        let v = self.0;
        assert((v >> 8) & 0xff < 256) by (bit_vector);
        (v >> 8) & 0xff
    }

    /// The blue channel, 0 to 255.
    pub fn blue(self) -> (r: u32)
        ensures
            r == (self.0 >> 16) & 0xff,
            r < 256,
    {
        let v = self.0;
        assert((v >> 16) & 0xff < 256) by (bit_vector);
        (v >> 16) & 0xff
    }

    /// The alpha channel, 0 to 255.
    pub fn alpha(self) -> (r: u32)
        ensures
            r == self.0 >> 24,
            r < 256,
    {
        let v = self.0;
        assert(v >> 24 < 256) by (bit_vector);
        v >> 24
    }
}

/// The four channels put together give the color back.
pub proof fn lemma_channels(c: u32)
    ensures
        (c & 0xff) | (((c >> 8) & 0xff) << 8) | (((c >> 16) & 0xff) << 16) | ((c >> 24) << 24) == c,
{
    assert((c & 0xff) | (((c >> 8) & 0xff) << 8) | (((c >> 16) & 0xff) << 16) | ((c >> 24) << 24) == c)
        by (bit_vector);
}

/// Swapping the bytes twice gives the value back.
pub proof fn lemma_swap_twice(x: u32)
    ensures
        swap_bytes32(swap_bytes32(x)) == x,
{
    assert(((((x & 0xff) << 24) | (((x >> 8) & 0xff) << 16) | (((x >> 16) & 0xff) << 8) | (x >> 24)) & 0xff)
        << 24 | ((((((x & 0xff) << 24) | (((x >> 8) & 0xff) << 16) | (((x >> 16) & 0xff) << 8) | (x >> 24))
        >> 8) & 0xff) << 16) | ((((((x & 0xff) << 24) | (((x >> 8) & 0xff) << 16) | (((x >> 16) & 0xff) << 8)
        | (x >> 24)) >> 16) & 0xff) << 8) | ((((x & 0xff) << 24) | (((x >> 8) & 0xff) << 16) | (((x >> 16)
        & 0xff) << 8) | (x >> 24)) >> 24) == x) by (bit_vector);
}

} // verus!
