//! Abstractions over reading and writing text containers, read in chunks.

use vstd::prelude::*;

verus! {

/// The offset clamped to the length.
pub open spec fn clamp_off(off: int, len: int) -> int {
    if off < len {
        off
    } else {
        len
    }
}

/// An abstraction over reading from text containers.
///
/// Offsets may be out of bounds and are clamped. A chunk never splits a
/// `\r\n` pair, and is empty only at the end (forward) or start (backward).
pub trait ReadableDocument {
    /// The whole text of the document.
    spec fn content(&self) -> Seq<u8>;

    /// Some bytes starting at (including) the given absolute offset.
    fn read_forward(&self, off: usize) -> (r: &[u8])
        ensures
            ({
                let c = self.content();
                let o = clamp_off(off as int, c.len() as int);
                &&& o + r@.len() <= c.len()
                &&& r@ == c.subrange(o, o + r@.len())
                &&& (o < c.len() ==> r@.len() > 0)
                &&& (r@.len() > 0 && r@.last() == 0x0d && o + r@.len() < c.len() ==> c[o + r@.len()] != 0x0a)
            }),
    ;

    /// Some bytes before (but not including) the given absolute offset.
    fn read_backward(&self, off: usize) -> (r: &[u8])
        ensures
            ({
                let c = self.content();
                let o = clamp_off(off as int, c.len() as int);
                &&& r@.len() <= o
                &&& r@ == c.subrange(o - r@.len(), o)
                &&& (o > 0 ==> r@.len() > 0)
                &&& (r@.len() > 0 && r@[0] == 0x0a && o - r@.len() > 0 ==> c[o - r@.len() - 1] != 0x0d)
            }),
    ;
}

/// An abstraction over writing to text containers.
pub trait WriteableDocument: ReadableDocument {
    /// Replaces the given range (clamped to the text) with the given bytes.
    fn replace(&mut self, start: usize, end: usize, replacement: &[u8])
        ensures
            ({
                let c = old(self).content();
                let e = clamp_off(end as int, c.len() as int);
                let s = clamp_off(start as int, e);
                final(self).content() == c.take(s) + replacement@ + c.skip(e)
            }),
    ;
}

impl<'a> ReadableDocument for &'a [u8] {
    open spec fn content(&self) -> Seq<u8> {
        (*self)@
    }

    fn read_forward(&self, off: usize) -> (r: &[u8]) {
        let s: &[u8] = *self;
        let o = if off < s.len() { off } else { s.len() };
        &s[o..s.len()]
    }

    fn read_backward(&self, off: usize) -> (r: &[u8]) {
        let s: &[u8] = *self;
        let o = if off < s.len() { off } else { s.len() };
        &s[0..o]
    }
}

impl ReadableDocument for Vec<u8> {
    open spec fn content(&self) -> Seq<u8> {
        self@
    }

    fn read_forward(&self, off: usize) -> (r: &[u8]) {
        let s = self.as_slice();
        let o = if off < s.len() { off } else { s.len() };
        &s[o..s.len()]
    }

    fn read_backward(&self, off: usize) -> (r: &[u8]) {
        let s = self.as_slice();
        let o = if off < s.len() { off } else { s.len() };
        &s[0..o]
    }
}

impl WriteableDocument for Vec<u8> {
    fn replace(&mut self, start: usize, end: usize, replacement: &[u8]) {
        let e = if end < self.len() { end } else { self.len() };
        let s = if start < e { start } else { e };
        let mut out: Vec<u8> = Vec::new();
        crate::text::extend_bytes(&mut out, &self.as_slice()[0..s]);
        crate::text::extend_bytes(&mut out, replacement);
        crate::text::extend_bytes(&mut out, &self.as_slice()[e..self.len()]);
        assert(out@ =~= self@.take(s as int) + replacement@ + self@.skip(e as int));
        *self = out;
    }
}

} // verus!
