//! Word navigation over a document read in chunks: the next and previous word
//! boundary, and the word at an offset. It behaves like VS Code.

use vstd::prelude::*;
use crate::document::{clamp_off, ReadableDocument};

verus! {

/// The class of a byte for word navigation.
#[derive(Clone, Copy, Debug, PartialEq, Eq, Structural)]
pub enum CharClass {
    Whitespace,
    Newline,
    Separator,
    Word,
}

/// Whether a byte is one of the word separators ``  `~!@#$%^&*()-=+[{]}\|;:'",.<>/?  ``.
pub open spec fn is_separator(b: u8) -> bool {
    b == 0x60 || b == 0x7e || b == 0x21 || b == 0x40 || b == 0x23 || b == 0x24 || b == 0x25 || b
        == 0x5e || b == 0x26 || b == 0x2a || b == 0x28 || b == 0x29 || b == 0x2d || b == 0x3d || b
        == 0x2b || b == 0x5b || b == 0x7b || b == 0x5d || b == 0x7d || b == 0x5c || b == 0x7c || b
        == 0x3b || b == 0x3a || b == 0x27 || b == 0x22 || b == 0x2c || b == 0x2e || b == 0x3c || b
        == 0x3e || b == 0x2f || b == 0x3f
}

/// The class of a byte: space and tab are whitespace, LF and CR newlines, the
/// separators separators, and every other byte (all of UTF-8's multi-byte
/// characters included) is part of a word.
pub open spec fn char_class(b: u8) -> CharClass {
    if b == 0x20 || b == 0x09 {
        CharClass::Whitespace
    } else if b == 0x0a || b == 0x0d {
        CharClass::Newline
    } else if is_separator(b) {
        CharClass::Separator
    } else {
        CharClass::Word
    }
}

/// The word separators are exactly the documented ones: apart from
/// whitespace and line breaks, a byte separates words if and only if it is
/// one of `` `~!@#$%^&*()-=+[{]}\|;:'",.<>/? `` (`-` and `_` differ: `-`
/// separates, `_` is part of a word); every other byte, UTF-8's included, is
/// part of a word.
pub proof fn lemma_separators_documented(b: u8)
    requires
        b != 0x20 && b != 0x09 && b != 0x0a && b != 0x0d,
    ensures
        (char_class(b) == CharClass::Separator) <==> "`~!@#$%^&*()-=+[{]}\\|;:'\",.<>/?"@.contains(b as char),
        char_class(b) == CharClass::Separator || char_class(b) == CharClass::Word,
{
    reveal_strlit("`~!@#$%^&*()-=+[{]}\\|;:'\",.<>/?");
    let d = "`~!@#$%^&*()-=+[{]}\\|;:'\",.<>/?"@;
    if is_separator(b) {
        let i: int = if b == 0x60 { 0 } else if b == 0x7e { 1 } else if b == 0x21 { 2 } else if b == 0x40 { 3 }
            else if b == 0x23 { 4 } else if b == 0x24 { 5 } else if b == 0x25 { 6 } else if b == 0x5e { 7 }
            else if b == 0x26 { 8 } else if b == 0x2a { 9 } else if b == 0x28 { 10 } else if b == 0x29 { 11 }
            else if b == 0x2d { 12 } else if b == 0x3d { 13 } else if b == 0x2b { 14 } else if b == 0x5b { 15 }
            else if b == 0x7b { 16 } else if b == 0x5d { 17 } else if b == 0x7d { 18 } else if b == 0x5c { 19 }
            else if b == 0x7c { 20 } else if b == 0x3b { 21 } else if b == 0x3a { 22 } else if b == 0x27 { 23 }
            else if b == 0x22 { 24 } else if b == 0x2c { 25 } else if b == 0x2e { 26 } else if b == 0x3c { 27 }
            else if b == 0x3e { 28 } else if b == 0x2f { 29 } else { 30 };
        assert(d[i] == b as char);
    } else {
        assert forall|i: int| 0 <= i < d.len() implies d[i] != b as char by {
        }
    }
}

/// The class of a byte.
pub fn construct_classifier(b: u8) -> (c: CharClass)
    ensures
        c == char_class(b),
{
    if b == 0x20 || b == 0x09 {
        CharClass::Whitespace
    } else if b == 0x0a || b == 0x0d {
        CharClass::Newline
    } else if b == 0x60 || b == 0x7e || b == 0x21 || b == 0x40 || b == 0x23 || b == 0x24 || b == 0x25
        || b == 0x5e || b == 0x26 || b == 0x2a || b == 0x28 || b == 0x29 || b == 0x2d || b == 0x3d
        || b == 0x2b || b == 0x5b || b == 0x7b || b == 0x5d || b == 0x7d || b == 0x5c || b == 0x7c
        || b == 0x3b || b == 0x3a || b == 0x27 || b == 0x22 || b == 0x2c || b == 0x2e || b == 0x3c
        || b == 0x3e || b == 0x2f || b == 0x3f {
        CharClass::Separator
    } else {
        CharClass::Word
    }
}

/// The first offset at or after `q` whose byte is not of class `c`, or the end.
pub open spec fn skip_fwd(s: Seq<u8>, q: int, c: CharClass) -> int
    decreases s.len() - q,
{
    if 0 <= q < s.len() && char_class(s[q]) == c {
        skip_fwd(s, q + 1, c)
    } else {
        q
    }
}

/// The last offset at or before `q` whose preceding byte is not of class `c`, or 0.
pub open spec fn skip_bwd(s: Seq<u8>, q: int, c: CharClass) -> int
    decreases q,
{
    if 0 < q <= s.len() && char_class(s[q - 1]) == c {
        skip_bwd(s, q - 1, c)
    } else {
        q
    }
}

/// The next word boundary after `p`: past one line break, then past whitespace,
/// then past one run of word bytes or of separators (a single separator also
/// takes the word after it). Offsets at or past the end stay where they are.
pub open spec fn spec_word_forward(s: Seq<u8>, p: int) -> int {
    if p < 0 || p >= s.len() {
        p
    } else {
        let p1 = if s[p] == 0x0a {
            p + 1
        } else if s[p] == 0x0d && p + 1 < s.len() && s[p + 1] == 0x0a {
            p + 2
        } else {
            p
        };
        let p2 = skip_fwd(s, p1, CharClass::Whitespace);
        if p2 < s.len() && (char_class(s[p2]) == CharClass::Separator || char_class(s[p2]) == CharClass::Word) {
            let c = char_class(s[p2]);
            let p4 = skip_fwd(s, p2 + 1, c);
            if p4 == p2 + 1 && c == CharClass::Separator {
                skip_fwd(s, p4, CharClass::Word)
            } else {
                p4
            }
        } else {
            p2
        }
    }
}

/// The previous word boundary before `p`, the mirror image of [`spec_word_forward`]
/// (a line break is LF, CR, or CR LF).
pub open spec fn spec_word_backward(s: Seq<u8>, p: int) -> int {
    let q1 = if p > 0 && s[p - 1] == 0x0a { p - 1 } else { p };
    let q2 = if q1 > 0 && s[q1 - 1] == 0x0d { q1 - 1 } else { q1 };
    let q3 = skip_bwd(s, q2, CharClass::Whitespace);
    if q3 > 0 && (char_class(s[q3 - 1]) == CharClass::Separator || char_class(s[q3 - 1])
        == CharClass::Word) {
        let c = char_class(s[q3 - 1]);
        let q5 = skip_bwd(s, q3 - 1, c);
        if q5 == q3 - 1 && c == CharClass::Separator {
            skip_bwd(s, q5, CharClass::Word)
        } else {
            q5
        }
    } else {
        q3
    }
}

proof fn lemma_skip_fwd(s: Seq<u8>, q: int, c: CharClass)
    requires
        0 <= q <= s.len(),
    ensures
        q <= skip_fwd(s, q, c) <= s.len(),
        skip_fwd(s, q, c) < s.len() ==> char_class(s[skip_fwd(s, q, c)]) != c,
    decreases s.len() - q,
{
    if q < s.len() && char_class(s[q]) == c {
        lemma_skip_fwd(s, q + 1, c);
    }
}

proof fn lemma_skip_bwd(s: Seq<u8>, q: int, c: CharClass)
    requires
        0 <= q <= s.len(),
    ensures
        0 <= skip_bwd(s, q, c) <= q,
        skip_bwd(s, q, c) > 0 ==> char_class(s[skip_bwd(s, q, c) - 1]) != c,
    decreases q,
{
    if q > 0 && char_class(s[q - 1]) == c {
        lemma_skip_bwd(s, q - 1, c);
    }
}

/// Every byte skipped forward is of the class skipped.
proof fn lemma_skip_fwd_run(s: Seq<u8>, q: int, c: CharClass)
    requires
        0 <= q <= s.len(),
    ensures
        forall|i: int| q <= i < skip_fwd(s, q, c) ==> char_class(#[trigger] s[i]) == c,
    decreases s.len() - q,
{
    if q < s.len() && char_class(s[q]) == c {
        lemma_skip_fwd_run(s, q + 1, c);
    }
}

/// Every byte skipped backward is of the class skipped.
proof fn lemma_skip_bwd_run(s: Seq<u8>, q: int, c: CharClass)
    requires
        0 <= q <= s.len(),
    ensures
        forall|i: int| skip_bwd(s, q, c) <= i < q ==> char_class(#[trigger] s[i]) == c,
    decreases q,
{
    if q > 0 && char_class(s[q - 1]) == c {
        lemma_skip_bwd_run(s, q - 1, c);
    }
}

/// Moving to the next word from inside a word goes to the end of that word:
/// past every word byte from `p` on, to the first byte that is not part of a
/// word, or the end of the text.
pub proof fn lemma_word_forward_in_word(s: Seq<u8>, p: int)
    requires
        0 <= p < s.len(),
        char_class(s[p]) == CharClass::Word,
    ensures
        p < spec_word_forward(s, p) <= s.len(),
        forall|i: int| p <= i < spec_word_forward(s, p) ==> char_class(#[trigger] s[i]) == CharClass::Word,
        spec_word_forward(s, p) < s.len() ==> char_class(s[spec_word_forward(s, p)]) != CharClass::Word,
{
    lemma_skip_fwd(s, p + 1, CharClass::Word);
    lemma_skip_fwd_run(s, p + 1, CharClass::Word);
}

/// Moving to the previous word from just after a word goes to the start of
/// that word: back over every word byte before `p`, to just after the first
/// byte that is not part of a word, or the start of the text.
pub proof fn lemma_word_backward_in_word(s: Seq<u8>, p: int)
    requires
        0 < p <= s.len(),
        char_class(s[p - 1]) == CharClass::Word,
    ensures
        0 <= spec_word_backward(s, p) < p,
        forall|i: int| spec_word_backward(s, p) <= i < p ==> char_class(#[trigger] s[i]) == CharClass::Word,
        spec_word_backward(s, p) > 0 ==> char_class(s[spec_word_backward(s, p) - 1]) != CharClass::Word,
{
    lemma_skip_bwd(s, p - 1, CharClass::Word);
    lemma_skip_bwd_run(s, p - 1, CharClass::Word);
}

/// The word selected at a word byte is the whole run of word bytes around
/// it: it holds `p`, holds only word bytes, and reaches a byte that is not
/// part of a word (or the edge of the text) on either side.
pub proof fn lemma_word_select_in_word(s: Seq<u8>, p: int)
    requires
        0 <= p < s.len(),
        char_class(s[p]) == CharClass::Word,
    ensures
        ({
            let (beg, end) = spec_word_select(s, p);
            &&& 0 <= beg <= p < end <= s.len()
            &&& forall|i: int| beg <= i < end ==> char_class(#[trigger] s[i]) == CharClass::Word
            &&& beg > 0 ==> char_class(s[beg - 1]) != CharClass::Word
            &&& end < s.len() ==> char_class(s[end]) != CharClass::Word
        }),
{
    lemma_skip_fwd(s, p + 1, CharClass::Word);
    lemma_skip_fwd_run(s, p + 1, CharClass::Word);
    lemma_skip_bwd(s, p, CharClass::Word);
    lemma_skip_bwd_run(s, p, CharClass::Word);
}

/// Skips bytes of class `c` forward from `chunk[k]`, where `chunk` is the text
/// at `off`, reading further chunks as needed. Returns the new position as
/// (offset, chunk, index into the chunk).
fn skip_class_fwd<'a, D: ReadableDocument>(doc: &'a D, off0: usize, chunk0: &'a [u8], k0: usize, c: CharClass) -> (r: (
    usize,
    &'a [u8],
    usize,
))
    requires
        doc.content().len() <= usize::MAX,
        off0 + chunk0@.len() <= doc.content().len(),
        chunk0@ == doc.content().subrange(off0 as int, off0 + chunk0@.len()),
        k0 <= chunk0@.len(),
        chunk0@.len() == 0 ==> off0 == doc.content().len(),
    ensures
        r.0 + r.1@.len() <= doc.content().len(),
        r.1@ == doc.content().subrange(r.0 as int, r.0 + r.1@.len()),
        r.2 <= r.1@.len(),
        r.1@.len() == 0 ==> r.0 == doc.content().len(),
        r.2 < r.1@.len() || r.1@.len() == 0,
        r.0 + r.2 == skip_fwd(doc.content(), off0 + k0, c),
{
    let ghost s = doc.content();
    let ghost target = skip_fwd(s, off0 + k0, c);
    let mut off = off0;
    let mut chunk = chunk0;
    let mut k = k0;
    while chunk.len() > 0
        invariant
            s == doc.content(),
            off + chunk@.len() <= s.len(),
            chunk@ == s.subrange(off as int, off + chunk@.len()),
            k <= chunk@.len(),
            chunk@.len() == 0 ==> off == s.len(),
            skip_fwd(s, off + k, c) == target,
            target == skip_fwd(doc.content(), off0 + k0, c),
            s.len() <= usize::MAX,
        decreases s.len() - off,
    {
        while k < chunk.len()
            invariant
                s == doc.content(),
                off + chunk@.len() <= s.len(),
                chunk@ == s.subrange(off as int, off + chunk@.len()),
                k <= chunk@.len(),
                skip_fwd(s, off + k, c) == target,
                target == skip_fwd(doc.content(), off0 + k0, c),
                s.len() <= usize::MAX,
            decreases chunk@.len() - k,
        {
            if construct_classifier(chunk[k]) != c {
                return (off, chunk, k);
            }
            k += 1;
        }
        off = off + chunk.len();
        chunk = doc.read_forward(off);
        k = 0;
    }
    (off, chunk, k)
}


/// Skips bytes of class `c` backward from before `chunk[k]`, where `chunk` is
/// the text that ends at `off`, reading further chunks as needed.
fn skip_class_bwd<'a, D: ReadableDocument>(doc: &'a D, off0: usize, chunk0: &'a [u8], k0: usize, c: CharClass) -> (r: (
    usize,
    &'a [u8],
    usize,
))
    requires
        doc.content().len() <= usize::MAX,
        chunk0@.len() <= off0 <= doc.content().len(),
        chunk0@ == doc.content().subrange(off0 - chunk0@.len(), off0 as int),
        k0 <= chunk0@.len(),
        chunk0@.len() == 0 ==> off0 == 0,
    ensures
        r.1@.len() <= r.0 <= doc.content().len(),
        r.1@ == doc.content().subrange(r.0 - r.1@.len(), r.0 as int),
        r.2 <= r.1@.len(),
        r.1@.len() == 0 ==> r.0 == 0,
        r.2 > 0 || r.1@.len() == 0,
        r.0 - r.1@.len() + r.2 == skip_bwd(doc.content(), off0 - chunk0@.len() + k0, c),
{
    let ghost s = doc.content();
    let ghost target = skip_bwd(s, off0 - chunk0@.len() + k0, c);
    let mut off = off0;
    let mut chunk = chunk0;
    let mut k = k0;
    while chunk.len() > 0
        invariant
            s == doc.content(),
            s.len() <= usize::MAX,
            chunk@.len() <= off <= s.len(),
            chunk@ == s.subrange(off - chunk@.len(), off as int),
            k <= chunk@.len(),
            chunk@.len() == 0 ==> off == 0,
            skip_bwd(s, off - chunk@.len() + k, c) == target,
            target == skip_bwd(doc.content(), off0 - chunk0@.len() + k0, c),
        decreases off,
    {
        while k > 0
            invariant
                s == doc.content(),
                s.len() <= usize::MAX,
                chunk@.len() <= off <= s.len(),
                chunk@ == s.subrange(off - chunk@.len(), off as int),
                k <= chunk@.len(),
                skip_bwd(s, off - chunk@.len() + k, c) == target,
                target == skip_bwd(doc.content(), off0 - chunk0@.len() + k0, c),
            decreases k,
        {
            if construct_classifier(chunk[k - 1]) != c {
                return (off, chunk, k);
            }
            k -= 1;
        }
        off = off - chunk.len();
        chunk = doc.read_backward(off);
        k = chunk.len();
    }
    (off, chunk, k)
}

/// Finds the next word boundary given a document cursor offset.
pub fn word_forward<D: ReadableDocument>(doc: &D, offset: usize) -> (r: usize)
    requires
        doc.content().len() <= usize::MAX,
    ensures
        r == spec_word_forward(doc.content(), offset as int),
{
    let ghost s = doc.content();
    let chunk = doc.read_forward(offset);
    if chunk.len() == 0 {
        return offset;
    }
    let mut k: usize = 0;
    if chunk[0] == 0x0a {
        k = 1;
    } else if chunk[0] == 0x0d && 1 < chunk.len() && chunk[1] == 0x0a {
        k = 2;
    }
    proof {
        if chunk@.len() == 1 && chunk@[0] == 0x0d && offset + 1 < s.len() {
            assert(s[offset + 1] != 0x0a);
        }
    }
    let (off, chunk, k) = skip_class_fwd(doc, offset, chunk, k, CharClass::Whitespace);
    proof {
        lemma_skip_fwd(s, off + k, CharClass::Whitespace);
    }
    let class = if k < chunk.len() { construct_classifier(chunk[k]) } else { CharClass::Whitespace };
    if class == CharClass::Separator || class == CharClass::Word {
        let k = k + 1;
        let pos = off + k;
        let (off, chunk, k) = skip_class_fwd(doc, off, chunk, k, class);
        if pos == off + k && class == CharClass::Separator {
            let (off, chunk, k) = skip_class_fwd(doc, off, chunk, k, CharClass::Word);
            return off + k;
        }
        return off + k;
    }
    off + k
}

/// The backward version of [`word_forward`].
pub fn word_backward<D: ReadableDocument>(doc: &D, offset: usize) -> (r: usize)
    requires
        doc.content().len() <= usize::MAX,
        offset <= doc.content().len(),
    ensures
        r == spec_word_backward(doc.content(), offset as int),
{
    let ghost s = doc.content();
    let chunk = doc.read_backward(offset);
    let mut k = chunk.len();
    if k > 0 && chunk[k - 1] == 0x0a {
        k -= 1;
    }
    if k > 0 && chunk[k - 1] == 0x0d {
        k -= 1;
    }
    proof {
        if k == 0 && chunk@.len() == 1 && chunk@[0] == 0x0a && offset - 1 > 0 {
            assert(s[offset - 2] != 0x0d);
        }
    }
    let (off, chunk, k) = skip_class_bwd(doc, offset, chunk, k, CharClass::Whitespace);
    let class = if k > 0 { construct_classifier(chunk[k - 1]) } else { CharClass::Whitespace };
    if class == CharClass::Separator || class == CharClass::Word {
        let k = k - 1;
        let pos = off - chunk.len() + k;
        let (off, chunk, k) = skip_class_bwd(doc, off, chunk, k, class);
        if pos == off - chunk.len() + k && class == CharClass::Separator {
            let (off, chunk, k) = skip_class_bwd(doc, off, chunk, k, CharClass::Word);
            return off - chunk.len() + k;
        }
        return off - chunk.len() + k;
    }
    off - chunk.len() + k
}

/// The word at `p`: the run of bytes of the class of the byte at `p` (or, at
/// the end of the text or on a line break, of the byte before it), not
/// crossing line breaks.
pub open spec fn spec_word_select(s: Seq<u8>, p: int) -> (int, int) {
    let c0 = if p < s.len() { char_class(s[p]) } else { CharClass::Newline };
    let end = if p < s.len() && c0 != CharClass::Newline { skip_fwd(s, p + 1, c0) } else { p };
    let c1 = if c0 == CharClass::Newline && p > 0 { char_class(s[p - 1]) } else { c0 };
    let beg = if p > 0 && c1 != CharClass::Newline { skip_bwd(s, p, c1) } else { p };
    (beg, end)
}

/// Returns the offset range of the "word" at the given offset.
/// Does not cross newlines.
pub fn word_select<D: ReadableDocument>(doc: &D, offset: usize) -> (r: std::ops::Range<usize>)
    requires
        doc.content().len() <= usize::MAX,
        offset <= doc.content().len(),
    ensures
        (r.start as int, r.end as int) == spec_word_select(doc.content(), offset as int),
{
    let mut end = offset;
    let mut class = CharClass::Newline;
    let chunk = doc.read_forward(offset);
    if chunk.len() > 0 {
        class = construct_classifier(chunk[0]);
        if class != CharClass::Newline {
            let (off, chunk, k) = skip_class_fwd(doc, offset, chunk, 1, class);
            end = off + k;
        }
    }
    let mut beg = offset;
    let chunk = doc.read_backward(offset);
    if chunk.len() > 0 {
        let k = chunk.len();
        if class == CharClass::Newline {
            class = construct_classifier(chunk[k - 1]);
        }
        if class != CharClass::Newline {
            let (off, chunk, k) = skip_class_bwd(doc, offset, chunk, k, class);
            beg = off - chunk.len() + k;
        }
    }
    beg..end
}

} // verus!
