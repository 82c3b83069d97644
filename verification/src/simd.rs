//! Seeking backwards over lines of text.

use vstd::prelude::*;
use crate::helpers::CoordType;

verus! {

/// The number of newlines in `s[a..b]`.
pub open spec fn newlines(s: Seq<u8>, a: int, b: int) -> int
    decreases b - a,
{
    if b <= a {
        0
    } else {
        newlines(s, a, b - 1) + if s[b - 1] == 0x0Au8 {
            1int
        } else {
            0int
        }
    }
}

/// Walking back from `offset` on line `line`: each newline passed lowers the
/// line by one, and the walk stops at the start of the text or before a
/// newline when the line has reached `line_stop`.
pub open spec fn spec_lines_bwd(s: Seq<u8>, offset: int, line: int, line_stop: int) -> (int, int)
    decreases offset,
{
    if offset <= 0 {
        (offset, line)
    } else if s[offset - 1] == 0x0Au8 {
        if line <= line_stop {
            (offset, line)
        } else {
            spec_lines_bwd(s, offset - 1, line - 1, line_stop)
        }
    } else {
        spec_lines_bwd(s, offset - 1, line, line_stop)
    }
}

/// The walk ends at a line start no later than where it began, having
/// lowered the line by the number of newlines it passed; unless it reached
/// the start of the text, it stopped because the line had reached
/// `line_stop`.
pub proof fn lemma_lines_bwd(s: Seq<u8>, offset: int, line: int, line_stop: int)
    requires
        0 <= offset <= s.len(),
    ensures
        ({
            let (o, l) = spec_lines_bwd(s, offset, line, line_stop);
            &&& 0 <= o <= offset
            &&& o == 0 || s[o - 1] == 0x0Au8
            &&& l == line - newlines(s, o, offset)
            &&& o > 0 ==> l <= line_stop
            &&& l >= line_stop || l == line
        }),
    decreases offset,
{
    if offset > 0 {
        if s[offset - 1] == 0x0Au8 {
            if line > line_stop {
                lemma_lines_bwd(s, offset - 1, line - 1, line_stop);
                let (o, l) = spec_lines_bwd(s, offset - 1, line - 1, line_stop);
                lemma_newlines_split(s, o, offset - 1, offset);
            }
        } else {
            lemma_lines_bwd(s, offset - 1, line, line_stop);
            let (o, l) = spec_lines_bwd(s, offset - 1, line, line_stop);
            lemma_newlines_split(s, o, offset - 1, offset);
        }
    }
}

/// Counting newlines over two adjacent ranges adds up.
proof fn lemma_newlines_split(s: Seq<u8>, a: int, m: int, b: int)
    requires
        a <= m <= b,
    ensures
        newlines(s, a, b) == newlines(s, a, m) + newlines(s, m, b),
    decreases b - m,
{
    if b > m {
        lemma_newlines_split(s, a, m, b - 1);
    }
}

/// Starting at `offset` in `haystack` on line `line`, seeks backwards to line
/// `line_stop` and returns the offset reached, just past a newline or at the
/// start, and the line there. It seeks even if `line` is already `line_stop`,
/// so it can tell whether `offset` is at a line start.
pub fn lines_bwd(haystack: &[u8], offset: usize, line: CoordType, line_stop: CoordType) -> (r: (
    usize,
    CoordType,
))
    ensures
        ({
            let start = if offset <= haystack.len() {
                offset as int
            } else {
                haystack.len() as int
            };
            let (o, l) = spec_lines_bwd(haystack@, start, line as int, line_stop as int);
            r.0 == o && r.1 == l
        }),
{
    let mut end = if offset <= haystack.len() {
        offset
    } else {
        haystack.len()
    };
    let ghost start = end as int;
    let mut line = line;
    let ghost line0 = line as int;
    while end > 0
        invariant
            end <= haystack.len(),
            start <= haystack.len(),
            spec_lines_bwd(haystack@, end as int, line as int, line_stop as int) == spec_lines_bwd(
                haystack@,
                start,
                line0,
                line_stop as int,
            ),
        ensures
            end <= haystack.len(),
            end == 0 || (haystack@[end - 1] == 0x0Au8 && line <= line_stop),
            spec_lines_bwd(haystack@, end as int, line as int, line_stop as int) == spec_lines_bwd(
                haystack@,
                start,
                line0,
                line_stop as int,
            ),
        decreases end,
    {
        if haystack[end - 1] == 0x0Au8 {
            if line <= line_stop {
                break;
            }
            line -= 1;
        }
        end -= 1;
    }
    (end, line)
}

} // verus!
