//! Editor settings and the editing of `settings.json`.
//!
//! The file is a JSON object with comments. A setting is changed in place:
//! where the key exists at the top level its value's text is replaced, else a
//! new entry is appended before the closing brace. Everything else in the file,
//! comments and unknown entries included, is kept byte for byte.

use vstd::prelude::*;
use crate::apperr::Error;
use crate::helpers::CoordType;
use crate::json::{parse_json, spec_parse_json, JsonView};
use crate::text::{decimal, extend_bytes, push_decimal, spec_trim, str_bytes, trim};
use vstd::string::StringSliceAdditionalSpecFns;

verus! {

/// Rust's `u8::is_ascii_whitespace`: space, tab, line feed, form feed, carriage return.
pub open spec fn is_ascii_whitespace(b: u8) -> bool {
    b == 0x20 || b == 0x09 || b == 0x0a || b == 0x0c || b == 0x0d
}

/// The editor's color scheme.
#[derive(Clone, Copy, Debug, PartialEq, Eq, Structural)]
pub enum EditorColor {
    Original,
    WhiteOnBlue,
}

/// The key bindings in use.
#[derive(Clone, Copy, Debug, PartialEq, Eq, Structural)]
pub enum BindingMode {
    Original,
    Ghostty,
}

/// How the end of a file is drawn.
#[derive(Clone, Copy, Debug, PartialEq, Eq, Structural)]
pub enum EofStyle {
    Original,
    Classic,
    Ks3,
    /// No marker.
    Hidden,
}

/// The closing quote of the string whose contents start at `i`: a backslash
/// escapes the byte after it. `None` if the string never closes.
pub open spec fn str_end_from(b: Seq<u8>, i: int) -> Option<int>
    decreases b.len() + 2 - i,
{
    if i < 0 || i >= b.len() {
        None
    } else if b[i] == 0x5c {
        str_end_from(b, i + 2)
    } else if b[i] == 0x22 {
        Some(i)
    } else {
        str_end_from(b, i + 1)
    }
}

/// The closing quote of the string that opens at `start`.
pub open spec fn spec_string_end(b: Seq<u8>, start: int) -> Option<int> {
    str_end_from(b, start + 1)
}

/// The end of a `//` comment whose text starts at `i`: the next line feed, or `end`.
pub open spec fn line_end(b: Seq<u8>, i: int, end: int) -> int
    decreases end - i,
{
    if i >= end || b[i] == 0x0a {
        i
    } else {
        line_end(b, i + 1, end)
    }
}

/// The `*` of the `*/` that closes a block comment whose text starts at `i`;
/// `end - 1` (or `i`) where there is none.
pub open spec fn block_end(b: Seq<u8>, i: int, end: int) -> int
    decreases end - i,
{
    if i + 1 >= end || (b[i] == 0x2a && b[i + 1] == 0x2f) {
        i
    } else {
        block_end(b, i + 1, end)
    }
}

/// Skipping whitespace and comments from `i`, before `end`. `mode` is 0 outside
/// comments, 1 inside a `//` comment, 2 inside a `/* */` comment.
pub open spec fn skip_wsc(b: Seq<u8>, i: int, end: int, mode: int) -> int
    decreases end - i, mode,
{
    if mode == 1 {
        if 0 <= i < end && b[i] != 0x0a {
            skip_wsc(b, i + 1, end, 1)
        } else {
            skip_wsc(b, i, end, 0)
        }
    } else if mode == 2 {
        if 0 <= i && i + 1 < end && !(b[i] == 0x2a && b[i + 1] == 0x2f) {
            skip_wsc(b, i + 1, end, 2)
        } else if i + 2 <= end {
            skip_wsc(b, i + 2, end, 0)
        } else if i <= end {
            skip_wsc(b, end, end, 0)
        } else {
            i
        }
    } else if 0 <= i < end && is_ascii_whitespace(b[i]) {
        skip_wsc(b, i + 1, end, 0)
    } else if 0 <= i && i + 1 < end && b[i] == 0x2f && b[i + 1] == 0x2f {
        skip_wsc(b, i + 2, end, 1)
    } else if 0 <= i && i + 1 < end && b[i] == 0x2f && b[i + 1] == 0x2a {
        skip_wsc(b, i + 2, end, 2)
    } else {
        i
    }
}

/// The first offset at or after `i` that is neither whitespace nor inside a comment.
pub open spec fn spec_skip_ws_comments(b: Seq<u8>, i: int, end: int) -> int {
    skip_wsc(b, i, end, 0)
}

/// `end`, moved back over ASCII whitespace.
pub open spec fn spec_trim_end_ws(b: Seq<u8>, end: int) -> int
    decreases end,
{
    if end > 0 && is_ascii_whitespace(b[end - 1]) {
        spec_trim_end_ws(b, end - 1)
    } else {
        end
    }
}

/// The offset of the root object's `{`: the first byte after whitespace and comments.
pub open spec fn spec_root_start(b: Seq<u8>) -> Option<int> {
    let i = spec_skip_ws_comments(b, 0, b.len() as int);
    if i < b.len() && b[i] == 0x7b {
        Some(i)
    } else {
        None
    }
}

pub proof fn lemma_line_end(b: Seq<u8>, i: int, end: int)
    ensures
        i <= end ==> i <= line_end(b, i, end) <= end,
        i > end ==> line_end(b, i, end) == i,
    decreases end - i,
{
    if i < end && b[i] != 0x0a {
        lemma_line_end(b, i + 1, end);
    }
}

pub proof fn lemma_block_end(b: Seq<u8>, i: int, end: int)
    ensures
        i + 1 <= end ==> i <= block_end(b, i, end) <= end - 1,
        i + 1 > end ==> block_end(b, i, end) == i,
    decreases end - i,
{
    if i + 1 < end && !(b[i] == 0x2a && b[i + 1] == 0x2f) {
        lemma_block_end(b, i + 1, end);
    }
}

pub proof fn lemma_str_end(b: Seq<u8>, i: int)
    ensures
        str_end_from(b, i) matches Some(j) ==> i <= j < b.len() && b[j] == 0x22,
    decreases b.len() + 2 - i,
{
    if 0 <= i < b.len() {
        if b[i] == 0x5c {
            lemma_str_end(b, i + 2);
        } else if b[i] != 0x22 {
            lemma_str_end(b, i + 1);
        }
    }
}

/// Scanning the root object's body from `i` at bracket depth `depth` for the
/// bracket that closes it, passing over strings and comments.
pub open spec fn root_end_from(b: Seq<u8>, i: int, depth: int) -> Option<int>
    decreases b.len() + 2 - i,
{
    if i < 0 || i >= b.len() {
        None
    } else if b[i] == 0x22 {
        match str_end_from(b, i + 1) {
            None => None,
            Some(j) => {
                proof {
                    lemma_str_end(b, i + 1);
                }
                root_end_from(b, j + 1, depth)
            },
        }
    } else if b[i] == 0x2f && i + 1 < b.len() && b[i + 1] == 0x2f {
        proof {
            lemma_line_end(b, i + 2, b.len() as int);
        }
        root_end_from(b, line_end(b, i + 2, b.len() as int) + 1, depth)
    } else if b[i] == 0x2f && i + 1 < b.len() && b[i + 1] == 0x2a {
        proof {
            lemma_block_end(b, i + 2, b.len() as int);
        }
        root_end_from(b, block_end(b, i + 2, b.len() as int) + 2, depth)
    } else if b[i] == 0x7b || b[i] == 0x5b {
        root_end_from(b, i + 1, depth + 1)
    } else if b[i] == 0x7d || b[i] == 0x5d {
        if depth - 1 == 0 {
            Some(i)
        } else {
            root_end_from(b, i + 1, depth - 1)
        }
    } else {
        root_end_from(b, i + 1, depth)
    }
}

/// The bracket that closes the root object opened at `start`.
pub open spec fn spec_root_end(b: Seq<u8>, start: int) -> Option<int> {
    root_end_from(b, start + 1, 1)
}

/// Scanning a value from `i` at depth `depth` for its end before `end`: a comma
/// at depth 1, else `end`. `None` where a string in it never closes.
pub open spec fn value_end_from(b: Seq<u8>, i: int, end: int, depth: int) -> Option<int>
    decreases b.len() + 2 - i,
{
    if i >= end {
        Some(end)
    } else if i < 0 || end > b.len() {
        None
    } else if b[i] == 0x22 {
        match str_end_from(b, i + 1) {
            None => None,
            Some(j) => {
                proof {
                    lemma_str_end(b, i + 1);
                }
                value_end_from(b, j + 1, end, depth)
            },
        }
    } else if b[i] == 0x2f && i + 1 < end && b[i + 1] == 0x2f {
        proof {
            lemma_line_end(b, i + 2, end);
        }
        value_end_from(b, line_end(b, i + 2, end) + 1, end, depth)
    } else if b[i] == 0x2f && i + 1 < end && b[i + 1] == 0x2a {
        proof {
            lemma_block_end(b, i + 2, end);
        }
        value_end_from(b, block_end(b, i + 2, end) + 2, end, depth)
    } else if b[i] == 0x7b || b[i] == 0x5b {
        value_end_from(b, i + 1, end, depth + 1)
    } else if b[i] == 0x7d || b[i] == 0x5d {
        value_end_from(b, i + 1, end, depth - 1)
    } else if b[i] == 0x2c && depth == 1 {
        Some(i)
    } else {
        value_end_from(b, i + 1, end, depth)
    }
}

/// The end of the value that starts at `start`, before the root's end `end`.
pub open spec fn spec_value_end(b: Seq<u8>, start: int, end: int) -> Option<int> {
    value_end_from(b, start, end, 1)
}

/// Looking for the top-level entry named `key` from offset `i`, which is
/// between entries of the root object: the span of its value, whitespace
/// trimmed, if found. The value of an entry with another name is skipped
/// whole, so that keys inside nested objects and arrays are never matched.
pub open spec fn top_level_from(b: Seq<u8>, i: int, root_end: int, key: Seq<u8>) -> Option<(int, int)>
    decreases b.len() + 2 - i,
{
    if i < 0 || i >= root_end || root_end > b.len() {
        None
    } else {
        let j = spec_skip_ws_comments(b, i, root_end);
        if j < i || j >= root_end {
            None
        } else if b[j] != 0x22 {
            top_level_from(b, j + 1, root_end, key)
        } else {
            match spec_string_end(b, j) {
                None => None,
                Some(key_end) => {
                    proof {
                        lemma_str_end(b, j + 1);
                    }
                    let colon = spec_skip_ws_comments(b, key_end + 1, root_end);
                    if key_end < j {
                        None
                    } else if colon >= root_end || b[colon] != 0x3a {
                        top_level_from(b, key_end + 1, root_end, key)
                    } else {
                        let value_start = spec_skip_ws_comments(b, colon + 1, root_end);
                        match spec_value_end(b, value_start, root_end) {
                            None => None,
                            Some(e) => if b.subrange(j + 1, key_end) == key {
                                Some((value_start, spec_trim_end_ws(b, e)))
                            } else {
                                proof {
                                    lemma_skip_wsc(b, key_end + 1, root_end, 0);
                                    lemma_skip_wsc(b, colon + 1, root_end, 0);
                                    lemma_value_end_bounds(b, value_start, root_end, 1);
                                }
                                top_level_from(b, e, root_end, key)
                            },
                        }
                    }
                },
            }
        }
    }
}

/// The value span of the top-level entry `key` of the root object `(root_start, root_end)`.
pub open spec fn spec_top_level_value(b: Seq<u8>, root_start: int, root_end: int, key: Seq<u8>) -> Option<
    (int, int),
> {
    top_level_from(b, root_start + 1, root_end, key)
}

/// The text of `"key": value` as a new entry: after a comma where the object
/// has entries, each on a line of its own, indented by two spaces.
pub open spec fn new_entry(has_entries: bool, key: Seq<u8>, value: Seq<u8>) -> Seq<u8> {
    (if has_entries { seq![0x2cu8, 0x0au8, 0x20u8, 0x20u8] } else { seq![0x0au8, 0x20u8, 0x20u8] })
        + seq![0x22u8] + key + seq![0x22u8, 0x3au8, 0x20u8] + value + seq![0x0au8]
}

/// The text of `settings.json` with the top-level entry `key` set to the JSON text
/// `value`; `None` if the text holds no root object.
pub open spec fn spec_update_json_setting(text: Seq<u8>, key: Seq<u8>, value: Seq<u8>) -> Option<Seq<u8>> {
    match spec_root_start(text) {
        None => None,
        Some(rs) => match spec_root_end(text, rs) {
            None => None,
            Some(re) => match spec_top_level_value(text, rs, re, key) {
                Some((vs, ve)) => Some(text.take(vs) + value + text.skip(ve)),
                None => {
                    let has_entries = spec_skip_ws_comments(text, rs + 1, re) < re;
                    let at = if has_entries { spec_trim_end_ws(text, re) } else { rs + 1 };
                    Some(text.take(at) + new_entry(has_entries, key, value) + text.skip(re))
                },
            },
        },
    }
}


/// The end of a value lies between its start and the end of the scan.
pub proof fn lemma_value_end_bounds(b: Seq<u8>, i: int, end: int, depth: int)
    requires
        0 <= i <= end <= b.len(),
    ensures
        value_end_from(b, i, end, depth) matches Some(e) ==> i <= e <= end,
    decreases b.len() + 2 - i,
{
    if i < end {
        if b[i] == 0x22 {
            lemma_str_end(b, i + 1);
            match str_end_from(b, i + 1) {
                Some(j) => if j + 1 <= end {
                    lemma_value_end_bounds(b, j + 1, end, depth);
                },
                None => {},
            }
        } else if b[i] == 0x2f && i + 1 < end && b[i + 1] == 0x2f {
            lemma_line_end(b, i + 2, end);
            if line_end(b, i + 2, end) + 1 <= end {
                lemma_value_end_bounds(b, line_end(b, i + 2, end) + 1, end, depth);
            }
        } else if b[i] == 0x2f && i + 1 < end && b[i + 1] == 0x2a {
            lemma_block_end(b, i + 2, end);
            if block_end(b, i + 2, end) + 2 <= end {
                lemma_value_end_bounds(b, block_end(b, i + 2, end) + 2, end, depth);
            }
        } else if b[i] == 0x7b || b[i] == 0x5b {
            lemma_value_end_bounds(b, i + 1, end, depth + 1);
        } else if b[i] == 0x7d || b[i] == 0x5d {
            lemma_value_end_bounds(b, i + 1, end, depth - 1);
        } else if !(b[i] == 0x2c && depth == 1) {
            lemma_value_end_bounds(b, i + 1, end, depth);
        }
    }
}

/// Skipping whitespace and comments stays within `i..=end`.
pub proof fn lemma_skip_wsc(b: Seq<u8>, i: int, end: int, mode: int)
    requires
        0 <= i,
        mode == 0 || mode == 1 || mode == 2,
        mode != 0 ==> i <= end,
    ensures
        i <= skip_wsc(b, i, end, mode),
        i <= end ==> skip_wsc(b, i, end, mode) <= end,
    decreases end - i, mode,
{
    if mode == 1 {
        if i < end && b[i] != 0x0a {
            lemma_skip_wsc(b, i + 1, end, 1);
        } else {
            lemma_skip_wsc(b, i, end, 0);
        }
    } else if mode == 2 {
        if i + 1 < end && !(b[i] == 0x2a && b[i + 1] == 0x2f) {
            lemma_skip_wsc(b, i + 1, end, 2);
        } else if i + 2 <= end {
            lemma_skip_wsc(b, i + 2, end, 0);
        } else {
            lemma_skip_wsc(b, end, end, 0);
        }
    } else if i < end && is_ascii_whitespace(b[i]) {
        lemma_skip_wsc(b, i + 1, end, 0);
    } else if i + 1 < end && b[i] == 0x2f && b[i + 1] == 0x2f {
        lemma_skip_wsc(b, i + 2, end, 1);
    } else if i + 1 < end && b[i] == 0x2f && b[i + 1] == 0x2a {
        lemma_skip_wsc(b, i + 2, end, 2);
    }
}

proof fn lemma_trim_end(b: Seq<u8>, end: int)
    requires
        0 <= end,
    ensures
        0 <= spec_trim_end_ws(b, end) <= end,
    decreases end,
{
    if end > 0 && is_ascii_whitespace(b[end - 1]) {
        lemma_trim_end(b, end - 1);
    }
}

fn is_ws(b: u8) -> (r: bool)
    ensures
        r == is_ascii_whitespace(b),
{
    b == 0x20 || b == 0x09 || b == 0x0a || b == 0x0c || b == 0x0d
}

/// The closing quote of the string that opens at `start`, if it closes.
fn string_end(bytes: &[u8], start: usize) -> (r: Option<usize>)
    requires
        start < bytes@.len() <= isize::MAX,
    ensures
        match r {
            Some(e) => spec_string_end(bytes@, start as int) == Some(e as int),
            None => spec_string_end(bytes@, start as int) is None,
        },
{
    let mut i = start + 1;
    while i < bytes.len()
        invariant
            start < i <= bytes@.len() + 1,
            bytes@.len() <= isize::MAX,
            str_end_from(bytes@, i as int) == spec_string_end(bytes@, start as int),
        decreases bytes@.len() + 2 - i,
    {
        let c = bytes[i];
        if c == 0x5c {
            i += 2;
        } else if c == 0x22 {
            return Some(i);
        } else {
            i += 1;
        }
    }
    None
}

/// The first offset at or after `i` that is neither ASCII whitespace nor inside
/// a `//` or `/* */` comment, looking no further than `end`.
pub(crate) fn skip_ws_comments(bytes: &[u8], start: usize, end: usize) -> (r: usize)
    requires
        start <= bytes@.len(),
        end <= bytes@.len() <= isize::MAX,
    ensures
        r == spec_skip_ws_comments(bytes@, start as int, end as int),
        start <= r,
        start <= end ==> r <= end,
{
    proof {
        lemma_skip_wsc(bytes@, start as int, end as int, 0);
    }
    let ghost target = spec_skip_ws_comments(bytes@, start as int, end as int);
    let ghost i0 = start as int;
    let mut i = start;
    loop
        invariant
            i <= bytes@.len(),
            end <= bytes@.len() <= isize::MAX,
            skip_wsc(bytes@, i as int, end as int, 0) == target,
            i0 <= i,
            i0 == start,
            target == spec_skip_ws_comments(bytes@, start as int, end as int),
            i0 <= end ==> target <= end,
        decreases bytes@.len() + 2 - i,
    {
        let ghost i_start = i;
        while i < end && is_ws(bytes[i])
            invariant
                i_start <= i,
                i <= bytes@.len(),
                end <= bytes@.len() <= isize::MAX,
                skip_wsc(bytes@, i as int, end as int, 0) == target,
                    i0 <= i,
            decreases end - i,
        {
            i += 1;
        }
        if i + 1 < end && bytes[i] == 0x2f && bytes[i + 1] == 0x2f {
            i += 2;
            while i < end && bytes[i] != 0x0a
                invariant
                    i_start < i,
                    i <= end,
                    end <= bytes@.len() <= isize::MAX,
                    skip_wsc(bytes@, i as int, end as int, 1) == target,
                    i0 <= i,
                decreases end - i,
            {
                i += 1;
            }
        } else if i + 1 < end && bytes[i] == 0x2f && bytes[i + 1] == 0x2a {
            i += 2;
            while i + 1 < end && !(bytes[i] == 0x2a && bytes[i + 1] == 0x2f)
                invariant
                    i_start < i,
                    i <= end,
                    end <= bytes@.len() <= isize::MAX,
                    skip_wsc(bytes@, i as int, end as int, 2) == target,
                    i0 <= i,
                decreases end - i,
            {
                i += 1;
            }
            i = if i + 2 < end { i + 2 } else { end };
        } else {
            return i;
        }
    }
}

/// `end`, moved back over ASCII whitespace.
fn trim_end_ws(bytes: &[u8], end: usize) -> (r: usize)
    requires
        end <= bytes@.len(),
    ensures
        r == spec_trim_end_ws(bytes@, end as int),
{
    let mut e = end;
    while e > 0 && is_ws(bytes[e - 1])
        invariant
            e <= end,
            end <= bytes@.len(),
            spec_trim_end_ws(bytes@, e as int) == spec_trim_end_ws(bytes@, end as int),
        decreases e,
    {
        e -= 1;
    }
    e
}

/// The offset of the root object's `{`.
fn find_root_object_start(bytes: &[u8]) -> (r: Option<usize>)
    requires
        bytes@.len() <= isize::MAX,
    ensures
        match r {
            Some(x) => spec_root_start(bytes@) == Some(x as int),
            None => spec_root_start(bytes@) is None,
        },
{
    let i = skip_ws_comments(bytes, 0, bytes.len());
    if i < bytes.len() && bytes[i] == 0x7b {
        Some(i)
    } else {
        None
    }
}

/// The bracket that closes the root object opened at `start`.
fn find_root_object_end(bytes: &[u8], start: usize) -> (r: Option<usize>)
    requires
        start < bytes@.len() <= isize::MAX,
    ensures
        match r {
            Some(x) => spec_root_end(bytes@, start as int) == Some(x as int) && start < x < bytes@.len(),
            None => spec_root_end(bytes@, start as int) is None,
        },
{
    let mut i = start + 1;
    let mut depth: isize = 1;
    while i < bytes.len()
        invariant
            start < i <= bytes@.len() + 2,
            bytes@.len() <= isize::MAX,
            1 <= depth <= i - start,
            root_end_from(bytes@, i as int, depth as int) == spec_root_end(bytes@, start as int),
        decreases bytes@.len() + 2 - i,
    {
        let ghost i_start = i;
        let c = bytes[i];
        if c == 0x22 {
            proof {
                lemma_str_end(bytes@, i + 1);
            }
            match string_end(bytes, i) {
                Some(e) => {
                    i = e;
                },
                None => {
                    return None;
                },
            }
        } else if c == 0x2f && i + 1 < bytes.len() && bytes[i + 1] == 0x2f {
            i += 2;
            while i < bytes.len() && bytes[i] != 0x0a
                invariant
                    i_start < i,
                    start < i <= bytes@.len(),
                    bytes@.len() <= isize::MAX,
                    1 <= depth <= i - start,
                    root_end_from(bytes@, line_end(bytes@, i as int, bytes@.len() as int) + 1, depth as int)
                        == spec_root_end(bytes@, start as int),
                decreases bytes@.len() - i,
            {
                i += 1;
            }
        } else if c == 0x2f && i + 1 < bytes.len() && bytes[i + 1] == 0x2a {
            i += 2;
            while i + 1 < bytes.len() && !(bytes[i] == 0x2a && bytes[i + 1] == 0x2f)
                invariant
                    i_start < i,
                    start < i <= bytes@.len(),
                    bytes@.len() <= isize::MAX,
                    1 <= depth <= i - start,
                    root_end_from(bytes@, block_end(bytes@, i as int, bytes@.len() as int) + 2, depth as int)
                        == spec_root_end(bytes@, start as int),
                decreases bytes@.len() - i,
            {
                i += 1;
            }
            i += 1;
        } else if c == 0x7b || c == 0x5b {
            depth += 1;
        } else if c == 0x7d || c == 0x5d {
            depth -= 1;
            if depth == 0 {
                return Some(i);
            }
        }
        i += 1;
    }
    None
}


/// The end of the value that starts at `start`: the comma after it at its own
/// level, or `root_end`.
fn find_value_end(bytes: &[u8], start: usize, root_end: usize) -> (r: Option<usize>)
    requires
        root_end < bytes@.len() <= isize::MAX,
    ensures
        match r {
            Some(x) => spec_value_end(bytes@, start as int, root_end as int) == Some(x as int) && x <= root_end,
            None => spec_value_end(bytes@, start as int, root_end as int) is None,
        },
{
    if start >= root_end {
        return Some(root_end);
    }
    let mut i = start;
    let mut depth: isize = 1;
    while i < root_end
        invariant
            start <= i <= bytes@.len() + 2,
            start < root_end < bytes@.len() <= isize::MAX,
            1 - (i - start) <= depth <= 1 + (i - start),
            value_end_from(bytes@, i as int, root_end as int, depth as int) == spec_value_end(
                bytes@,
                start as int,
                root_end as int,
            ),
        decreases bytes@.len() + 2 - i,
    {
        let ghost i_start = i;
        let c = bytes[i];
        if c == 0x22 {
            proof {
                lemma_str_end(bytes@, i + 1);
            }
            match string_end(bytes, i) {
                Some(e) => {
                    i = e;
                },
                None => {
                    return None;
                },
            }
        } else if c == 0x2f && i + 1 < root_end && bytes[i + 1] == 0x2f {
            i += 2;
            while i < root_end && bytes[i] != 0x0a
                invariant
                    i_start < i <= root_end,
                    start <= i,
                    start < root_end < bytes@.len() <= isize::MAX,
                    1 - (i - start) <= depth <= 1 + (i - start),
                    value_end_from(bytes@, line_end(bytes@, i as int, root_end as int) + 1, root_end as int, depth as int)
                        == spec_value_end(bytes@, start as int, root_end as int),
                decreases root_end - i,
            {
                i += 1;
            }
        } else if c == 0x2f && i + 1 < root_end && bytes[i + 1] == 0x2a {
            i += 2;
            while i + 1 < root_end && !(bytes[i] == 0x2a && bytes[i + 1] == 0x2f)
                invariant
                    i_start < i <= root_end,
                    start <= i,
                    start < root_end < bytes@.len() <= isize::MAX,
                    1 - (i - start) <= depth <= 1 + (i - start),
                    value_end_from(bytes@, block_end(bytes@, i as int, root_end as int) + 2, root_end as int, depth as int)
                        == spec_value_end(bytes@, start as int, root_end as int),
                decreases root_end - i,
            {
                i += 1;
            }
            i += 1;
        } else if c == 0x7b || c == 0x5b {
            depth += 1;
        } else if c == 0x7d || c == 0x5d {
            depth -= 1;
        } else if c == 0x2c && depth == 1 {
            return Some(i);
        }
        i += 1;
    }
    Some(root_end)
}

/// The value span of the top-level entry `key` of the root object
/// `root_start..=root_end`, whitespace trimmed, if there is one.
fn find_top_level_value(bytes: &[u8], root_start: usize, root_end: usize, key: &[u8]) -> (r: Option<
    (usize, usize),
>)
    requires
        root_start < root_end < bytes@.len() <= isize::MAX,
    ensures
        match r {
            Some((a, b)) => spec_top_level_value(bytes@, root_start as int, root_end as int, key@) == Some(
                (a as int, b as int),
            ) && a <= root_end && b <= root_end,
            None => spec_top_level_value(bytes@, root_start as int, root_end as int, key@) is None,
        },
{
    let mut i = root_start + 1;
    while i < root_end
        invariant
            root_start < i,
            root_start < root_end < bytes@.len() <= isize::MAX,
            i <= bytes@.len(),
            top_level_from(bytes@, i as int, root_end as int, key@) == spec_top_level_value(
                bytes@,
                root_start as int,
                root_end as int,
                key@,
            ),
        decreases bytes@.len() + 2 - i,
    {
        let j = skip_ws_comments(bytes, i, root_end);
        if j >= root_end {
            return None;
        }
        if bytes[j] != 0x22 {
            i = j + 1;
            continue;
        }
        let key_start = j + 1;
        proof {
            lemma_str_end(bytes@, j + 1);
        }
        let key_end = match string_end(bytes, j) {
            Some(e) => e,
            None => {
                return None;
            },
        };
        let colon = skip_ws_comments(bytes, key_end + 1, root_end);
        if colon >= root_end || bytes[colon] != 0x3a {
            i = key_end + 1;
            continue;
        }
        let name = &bytes[key_start..key_end];
        assert(name@ =~= bytes@.subrange(j + 1, key_end as int));
        let value_start = skip_ws_comments(bytes, colon + 1, root_end);
        let e = match find_value_end(bytes, value_start, root_end) {
            Some(e) => e,
            None => {
                return None;
            },
        };
        if crate::text::bytes_eq(name, key) {
            proof {
                lemma_trim_end(bytes@, e as int);
            }
            let value_end = trim_end_ws(bytes, e);
            return Some((value_start, value_end));
        }
        proof {
            lemma_value_end_bounds(bytes@, value_start as int, root_end as int, 1);
        }
        i = e;
    }
    None
}

/// [`update_json_setting`] on bytes.
fn update_json_bytes(bytes: &[u8], key: &[u8], value: &[u8]) -> (r: Option<Vec<u8>>)
    requires
        bytes@.len() <= isize::MAX,
    ensures
        match r {
            Some(out) => spec_update_json_setting(bytes@, key@, value@) == Some(out@),
            None => spec_update_json_setting(bytes@, key@, value@) is None,
        },
{
    let root_start = match find_root_object_start(bytes) {
        Some(x) => x,
        None => {
            return None;
        },
    };
    let root_end = match find_root_object_end(bytes, root_start) {
        Some(x) => x,
        None => {
            return None;
        },
    };
    if let Some((value_start, value_end)) = find_top_level_value(bytes, root_start, root_end, key) {
        let mut out: Vec<u8> = Vec::new();
        extend_bytes(&mut out, &bytes[0..value_start]);
        extend_bytes(&mut out, value);
        extend_bytes(&mut out, &bytes[value_end..bytes.len()]);
        assert(out@ =~= bytes@.take(value_start as int) + value@ + bytes@.skip(value_end as int));
        return Some(out);
    }
    let has_entries = skip_ws_comments(bytes, root_start + 1, root_end) < root_end;
    proof {
        lemma_trim_end(bytes@, root_end as int);
    }
    let insert_at = if has_entries { trim_end_ws(bytes, root_end) } else { root_start + 1 };
    let mut out: Vec<u8> = Vec::new();
    extend_bytes(&mut out, &bytes[0..insert_at]);
    if has_entries {
        out.push(0x2c);
    }
    out.push(0x0a);
    out.push(0x20);
    out.push(0x20);
    out.push(0x22);
    extend_bytes(&mut out, key);
    out.push(0x22);
    out.push(0x3a);
    out.push(0x20);
    extend_bytes(&mut out, value);
    out.push(0x0a);
    extend_bytes(&mut out, &bytes[root_end..bytes.len()]);
    assert(out@ =~= bytes@.take(insert_at as int) + new_entry(has_entries, key@, value@) + bytes@.skip(
        root_end as int,
    ));
    Some(out)
}

/// The text of `settings.json` with the top-level entry `key` set to the JSON
/// text `value`: the entry's value is replaced where the key exists, else the
/// entry is added at the end of the root object. `None` if the text holds no
/// root object.
pub fn update_json_setting(text: &str, key: &str, value: &str) -> (r: Option<Vec<u8>>)
    requires
        text.spec_bytes().len() <= isize::MAX,
    ensures
        match r {
            Some(out) => spec_update_json_setting(text.spec_bytes(), key.spec_bytes(), value.spec_bytes())
                == Some(out@),
            None => spec_update_json_setting(text.spec_bytes(), key.spec_bytes(), value.spec_bytes()) is None,
        },
{
    update_json_bytes(str_bytes(text), str_bytes(key), str_bytes(value))
}


/// The editor's settings, as kept in memory.
#[derive(Clone)]
pub struct Settings {
    /// Where `settings.json` was found, as bytes; empty before the first load.
    pub path: Vec<u8>,
    /// File glob to language id.
    pub file_associations: Vec<(Vec<u8>, Vec<u8>)>,
    pub word_wrap: bool,
    pub word_wrap_column: CoordType,
    pub ruler: bool,
    pub center_text: bool,
    pub highlight_current_char: bool,
    pub editor_color: EditorColor,
}

/// A word-wrap column as the editor keeps it: 0 (off) for zero or less, else at least 20.
pub open spec fn spec_normalize_column(column: int) -> int {
    if column > 0 {
        if column >= 20 {
            column
        } else {
            20
        }
    } else {
        0
    }
}

/// A word-wrap column as the editor keeps it: 0 (off) for zero or less, else at least 20.
pub fn normalize_word_wrap_column(column: CoordType) -> (r: CoordType)
    ensures
        r == spec_normalize_column(column as int),
{
    if column > 0 {
        if column >= 20 {
            column
        } else {
            20
        }
    } else {
        0
    }
}

/// The text `write_setting` starts from: the file's text, or `{}` and a line
/// feed where there is no file or only whitespace.
pub open spec fn spec_base_text(existing: Option<Seq<u8>>) -> Seq<u8> {
    match existing {
        Some(t) => if spec_trim(t).len() == 0 {
            seq![0x7bu8, 0x7du8, 0x0au8]
        } else {
            t
        },
        None => seq![0x7bu8, 0x7du8, 0x0au8],
    }
}

/// The new text of `settings.json` with `key` set to `value`, starting from its
/// current text (`None` where the file does not exist).
pub open spec fn spec_write_setting(existing: Option<Seq<u8>>, key: Seq<u8>, value: Seq<u8>) -> Option<Seq<u8>> {
    spec_update_json_setting(spec_base_text(existing), key, value)
}

/// The JSON text of a boolean.
pub open spec fn bool_text(b: bool) -> Seq<u8> {
    if b {
        "true".spec_bytes()
    } else {
        "false".spec_bytes()
    }
}

/// The JSON text of an editor color.
pub open spec fn color_text(c: EditorColor) -> Seq<u8> {
    match c {
        EditorColor::Original => "\"original\"".spec_bytes(),
        EditorColor::WhiteOnBlue => "\"whiteOnBlue\"".spec_bytes(),
    }
}

/// Why the text a setting is written into is refused, if it is: it is not
/// valid JSON (see [`spec_parse_json`]), or its value is not an object.
pub open spec fn base_text_error(existing: Option<Seq<u8>>) -> Option<Error> {
    match spec_parse_json(spec_base_text(existing)) {
        None => Some(Error::SettingsInvalid("Invalid JSON")),
        Some(v) => if v is Object {
            None
        } else {
            Some(Error::SettingsInvalid("Non-object root"))
        },
    }
}

/// The outcome of writing a setting: the new file text, or the error for a
/// file that is not valid JSON, or holds no root object.
pub open spec fn write_outcome(r: Result<Vec<u8>, Error>, existing: Option<Seq<u8>>, key: Seq<u8>, value: Seq<u8>) -> bool {
    match r {
        Ok(t) => base_text_error(existing) is None && spec_write_setting(existing, key, value) == Some(t@),
        Err(e) => match base_text_error(existing) {
            Some(b) => e == b,
            None => spec_write_setting(existing, key, value) is None && e == Error::SettingsInvalid(
                "Non-object root",
            ),
        },
    }
}

/// The view of an optional string's bytes.
pub open spec fn opt_str_bytes(s: Option<&str>) -> Option<Seq<u8>> {
    match s {
        Some(t) => Some(t.spec_bytes()),
        None => None,
    }
}

impl Settings {
    /// The settings before anything was loaded: everything off, original colors.
    pub fn new() -> (s: Settings)
        ensures
            s.path@ == Seq::<u8>::empty(),
            s.file_associations@ == Seq::<(Vec<u8>, Vec<u8>)>::empty(),
            !s.word_wrap,
            s.word_wrap_column == 0,
            !s.ruler,
            !s.center_text,
            !s.highlight_current_char,
            s.editor_color == EditorColor::Original,
    {
        Settings {
            path: Vec::new(),
            file_associations: Vec::new(),
            word_wrap: false,
            word_wrap_column: 0,
            ruler: false,
            center_text: false,
            highlight_current_char: false,
            editor_color: EditorColor::Original,
        }
    }

    /// The new text of `settings.json` with `key` set to the JSON text `value`,
    /// from its current text (`None` where the file does not exist); the
    /// current text must be valid JSON holding an object.
    pub fn write_setting(existing: Option<&str>, key: &str, value: &str) -> (r: Result<Vec<u8>, Error>)
        requires
            match existing {
                Some(t) => t.spec_bytes().len() <= isize::MAX,
                None => true,
            },
        ensures
            write_outcome(r, opt_str_bytes(existing), key.spec_bytes(), value.spec_bytes()),
    {
        Self::write_setting_bytes(existing, key, str_bytes(value))
    }

    fn write_setting_bytes(existing: Option<&str>, key: &str, value: &[u8]) -> (r: Result<Vec<u8>, Error>)
        requires
            match existing {
                Some(t) => t.spec_bytes().len() <= isize::MAX,
                None => true,
            },
        ensures
            write_outcome(r, opt_str_bytes(existing), key.spec_bytes(), value@),
    {
        let text: &str = match existing {
            Some(t) => if trim(str_bytes(t)).len() == 0 {
                "{}\n"
            } else {
                t
            },
            None => "{}\n",
        };
        proof {
            reveal_strlit("{}\n");
            vstd::string::is_ascii_spec_bytes("{}\n");
            assert("{}\n".spec_bytes() =~= seq![0x7bu8, 0x7du8, 0x0au8]);
        }
        match parse_json(str_bytes(text)) {
            None => return Err(Error::SettingsInvalid("Invalid JSON")),
            Some(JsonValue::Object(_)) => {},
            Some(_) => return Err(Error::SettingsInvalid("Non-object root")),
        }
        match update_json_bytes(str_bytes(text), str_bytes(key), value) {
            Some(t) => Ok(t),
            None => Err(Error::SettingsInvalid("Non-object root")),
        }
    }

    /// Turns word wrap on or off: returns the new text of `settings.json`,
    /// found at `path` (empty where there is no configuration directory),
    /// from its current text `existing`; where that succeeds, takes the
    /// setting on and records `path` as where the settings are kept. A text
    /// that is not valid JSON, or not an object, is refused (see
    /// [`write_outcome`]).
    pub fn set_word_wrap(&mut self, enabled: bool, path: &[u8], existing: Option<&str>) -> (r: Result<Vec<u8>, Error>)
        requires
            match existing {
                Some(t) => t.spec_bytes().len() <= isize::MAX,
                None => true,
            },
        ensures
            r is Ok ==> final(self).path@ == path@,
            r is Err ==> final(self).path@ == old(self).path@,
            final(self).file_associations@ == old(self).file_associations@,
            write_outcome(r, opt_str_bytes(existing), "editor.wordWrap".spec_bytes(), bool_text(enabled)),
            r is Ok ==> final(self).word_wrap == enabled,
            r is Err ==> final(self).word_wrap == old(self).word_wrap,
            final(self).word_wrap_column == old(self).word_wrap_column,
            final(self).ruler == old(self).ruler,
            final(self).center_text == old(self).center_text,
            final(self).highlight_current_char == old(self).highlight_current_char,
            final(self).editor_color == old(self).editor_color,
    {
        let r = Self::write_setting(existing, "editor.wordWrap", if enabled { "true" } else { "false" });
        if r.is_ok() {
            self.path = vstd::slice::slice_to_vec(path);
            self.word_wrap = enabled;
        }
        r
    }

    /// Turns the ruler on or off (see [`Settings::set_word_wrap`]).
    pub fn set_ruler(&mut self, enabled: bool, path: &[u8], existing: Option<&str>) -> (r: Result<Vec<u8>, Error>)
        requires
            match existing {
                Some(t) => t.spec_bytes().len() <= isize::MAX,
                None => true,
            },
        ensures
            r is Ok ==> final(self).path@ == path@,
            r is Err ==> final(self).path@ == old(self).path@,
            final(self).file_associations@ == old(self).file_associations@,
            write_outcome(r, opt_str_bytes(existing), "editor.ruler".spec_bytes(), bool_text(enabled)),
            r is Ok ==> final(self).ruler == enabled,
            r is Err ==> final(self).ruler == old(self).ruler,
            final(self).word_wrap == old(self).word_wrap,
            final(self).word_wrap_column == old(self).word_wrap_column,
            final(self).center_text == old(self).center_text,
            final(self).highlight_current_char == old(self).highlight_current_char,
            final(self).editor_color == old(self).editor_color,
    {
        let r = Self::write_setting(existing, "editor.ruler", if enabled { "true" } else { "false" });
        if r.is_ok() {
            self.path = vstd::slice::slice_to_vec(path);
            self.ruler = enabled;
        }
        r
    }

    /// Turns centered text on or off (see [`Settings::set_word_wrap`]).
    pub fn set_center_text(&mut self, enabled: bool, path: &[u8], existing: Option<&str>) -> (r: Result<Vec<u8>, Error>)
        requires
            match existing {
                Some(t) => t.spec_bytes().len() <= isize::MAX,
                None => true,
            },
        ensures
            r is Ok ==> final(self).path@ == path@,
            r is Err ==> final(self).path@ == old(self).path@,
            final(self).file_associations@ == old(self).file_associations@,
            write_outcome(r, opt_str_bytes(existing), "editor.centerText".spec_bytes(), bool_text(enabled)),
            r is Ok ==> final(self).center_text == enabled,
            r is Err ==> final(self).center_text == old(self).center_text,
            final(self).word_wrap == old(self).word_wrap,
            final(self).word_wrap_column == old(self).word_wrap_column,
            final(self).ruler == old(self).ruler,
            final(self).highlight_current_char == old(self).highlight_current_char,
            final(self).editor_color == old(self).editor_color,
    {
        let r = Self::write_setting(existing, "editor.centerText", if enabled { "true" } else { "false" });
        if r.is_ok() {
            self.path = vstd::slice::slice_to_vec(path);
            self.center_text = enabled;
        }
        r
    }

    /// Turns highlighting of the current character on or off (see [`Settings::set_word_wrap`]).
    pub fn set_highlight_current_char(&mut self, enabled: bool, path: &[u8], existing: Option<&str>) -> (r: Result<
        Vec<u8>,
        Error,
    >)
        requires
            match existing {
                Some(t) => t.spec_bytes().len() <= isize::MAX,
                None => true,
            },
        ensures
            r is Ok ==> final(self).path@ == path@,
            r is Err ==> final(self).path@ == old(self).path@,
            final(self).file_associations@ == old(self).file_associations@,
            write_outcome(
                r,
                opt_str_bytes(existing),
                "editor.highlightCurrentChar".spec_bytes(),
                bool_text(enabled),
            ),
            r is Ok ==> final(self).highlight_current_char == enabled,
            r is Err ==> final(self).highlight_current_char == old(self).highlight_current_char,
            final(self).word_wrap == old(self).word_wrap,
            final(self).word_wrap_column == old(self).word_wrap_column,
            final(self).ruler == old(self).ruler,
            final(self).center_text == old(self).center_text,
            final(self).editor_color == old(self).editor_color,
    {
        let r = Self::write_setting(
            existing,
            "editor.highlightCurrentChar",
            if enabled { "true" } else { "false" },
        );
        if r.is_ok() {
            self.path = vstd::slice::slice_to_vec(path);
            self.highlight_current_char = enabled;
        }
        r
    }

    /// Sets the color scheme (see [`Settings::set_word_wrap`]).
    pub fn set_editor_color(&mut self, color: EditorColor, path: &[u8], existing: Option<&str>) -> (r: Result<Vec<u8>, Error>)
        requires
            match existing {
                Some(t) => t.spec_bytes().len() <= isize::MAX,
                None => true,
            },
        ensures
            r is Ok ==> final(self).path@ == path@,
            r is Err ==> final(self).path@ == old(self).path@,
            final(self).file_associations@ == old(self).file_associations@,
            write_outcome(r, opt_str_bytes(existing), "editor.color".spec_bytes(), color_text(color)),
            r is Ok ==> final(self).editor_color == color,
            r is Err ==> final(self).editor_color == old(self).editor_color,
            final(self).word_wrap == old(self).word_wrap,
            final(self).word_wrap_column == old(self).word_wrap_column,
            final(self).ruler == old(self).ruler,
            final(self).center_text == old(self).center_text,
            final(self).highlight_current_char == old(self).highlight_current_char,
    {
        let value = match color {
            EditorColor::Original => "\"original\"",
            EditorColor::WhiteOnBlue => "\"whiteOnBlue\"",
        };
        let r = Self::write_setting(existing, "editor.color", value);
        if r.is_ok() {
            self.path = vstd::slice::slice_to_vec(path);
            self.editor_color = color;
        }
        r
    }

    /// Sets the word-wrap column, normalized (see [`normalize_word_wrap_column`]
    /// and [`Settings::set_word_wrap`]).
    pub fn set_word_wrap_column(&mut self, column: CoordType, path: &[u8], existing: Option<&str>) -> (r: Result<
        Vec<u8>,
        Error,
    >)
        requires
            match existing {
                Some(t) => t.spec_bytes().len() <= isize::MAX,
                None => true,
            },
        ensures
            r is Ok ==> final(self).path@ == path@,
            r is Err ==> final(self).path@ == old(self).path@,
            final(self).file_associations@ == old(self).file_associations@,
            write_outcome(
                r,
                opt_str_bytes(existing),
                "editor.wordWrapColumn".spec_bytes(),
                decimal(spec_normalize_column(column as int) as nat),
            ),
            r is Ok ==> final(self).word_wrap_column == spec_normalize_column(column as int),
            r is Err ==> final(self).word_wrap_column == old(self).word_wrap_column,
            final(self).word_wrap == old(self).word_wrap,
            final(self).ruler == old(self).ruler,
            final(self).center_text == old(self).center_text,
            final(self).highlight_current_char == old(self).highlight_current_char,
            final(self).editor_color == old(self).editor_color,
    {
        let column = normalize_word_wrap_column(column);
        let mut digits: Vec<u8> = Vec::new();
        push_decimal(&mut digits, column as u64);
        let r = Self::write_setting_bytes(existing, "editor.wordWrapColumn", digits.as_slice());
        if r.is_ok() {
            self.path = vstd::slice::slice_to_vec(path);
            self.word_wrap_column = column;
        }
        r
    }
}


/// A JSON value as the settings read it. A number is held as the column it
/// is read as: its integer part, clamped to the range of `CoordType`.
pub enum JsonValue {
    Null,
    Bool(bool),
    Number(CoordType),
    String(Vec<u8>),
    Array(Vec<JsonValue>),
    /// The entries in file order, keys as UTF-8.
    Object(Vec<(Vec<u8>, JsonValue)>),
}

/// The value of the first entry of `entries` below `k` whose key is `key`.
pub open spec fn json_get_upto(entries: Seq<(Vec<u8>, JsonValue)>, key: Seq<u8>, k: int) -> Option<JsonValue>
    decreases k,
{
    if k <= 0 || k > entries.len() {
        None
    } else {
        match json_get_upto(entries, key, k - 1) {
            Some(v) => Some(v),
            None => if entries[k - 1].0@ == key {
                Some(entries[k - 1].1)
            } else {
                None
            },
        }
    }
}

/// The value of the first entry whose key is `key`.
pub open spec fn json_get(entries: Seq<(Vec<u8>, JsonValue)>, key: Seq<u8>) -> Option<JsonValue> {
    json_get_upto(entries, key, entries.len() as int)
}

/// A switch: `true` or `false`, or the text `on` or `true` (on) or any other
/// text (off). `None` where the key is missing or holds something else.
pub open spec fn json_flag(entries: Seq<(Vec<u8>, JsonValue)>, key: Seq<u8>) -> Option<bool> {
    match json_get(entries, key) {
        Some(JsonValue::Bool(b)) => Some(b),
        Some(JsonValue::String(s)) => Some(s@ == "on".spec_bytes() || s@ == "true".spec_bytes()),
        _ => None,
    }
}

/// A file glob as the settings store it: one without a `/` matches the file
/// name in any directory.
pub open spec fn association_glob(key: Seq<u8>) -> Seq<u8> {
    if key.contains(0x2Fu8) {
        key
    } else {
        seq![0x2Au8, 0x2Au8, 0x2Fu8] + key
    }
}

/// The ids of the known languages, as bytes.
pub open spec fn id_bytes(ids: Seq<&'static str>) -> Seq<Seq<u8>> {
    ids.map_values(|s: &'static str| s.spec_bytes())
}

/// The file associations taken from the first `k` entries of
/// `files.associations` (glob, language id), and the error that stopped the
/// reading, if one did: a value that is no text, or names no known language.
pub open spec fn associations_upto(entries: Seq<(Vec<u8>, JsonValue)>, ids: Seq<&'static str>, k: int) -> (
    Seq<(Seq<u8>, Seq<u8>)>,
    Option<&'static str>,
)
    decreases k,
{
    if k <= 0 || k > entries.len() {
        (Seq::empty(), None)
    } else {
        let (done, err) = associations_upto(entries, ids, k - 1);
        if err is Some {
            (done, err)
        } else {
            match entries[k - 1].1 {
                JsonValue::String(id) => if id_bytes(ids).contains(id@) {
                    (done.push((association_glob(entries[k - 1].0@), id@)), None)
                } else {
                    (done, Some("language ID"))
                },
                _ => (done, Some("files.associations")),
            }
        }
    }
}

/// What `files.associations` of the root object adds, and the error, if any.
pub open spec fn spec_associations(entries: Seq<(Vec<u8>, JsonValue)>, ids: Seq<&'static str>) -> (
    Seq<(Seq<u8>, Seq<u8>)>,
    Option<&'static str>,
) {
    match json_get(entries, "files.associations".spec_bytes()) {
        Some(JsonValue::Object(a)) => associations_upto(a@, ids, a@.len() as int),
        _ => (Seq::empty(), None),
    }
}

/// The file associations as byte sequences.
pub open spec fn associations_view(v: Seq<(Vec<u8>, Vec<u8>)>) -> Seq<(Seq<u8>, Seq<u8>)> {
    v.map_values(|a: (Vec<u8>, Vec<u8>)| (a.0@, a.1@))
}

/// The first entry of `entries` whose key is `key`.
fn json_lookup<'a>(entries: &'a Vec<(Vec<u8>, JsonValue)>, key: &[u8]) -> (r: Option<&'a JsonValue>)
    ensures
        match r {
            Some(v) => json_get(entries@, key@) == Some(*v),
            None => json_get(entries@, key@) is None,
        },
{
    let mut i: usize = 0;
    while i < entries.len()
        invariant
            i <= entries@.len(),
            json_get_upto(entries@, key@, i as int) is None,
        decreases entries@.len() - i,
    {
        if crate::text::bytes_eq(entries[i].0.as_slice(), key) {
            proof {
                lemma_json_get_found(entries@, key@, i as int);
            }
            return Some(&entries[i].1);
        }
        i += 1;
    }
    None
}

/// The first entry with the key, once found, stays the first.
proof fn lemma_json_get_found(entries: Seq<(Vec<u8>, JsonValue)>, key: Seq<u8>, i: int)
    requires
        0 <= i < entries.len(),
        json_get_upto(entries, key, i) is None,
        entries[i].0@ == key,
    ensures
        json_get(entries, key) == Some(entries[i].1),
{
    lemma_json_get_mono(entries, key, i + 1, entries.len() as int);
}

proof fn lemma_json_get_mono(entries: Seq<(Vec<u8>, JsonValue)>, key: Seq<u8>, k: int, k2: int)
    requires
        0 < k <= k2 <= entries.len(),
        json_get_upto(entries, key, k) is Some,
    ensures
        json_get_upto(entries, key, k2) == json_get_upto(entries, key, k),
    decreases k2 - k,
{
    if k2 > k {
        lemma_json_get_mono(entries, key, k, k2 - 1);
    }
}

/// A switch's value (see [`json_flag`]).
fn json_flag_of(entries: &Vec<(Vec<u8>, JsonValue)>, key: &[u8]) -> (r: Option<bool>)
    ensures
        r == json_flag(entries@, key@),
{
    match json_lookup(entries, key) {
        Some(JsonValue::Bool(b)) => Some(*b),
        Some(JsonValue::String(s)) => Some(
            crate::text::bytes_eq(s.as_slice(), str_bytes("on")) || crate::text::bytes_eq(
                s.as_slice(),
                str_bytes("true"),
            ),
        ),
        _ => None,
    }
}


/// Whether `ids` holds `id`.
fn known_language(ids: &[&'static str], id: &[u8]) -> (r: bool)
    ensures
        r == id_bytes(ids@).contains(id@),
{
    let mut i: usize = 0;
    while i < ids.len()
        invariant
            i <= ids@.len(),
            forall|j: int| 0 <= j < i ==> ids@[j].spec_bytes() != id@,
        decreases ids@.len() - i,
    {
        if crate::text::bytes_eq(str_bytes(ids[i]), id) {
            assert(id_bytes(ids@)[i as int] == id@);
            return true;
        }
        i += 1;
    }
    assert(!id_bytes(ids@).contains(id@)) by {
        if id_bytes(ids@).contains(id@) {
            let j = choose|j: int| 0 <= j < id_bytes(ids@).len() && id_bytes(ids@)[j] == id@;
            assert(ids@[j].spec_bytes() == id@);
        }
    }
    false
}

/// The glob stored for an association key (see [`association_glob`]).
fn association_glob_of(key: &[u8]) -> (r: Vec<u8>)
    ensures
        r@ == association_glob(key@),
{
    let mut i: usize = 0;
    while i < key.len()
        invariant
            i <= key@.len(),
            forall|j: int| 0 <= j < i ==> key@[j] != 0x2Fu8,
        decreases key@.len() - i,
    {
        if key[i] == 0x2F {
            assert(key@.contains(0x2Fu8)) by {
                assert(key@[i as int] == 0x2Fu8);
            }
            return vstd::slice::slice_to_vec(key);
        }
        i += 1;
    }
    let mut out: Vec<u8> = Vec::new();
    out.push(0x2A);
    out.push(0x2A);
    out.push(0x2F);
    extend_bytes(&mut out, key);
    assert(out@ =~= seq![0x2Au8, 0x2Au8, 0x2Fu8] + key@);
    out
}

/// The file associations of `files.associations` (see [`associations_upto`]).
fn read_associations(a: &Vec<(Vec<u8>, JsonValue)>, ids: &[&'static str]) -> (r: (Vec<(Vec<u8>, Vec<u8>)>, Option<&'static str>))
    ensures
        (associations_view(r.0@), r.1) == associations_upto(a@, ids@, a@.len() as int),
{
    let mut out: Vec<(Vec<u8>, Vec<u8>)> = Vec::new();
    let mut i: usize = 0;
    while i < a.len()
        invariant
            i <= a@.len(),
            (associations_view(out@), None::<&'static str>) == associations_upto(a@, ids@, i as int),
        decreases a@.len() - i,
    {
        let ghost before = out@;
        match &a[i].1 {
            JsonValue::String(id) => {
                if known_language(ids, id.as_slice()) {
                    let glob = association_glob_of(a[i].0.as_slice());
                    let id_copy = vstd::slice::slice_to_vec(id.as_slice());
                    out.push((glob, id_copy));
                    proof {
                        assert(associations_view(out@) =~= associations_view(before).push(
                            (association_glob(a@[i as int].0@), id@),
                        ));
                    }
                } else {
                    proof {
                        lemma_associations_stop(a@, ids@, i as int + 1);
                    }
                    return (out, Some("language ID"));
                }
            },
            _ => {
                proof {
                    lemma_associations_stop(a@, ids@, i as int + 1);
                }
                return (out, Some("files.associations"));
            },
        }
        i += 1;
    }
    (out, None)
}

/// Once reading stopped, later entries add nothing.
proof fn lemma_associations_stop(a: Seq<(Vec<u8>, JsonValue)>, ids: Seq<&'static str>, k: int)
    requires
        0 < k <= a.len(),
        associations_upto(a, ids, k).1 is Some,
    ensures
        associations_upto(a, ids, a.len() as int) == associations_upto(a, ids, k),
    decreases a.len() - k,
{
    if k < a.len() {
        lemma_associations_stop(a, ids, k + 1);
    }
}

/// A switch's new value (see [`flag_or`]).
fn flag_or_exec(entries: &Vec<(Vec<u8>, JsonValue)>, key: &[u8], old: bool) -> (r: bool)
    ensures
        r == flag_or(entries@, key@, old),
{
    match json_flag_of(entries, key) {
        Some(b) => b,
        None => old,
    }
}

/// The new word-wrap column: `editor.wordWrapColumn`, normalized, else `old`.
fn column_option(entries: &Vec<(Vec<u8>, JsonValue)>, old: CoordType) -> (r: CoordType)
    ensures
        r == match json_get(entries@, "editor.wordWrapColumn".spec_bytes()) {
            Some(JsonValue::Number(n)) => spec_normalize_column(n as int) as CoordType,
            _ => old,
        },
{
    match json_lookup(entries, str_bytes("editor.wordWrapColumn")) {
        Some(JsonValue::Number(n)) => normalize_word_wrap_column(*n),
        _ => old,
    }
}

/// The new highlighting of the current character: `editor.highlightCurrentChar`
/// as a switch, else whether `editor.cursorStyle` is `block`, else `old`.
fn highlight_option(entries: &Vec<(Vec<u8>, JsonValue)>, old: bool) -> (r: bool)
    ensures
        r == match json_flag(entries@, "editor.highlightCurrentChar".spec_bytes()) {
            Some(b) => b,
            None => match json_get(entries@, "editor.cursorStyle".spec_bytes()) {
                Some(JsonValue::String(s)) => s@ == "block".spec_bytes(),
                _ => old,
            },
        },
{
    match json_flag_of(entries, str_bytes("editor.highlightCurrentChar")) {
        Some(b) => b,
        None => match json_lookup(entries, str_bytes("editor.cursorStyle")) {
            Some(JsonValue::String(s)) => crate::text::bytes_eq(s.as_slice(), str_bytes("block")),
            _ => old,
        },
    }
}

/// The new color scheme: `editor.color` as text, else `old`.
fn color_option(entries: &Vec<(Vec<u8>, JsonValue)>, old: EditorColor) -> (r: EditorColor)
    ensures
        r == match json_get(entries@, "editor.color".spec_bytes()) {
            Some(JsonValue::String(s)) => if s@ == "whiteOnBlue".spec_bytes() {
                EditorColor::WhiteOnBlue
            } else {
                EditorColor::Original
            },
            _ => old,
        },
{
    match json_lookup(entries, str_bytes("editor.color")) {
        Some(JsonValue::String(s)) => if crate::text::bytes_eq(s.as_slice(), str_bytes("whiteOnBlue")) {
            EditorColor::WhiteOnBlue
        } else {
            EditorColor::Original
        },
        _ => old,
    }
}

/// A switch's new value: the one the file gives, else the old one.
pub open spec fn flag_or(entries: Seq<(Vec<u8>, JsonValue)>, key: Seq<u8>, old: bool) -> bool {
    match json_flag(entries, key) {
        Some(b) => b,
        None => old,
    }
}

/// Everything but the path and the file associations is as in `b`.
pub open spec fn same_options(a: Settings, b: Settings) -> bool {
    &&& a.word_wrap == b.word_wrap
    &&& a.word_wrap_column == b.word_wrap_column
    &&& a.ruler == b.ruler
    &&& a.center_text == b.center_text
    &&& a.highlight_current_char == b.highlight_current_char
    &&& a.editor_color == b.editor_color
}

/// The options `settings.json` sets from its root object's `entries`, over
/// `old`: `editor.wordWrap`, `editor.ruler`, `editor.centerText` and
/// `editor.highlightCurrentChar` as switches (the last, where missing, on for
/// `editor.cursorStyle` `block`), `editor.wordWrapColumn` as a number
/// (normalized), `editor.color` as text (`whiteOnBlue`, else the original).
pub open spec fn options_from(new: Settings, old: Settings, entries: Seq<(Vec<u8>, JsonValue)>) -> bool {
    &&& new.word_wrap == flag_or(entries, "editor.wordWrap".spec_bytes(), old.word_wrap)
    &&& new.ruler == flag_or(entries, "editor.ruler".spec_bytes(), old.ruler)
    &&& new.center_text == flag_or(entries, "editor.centerText".spec_bytes(), old.center_text)
    &&& new.word_wrap_column == match json_get(entries, "editor.wordWrapColumn".spec_bytes()) {
        Some(JsonValue::Number(n)) => spec_normalize_column(n as int) as CoordType,
        _ => old.word_wrap_column,
    }
    &&& new.highlight_current_char == match json_flag(entries, "editor.highlightCurrentChar".spec_bytes()) {
        Some(b) => b,
        None => match json_get(entries, "editor.cursorStyle".spec_bytes()) {
            Some(JsonValue::String(s)) => s@ == "block".spec_bytes(),
            _ => old.highlight_current_char,
        },
    }
    &&& new.editor_color == match json_get(entries, "editor.color".spec_bytes()) {
        Some(JsonValue::String(s)) => if s@ == "whiteOnBlue".spec_bytes() {
            EditorColor::WhiteOnBlue
        } else {
            EditorColor::Original
        },
        _ => old.editor_color,
    }
}

/// The view of an optional byte slice.
pub open spec fn opt_slice(t: Option<&[u8]>) -> Option<Seq<u8>> {
    match t {
        Some(t) => Some(t@),
        None => None,
    }
}

/// Settings as [`Settings::new`] makes them, but for the path.
pub open spec fn is_default(s: Settings) -> bool {
    &&& s.file_associations@.len() == 0
    &&& !s.word_wrap
    &&& s.word_wrap_column == 0
    &&& !s.ruler
    &&& !s.center_text
    &&& !s.highlight_current_char
    &&& s.editor_color == EditorColor::Original
}

/// The outcome of loading the settings from the text of `settings.json`
/// (`None` where there is no file), from `old` to `new` with the result `r`
/// (see [`Settings::load_from_text`]).
pub open spec fn loaded(old: Settings, new: Settings, text: Option<Seq<u8>>, ids: Seq<&'static str>, r: Result<(), Error>) -> bool {
    let unchanged = new.path@ == old.path@ && associations_view(new.file_associations@) == associations_view(
        old.file_associations@,
    ) && same_options(new, old);
    match text {
        None => r is Ok && unchanged,
        Some(t) => match crate::json::spec_parse_json(t) {
            None => r == Err::<(), Error>(Error::SettingsInvalid("Invalid JSON")) && unchanged,
            Some(jv) => exists|v: JsonValue| crate::json::json_view(v) == jv && #[trigger] applied(old, new, v, ids, r),
        },
    }
}

/// The outcome of taking the settings from the parsed root `root` of
/// `settings.json`, from `old` to `new` with the result `r` (see
/// [`Settings::apply_json`]).
pub open spec fn applied(old: Settings, new: Settings, root: JsonValue, ids: Seq<&'static str>, r: Result<(), Error>) -> bool {
    &&& new.path@ == old.path@
    &&& match root {
        JsonValue::Object(entries) => {
            let (added, err) = spec_associations(entries@, ids);
            &&& associations_view(new.file_associations@) == associations_view(old.file_associations@) + added
            &&& match err {
                Some(e) => r == Err::<(), Error>(Error::SettingsInvalid(e)) && same_options(new, old),
                None => r is Ok && options_from(new, old, entries@),
            }
        },
        _ => {
            &&& r == Err::<(), Error>(Error::SettingsInvalid("Non-object root"))
            &&& associations_view(new.file_associations@) == associations_view(old.file_associations@)
            &&& same_options(new, old)
        },
    }
}

impl Settings {
    /// Reads the options from the root object's entries (see [`options_from`]).
    fn read_options(&mut self, entries: &Vec<(Vec<u8>, JsonValue)>)
        ensures
            options_from(*final(self), *old(self), entries@),
            final(self).path@ == old(self).path@,
            final(self).file_associations@ == old(self).file_associations@,
    {
        self.word_wrap = flag_or_exec(entries, str_bytes("editor.wordWrap"), self.word_wrap);
        self.ruler = flag_or_exec(entries, str_bytes("editor.ruler"), self.ruler);
        self.word_wrap_column = column_option(entries, self.word_wrap_column);
        self.center_text = flag_or_exec(entries, str_bytes("editor.centerText"), self.center_text);
        self.highlight_current_char = highlight_option(entries, self.highlight_current_char);
        self.editor_color = color_option(entries, self.editor_color);
    }

    /// Takes the settings from the parsed root of `settings.json`: the root
    /// must be an object. The associations of `files.associations` (globs to
    /// ids among `language_ids`) are added in order until one is invalid,
    /// which is the error (those before it stay); else the options are read
    /// (see [`options_from`]).
    pub fn apply_json(&mut self, root: &JsonValue, language_ids: &[&'static str]) -> (r: Result<(), Error>)
        ensures
            applied(*old(self), *final(self), *root, language_ids@, r),
    {
        let entries = match root {
            JsonValue::Object(e) => e,
            _ => return Err(Error::SettingsInvalid("Non-object root")),
        };
        let (mut added, err) = match json_lookup(entries, str_bytes("files.associations")) {
            Some(JsonValue::Object(a)) => read_associations(a, language_ids),
            _ => (Vec::new(), None),
        };
        let ghost before = self.file_associations@;
        let ghost new_ones = added@;
        self.file_associations.append(&mut added);
        proof {
            assert(associations_view(self.file_associations@) =~= associations_view(before) + associations_view(
                new_ones,
            ));
        }
        if let Some(e) = err {
            return Err(Error::SettingsInvalid(e));
        }
        self.read_options(entries);
        Ok(())
    }

    /// Loads the settings from the text of `settings.json` (`None` where there
    /// is no file, which leaves them as they are): the text must be JSON with
    /// comments (see [`crate::json::spec_parse_json`]), else the error is
    /// "Invalid JSON"; its root is taken as [`Settings::apply_json`] says.
    pub fn load_from_text(&mut self, text: Option<&[u8]>, language_ids: &[&'static str]) -> (r: Result<(), Error>)
        requires
            text matches Some(t) ==> t@.len() <= isize::MAX,
        ensures
            loaded(*old(self), *final(self), match text {
                Some(t) => Some(t@),
                None => None,
            }, language_ids@, r),
    {
        let t = match text {
            Some(t) => t,
            None => return Ok(()),
        };
        match crate::json::parse_json(t) {
            Some(root) => {
                let r = self.apply_json(&root, language_ids);
                proof {
                    assert(applied(*old(self), *self, root, language_ids@, r));
                }
                r
            },
            None => Err(Error::SettingsInvalid("Invalid JSON")),
        }
    }

    /// Reloads the settings from `settings.json`, found at `path`, with its
    /// text (`None` where the file does not exist): settings loaded before are
    /// first reset to [`Settings::new`]'s; then the path is recorded and the
    /// text loaded (see [`Settings::load_from_text`]).
    pub fn reload_from_text(&mut self, path: Vec<u8>, text: Option<&[u8]>, language_ids: &[&'static str]) -> (r:
        Result<(), Error>)
        requires
            text matches Some(t) ==> t@.len() <= isize::MAX,
        ensures
            exists|base: Settings|
                #[trigger] loaded(base, *final(self), opt_slice(text), language_ids@, r) && base.path@ == path@ && (if old(self).path@.len() > 0 {
                    is_default(base)
                } else {
                    base.file_associations@ == old(self).file_associations@ && same_options(base, *old(self))
                }),
    {
        if self.path.len() > 0 {
            *self = Settings::new();
        }
        self.path = path;
        let ghost start = *self;
        let r = self.load_from_text(text, language_ids);
        proof {
            assert(loaded(start, *self, match text {
                Some(t) => Some(t@),
                None => None,
            }, language_ids@, r));
        }
        r
    }
}

} // verus!
