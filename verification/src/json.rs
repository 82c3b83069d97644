//! Reading `settings.json`: JSON with comments (`//` and `/* */`) and
//! trailing commas, into the values the settings read.

use vstd::prelude::*;
use crate::helpers::CoordType;
use crate::settings::{lemma_skip_wsc, skip_ws_comments, spec_skip_ws_comments, JsonValue};
use crate::text::{digits_value, is_digits, lemma_digits_value_nonneg};

verus! {

/// The mathematical content of a JSON value.
pub enum JsonView {
    Null,
    Bool(bool),
    Number(int),
    String(Seq<u8>),
    Array(Seq<JsonView>),
    Object(Seq<(Seq<u8>, JsonView)>),
}

/// The mathematical content of a parsed value.
pub open spec fn json_view(v: JsonValue) -> JsonView
    decreases v,
{
    match v {
        JsonValue::Null => JsonView::Null,
        JsonValue::Bool(b) => JsonView::Bool(b),
        JsonValue::Number(n) => JsonView::Number(n as int),
        JsonValue::String(s) => JsonView::String(s@),
        JsonValue::Array(a) => JsonView::Array(
            Seq::new(
                a@.len(),
                |i: int|
                    if 0 <= i < a@.len() {
                        json_view(a@[i])
                    } else {
                        JsonView::Null
                    },
            ),
        ),
        JsonValue::Object(o) => JsonView::Object(
            Seq::new(
                o@.len(),
                |i: int|
                    if 0 <= i < o@.len() {
                        (o@[i].0@, json_view(o@[i].1))
                    } else {
                        (Seq::empty(), JsonView::Null)
                    },
            ),
        ),
    }
}

/// The first offset at or after `i` past whitespace and comments.
pub open spec fn ws(b: Seq<u8>, i: int) -> int {
    spec_skip_ws_comments(b, i, b.len() as int)
}

/// The value of a hexadecimal digit.
pub open spec fn hex_val(x: u8) -> Option<int> {
    if 0x30 <= x <= 0x39 {
        Some(x - 0x30)
    } else if 0x41 <= x <= 0x46 {
        Some(x - 0x41 + 10)
    } else if 0x61 <= x <= 0x66 {
        Some(x - 0x61 + 10)
    } else {
        None
    }
}

/// The value of the four hexadecimal digits at `i`.
pub open spec fn hex4(b: Seq<u8>, i: int) -> Option<int> {
    if i < 0 || i + 4 > b.len() {
        None
    } else {
        match (hex_val(b[i]), hex_val(b[i + 1]), hex_val(b[i + 2]), hex_val(b[i + 3])) {
            (Some(a), Some(c), Some(d), Some(e)) => Some(((a * 16 + c) * 16 + d) * 16 + e),
            _ => None,
        }
    }
}

/// The UTF-8 encoding of a code point below U+10000.
pub open spec fn utf8_bmp(c: int) -> Seq<u8> {
    if c < 0x80 {
        seq![c as u8]
    } else if c < 0x800 {
        seq![(0xC0 + c / 64) as u8, (0x80 + c % 64) as u8]
    } else {
        seq![(0xE0 + c / 4096) as u8, (0x80 + (c / 64) % 64) as u8, (0x80 + c % 64) as u8]
    }
}

/// The byte an escape `\e` stands for, for the escapes of one byte.
pub open spec fn simple_escape(e: u8) -> Option<u8> {
    if e == 0x22 || e == 0x5c || e == 0x2f {
        Some(e)
    } else if e == 0x62 {
        Some(0x08)
    } else if e == 0x66 {
        Some(0x0c)
    } else if e == 0x6e {
        Some(0x0a)
    } else if e == 0x72 {
        Some(0x0d)
    } else if e == 0x74 {
        Some(0x09)
    } else {
        None
    }
}

/// The rest of a string's contents from `i`, after `acc`: its text and the
/// offset after the closing quote. A backslash escapes `"`, `\`, `/`, `b`,
/// `f`, `n`, `r`, `t`, or `u` and four hexadecimal digits (a code point below
/// U+10000 that is not a surrogate). `None` for a string that does not
/// close, a control character in it, or another escape.
pub open spec fn string_from(b: Seq<u8>, i: int, acc: Seq<u8>) -> Option<(Seq<u8>, int)>
    decreases b.len() - i,
{
    if i < 0 || i >= b.len() {
        None
    } else if b[i] == 0x22 {
        Some((acc, i + 1))
    } else if b[i] < 0x20 {
        None
    } else if b[i] == 0x5c {
        if i + 1 >= b.len() {
            None
        } else if b[i + 1] == 0x75 {
            match hex4(b, i + 2) {
                Some(c) => if 0xD800 <= c <= 0xDFFF {
                    None
                } else {
                    string_from(b, i + 6, acc + utf8_bmp(c))
                },
                None => None,
            }
        } else {
            match simple_escape(b[i + 1]) {
                Some(x) => string_from(b, i + 2, acc.push(x)),
                None => None,
            }
        }
    } else {
        string_from(b, i + 1, acc.push(b[i]))
    }
}

/// The first offset at or after `i` that holds no ASCII digit.
pub open spec fn digits_end(b: Seq<u8>, i: int) -> int
    decreases b.len() - i,
{
    if i < 0 || i >= b.len() || !(0x30 <= b[i] <= 0x39) {
        i
    } else {
        digits_end(b, i + 1)
    }
}

/// A number read as a column: `-`, digits, a fraction, and an exponent: its
/// integer part (rounded toward zero, clamped to `CoordType`); a number with
/// an exponent is read as no number (`Null`).
pub open spec fn json_number(b: Seq<u8>, i: int) -> Option<(JsonView, int)> {
    let neg = 0 <= i < b.len() && b[i] == 0x2d;
    let s = if neg {
        i + 1
    } else {
        i
    };
    let d = digits_end(b, s);
    let has_frac = d < b.len() && b[d] == 0x2e;
    let f = if has_frac {
        digits_end(b, d + 1)
    } else {
        d
    };
    if d <= s || (has_frac && f <= d + 1) {
        None
    } else if f < b.len() && (b[f] == 0x65 || b[f] == 0x45) {
        let s2 = if f + 1 < b.len() && (b[f + 1] == 0x2b || b[f + 1] == 0x2d) {
            f + 2
        } else {
            f + 1
        };
        let e = digits_end(b, s2);
        if e <= s2 {
            None
        } else {
            Some((JsonView::Null, e))
        }
    } else {
        let v = digits_value(b.subrange(s, d));
        let n = if neg {
            -v
        } else {
            v
        };
        Some((JsonView::Number(if n > isize::MAX { isize::MAX as int } else if n < isize::MIN { isize::MIN as int } else { n }), f))
    }
}

/// The value at or after `i` (after whitespace and comments), and the offset
/// after it; `None` where there is no valid value.
pub open spec fn json_value(b: Seq<u8>, i: int) -> Option<(JsonView, int)>
    decreases b.len() - i, 1int,
{
    let j = ws(b, i);
    if i < 0 || j < i || j >= b.len() {
        None
    } else {
        let c = b[j];
        if c == 0x7b {
            json_members(b, j + 1, Seq::empty())
        } else if c == 0x5b {
            json_elements(b, j + 1, Seq::empty())
        } else if c == 0x22 {
            match string_from(b, j + 1, Seq::empty()) {
                Some((s, e)) => Some((JsonView::String(s), e)),
                None => None,
            }
        } else if j + 4 <= b.len() && b.subrange(j, j + 4) == seq![0x74u8, 0x72u8, 0x75u8, 0x65u8] {
            Some((JsonView::Bool(true), j + 4))
        } else if j + 5 <= b.len() && b.subrange(j, j + 5) == seq![0x66u8, 0x61u8, 0x6cu8, 0x73u8, 0x65u8] {
            Some((JsonView::Bool(false), j + 5))
        } else if j + 4 <= b.len() && b.subrange(j, j + 4) == seq![0x6eu8, 0x75u8, 0x6cu8, 0x6cu8] {
            Some((JsonView::Null, j + 4))
        } else if c == 0x2d || (0x30 <= c <= 0x39) {
            json_number(b, j)
        } else {
            None
        }
    }
}

/// The elements of an array from `i` on, after `acc`: values separated by
/// commas (a last comma allowed) up to `]`.
pub open spec fn json_elements(b: Seq<u8>, i: int, acc: Seq<JsonView>) -> Option<(JsonView, int)>
    decreases b.len() - i, 2int,
{
    let k = ws(b, i);
    if i < 0 || k < i || k >= b.len() {
        None
    } else if b[k] == 0x5d {
        Some((JsonView::Array(acc), k + 1))
    } else {
        match json_value(b, k) {
            None => None,
            Some((v, e)) => {
                let d = ws(b, e);
                if e <= i || d < e || d >= b.len() {
                    None
                } else if b[d] == 0x2c {
                    json_elements(b, d + 1, acc.push(v))
                } else if b[d] == 0x5d {
                    Some((JsonView::Array(acc.push(v)), d + 1))
                } else {
                    None
                }
            },
        }
    }
}

/// The entries of an object from `i` on, after `acc`: `"key": value`
/// separated by commas (a last comma allowed) up to `}`.
pub open spec fn json_members(b: Seq<u8>, i: int, acc: Seq<(Seq<u8>, JsonView)>) -> Option<(JsonView, int)>
    decreases b.len() - i, 2int,
{
    let k = ws(b, i);
    if i < 0 || k < i || k >= b.len() {
        None
    } else if b[k] == 0x7d {
        Some((JsonView::Object(acc), k + 1))
    } else if b[k] != 0x22 {
        None
    } else {
        match string_from(b, k + 1, Seq::empty()) {
            None => None,
            Some((key, ke)) => {
                let c = ws(b, ke);
                if ke <= k || c < ke || c >= b.len() || b[c] != 0x3a {
                    None
                } else {
                    match json_value(b, c + 1) {
                        None => None,
                        Some((v, e)) => {
                            let d = ws(b, e);
                            if e <= i || d < e || d >= b.len() {
                                None
                            } else if b[d] == 0x2c {
                                json_members(b, d + 1, acc.push((key, v)))
                            } else if b[d] == 0x7d {
                                Some((JsonView::Object(acc.push((key, v))), d + 1))
                            } else {
                                None
                            }
                        },
                    }
                }
            },
        }
    }
}

/// A whole text: one value, with only whitespace and comments around it.
pub open spec fn spec_parse_json(b: Seq<u8>) -> Option<JsonView> {
    match json_value(b, 0) {
        Some((v, e)) => if ws(b, e) == b.len() {
            Some(v)
        } else {
            None
        },
        None => None,
    }
}


/// The views of a list of values.
pub open spec fn views(a: Seq<JsonValue>) -> Seq<JsonView> {
    Seq::new(a.len(), |i: int| json_view(a[i]))
}

/// The views of a list of entries.
pub open spec fn entry_views(o: Seq<(Vec<u8>, JsonValue)>) -> Seq<(Seq<u8>, JsonView)> {
    Seq::new(o.len(), |i: int| (o[i].0@, json_view(o[i].1)))
}

proof fn lemma_array_view(a: Vec<JsonValue>)
    ensures
        json_view(JsonValue::Array(a)) == JsonView::Array(views(a@)),
{
    let v = JsonValue::Array(a);
    assert(json_view(v) is Array);
    let t = json_view(v)->Array_0;
    assert(t.len() == a@.len());
    assert forall|i: int| 0 <= i < t.len() implies t[i] == views(a@)[i] by {}
    assert(t =~= views(a@));
}

proof fn lemma_object_view(o: Vec<(Vec<u8>, JsonValue)>)
    ensures
        json_view(JsonValue::Object(o)) == JsonView::Object(entry_views(o@)),
{
    let v = JsonValue::Object(o);
    assert(json_view(v) is Object);
    let t = json_view(v)->Object_0;
    assert(t.len() == o@.len());
    assert forall|i: int| 0 <= i < t.len() implies t[i] == entry_views(o@)[i] by {}
    assert(t =~= entry_views(o@));
}

proof fn lemma_digits_end(b: Seq<u8>, i: int)
    requires
        0 <= i <= b.len(),
    ensures
        i <= digits_end(b, i) <= b.len(),
        forall|k: int| i <= k < digits_end(b, i) ==> 0x30 <= #[trigger] b[k] <= 0x39,
        digits_end(b, i) < b.len() ==> !(0x30 <= b[digits_end(b, i)] <= 0x39),
    decreases b.len() - i,
{
    if i < b.len() && 0x30 <= b[i] <= 0x39 {
        lemma_digits_end(b, i + 1);
    }
}

fn digits_end_exec(b: &[u8], i: usize) -> (r: usize)
    requires
        i <= b@.len(),
    ensures
        r == digits_end(b@, i as int),
        i <= r <= b@.len(),
{
    proof {
        lemma_digits_end(b@, i as int);
    }
    let mut k = i;
    while k < b.len() && 0x30 <= b[k] && b[k] <= 0x39
        invariant
            i <= k <= b@.len(),
            digits_end(b@, k as int) == digits_end(b@, i as int),
        decreases b@.len() - k,
    {
        k += 1;
    }
    k
}

fn hex_val_exec(x: u8) -> (r: Option<u32>)
    ensures
        match r {
            Some(v) => hex_val(x) == Some(v as int) && v < 16,
            None => hex_val(x) is None,
        },
{
    if 0x30 <= x && x <= 0x39 {
        Some((x - 0x30) as u32)
    } else if 0x41 <= x && x <= 0x46 {
        Some((x - 0x41 + 10) as u32)
    } else if 0x61 <= x && x <= 0x66 {
        Some((x - 0x61 + 10) as u32)
    } else {
        None
    }
}

fn hex4_exec(b: &[u8], i: usize) -> (r: Option<u32>)
    ensures
        match r {
            Some(v) => hex4(b@, i as int) == Some(v as int) && v < 0x10000 && i + 4 <= b@.len(),
            None => hex4(b@, i as int) is None,
        },
{
    if i > b.len() || b.len() - i < 4 {
        return None;
    }
    let a = match hex_val_exec(b[i]) { Some(v) => v, None => return None };
    let c = match hex_val_exec(b[i + 1]) { Some(v) => v, None => return None };
    let d = match hex_val_exec(b[i + 2]) { Some(v) => v, None => return None };
    let e = match hex_val_exec(b[i + 3]) { Some(v) => v, None => return None };
    Some(((a * 16 + c) * 16 + d) * 16 + e)
}

fn simple_escape_exec(e: u8) -> (r: Option<u8>)
    ensures
        r == simple_escape(e),
{
    if e == 0x22 || e == 0x5c || e == 0x2f {
        Some(e)
    } else if e == 0x62 {
        Some(0x08)
    } else if e == 0x66 {
        Some(0x0c)
    } else if e == 0x6e {
        Some(0x0a)
    } else if e == 0x72 {
        Some(0x0d)
    } else if e == 0x74 {
        Some(0x09)
    } else {
        None
    }
}

fn push_utf8_bmp(out: &mut Vec<u8>, c: u32)
    requires
        c < 0x10000,
    ensures
        final(out)@ == old(out)@ + utf8_bmp(c as int),
{
    let ghost start = out@;
    if c < 0x80 {
        out.push(c as u8);
    } else if c < 0x800 {
        out.push((0xC0 + c / 64) as u8);
        out.push((0x80 + c % 64) as u8);
    } else {
        out.push((0xE0 + c / 4096) as u8);
        out.push((0x80 + (c / 64) % 64) as u8);
        out.push((0x80 + c % 64) as u8);
    }
    assert(out@ =~= start + utf8_bmp(c as int));
}

/// A string's contents from `start` (after the opening quote) and the offset
/// after its closing quote (see [`string_from`]).
fn parse_string(b: &[u8], start: usize) -> (r: Option<(Vec<u8>, usize)>)
    requires
        start <= b@.len(),
    ensures
        match r {
            Some((s, e)) => string_from(b@, start as int, Seq::empty()) == Some((s@, e as int)) && e <= b@.len(),
            None => string_from(b@, start as int, Seq::empty()) is None,
        },
{
    let mut out: Vec<u8> = Vec::new();
    let mut i = start;
    loop
        invariant
            start <= i <= b@.len(),
            string_from(b@, start as int, Seq::empty()) == string_from(b@, i as int, out@),
        decreases b@.len() - i,
    {
        if i >= b.len() {
            return None;
        }
        let c = b[i];
        if c == 0x22 {
            return Some((out, i + 1));
        }
        if c < 0x20 {
            return None;
        }
        if c == 0x5c {
            if i + 1 >= b.len() {
                return None;
            }
            let e = b[i + 1];
            if e == 0x75 {
                let cp = match hex4_exec(b, i + 2) {
                    Some(cp) => cp,
                    None => return None,
                };
                if 0xD800 <= cp && cp <= 0xDFFF {
                    return None;
                }
                push_utf8_bmp(&mut out, cp);
                i = i + 6;
            } else {
                match simple_escape_exec(e) {
                    Some(x) => {
                        out.push(x);
                        i = i + 2;
                    },
                    None => return None,
                }
            }
        } else {
            out.push(c);
            i = i + 1;
        }
    }
}

/// A number at `i` (see [`json_number`]).
fn parse_number(b: &[u8], i: usize) -> (r: Option<(JsonValue, usize)>)
    requires
        i < b@.len(),
    ensures
        match r {
            Some((v, e)) => json_number(b@, i as int) == Some((json_view(v), e as int)) && e <= b@.len(),
            None => json_number(b@, i as int) is None,
        },
{
    let neg = b[i] == 0x2d;
    let s = if neg { i + 1 } else { i };
    let d = digits_end_exec(b, s);
    let has_frac = d < b.len() && b[d] == 0x2e;
    let f = if has_frac { digits_end_exec(b, d + 1) } else { d };
    if d <= s || (has_frac && f <= d + 1) {
        return None;
    }
    if f < b.len() && (b[f] == 0x65 || b[f] == 0x45) {
        let s2 = if f + 1 < b.len() && (b[f + 1] == 0x2b || b[f + 1] == 0x2d) { f + 2 } else { f + 1 };
        let e = digits_end_exec(b, s2);
        if e <= s2 {
            return None;
        }
        return Some((JsonValue::Null, e));
    }
    let t = vstd::slice::slice_subrange(b, i, d);
    proof {
        lemma_digits_end(b@, s as int);
        let ds = b@.subrange(s as int, d as int);
        assert(t@.skip((s - i) as int) =~= ds);
        assert(is_digits(ds)) by {
            assert forall|k: int| 0 <= k < ds.len() implies crate::text::is_ascii_digit(#[trigger] ds[k]) by {
                assert(ds[k] == b@[s + k]);
            }
        }
        lemma_digits_value_nonneg(ds);
    }
    let n: CoordType = match crate::text::parse_isize(t) {
        Some(v) => v,
        None => if neg { CoordType::MIN } else { CoordType::MAX },
    };
    Some((JsonValue::Number(n), f))
}


fn bytes_at(b: &[u8], j: usize, lit: &[u8]) -> (r: bool)
    ensures
        r == (j + lit@.len() <= b@.len() && b@.subrange(j as int, j + lit@.len()) == lit@),
{
    if j > b.len() || b.len() - j < lit.len() {
        return false;
    }
    crate::text::bytes_eq(vstd::slice::slice_subrange(b, j, j + lit.len()), lit)
}

/// The value at or after `i` (see [`json_value`]).
fn parse_value(b: &[u8], i: usize) -> (r: Option<(JsonValue, usize)>)
    requires
        i <= b@.len() <= isize::MAX,
    ensures
        match r {
            Some((v, e)) => json_value(b@, i as int) == Some((json_view(v), e as int)) && e <= b@.len(),
            None => json_value(b@, i as int) is None,
        },
    decreases b@.len() - i, 1int,
{
    let j = skip_ws_comments(b, i, b.len());
    if j >= b.len() {
        return None;
    }
    let c = b[j];
    if c == 0x7b {
        parse_members(b, j + 1)
    } else if c == 0x5b {
        parse_elements(b, j + 1)
    } else if c == 0x22 {
        match parse_string(b, j + 1) {
            Some((s, e)) => Some((JsonValue::String(s), e)),
            None => None,
        }
    } else if bytes_at(b, j, &[0x74u8, 0x72u8, 0x75u8, 0x65u8]) {
        proof {
            assert([0x74u8, 0x72u8, 0x75u8, 0x65u8]@ =~= seq![0x74u8, 0x72u8, 0x75u8, 0x65u8]);
        }
        Some((JsonValue::Bool(true), j + 4))
    } else if bytes_at(b, j, &[0x66u8, 0x61u8, 0x6cu8, 0x73u8, 0x65u8]) {
        proof {
            assert([0x74u8, 0x72u8, 0x75u8, 0x65u8]@ =~= seq![0x74u8, 0x72u8, 0x75u8, 0x65u8]);
            assert([0x66u8, 0x61u8, 0x6cu8, 0x73u8, 0x65u8]@ =~= seq![0x66u8, 0x61u8, 0x6cu8, 0x73u8, 0x65u8]);
        }
        Some((JsonValue::Bool(false), j + 5))
    } else if bytes_at(b, j, &[0x6eu8, 0x75u8, 0x6cu8, 0x6cu8]) {
        proof {
            assert([0x74u8, 0x72u8, 0x75u8, 0x65u8]@ =~= seq![0x74u8, 0x72u8, 0x75u8, 0x65u8]);
            assert([0x66u8, 0x61u8, 0x6cu8, 0x73u8, 0x65u8]@ =~= seq![0x66u8, 0x61u8, 0x6cu8, 0x73u8, 0x65u8]);
            assert([0x6eu8, 0x75u8, 0x6cu8, 0x6cu8]@ =~= seq![0x6eu8, 0x75u8, 0x6cu8, 0x6cu8]);
        }
        Some((JsonValue::Null, j + 4))
    } else {
        proof {
            assert([0x74u8, 0x72u8, 0x75u8, 0x65u8]@ =~= seq![0x74u8, 0x72u8, 0x75u8, 0x65u8]);
            assert([0x66u8, 0x61u8, 0x6cu8, 0x73u8, 0x65u8]@ =~= seq![0x66u8, 0x61u8, 0x6cu8, 0x73u8, 0x65u8]);
            assert([0x6eu8, 0x75u8, 0x6cu8, 0x6cu8]@ =~= seq![0x6eu8, 0x75u8, 0x6cu8, 0x6cu8]);
        }
        if c == 0x2d || (0x30 <= c && c <= 0x39) {
            parse_number(b, j)
        } else {
            None
        }
    }
}

/// The elements of an array from `i` on (see [`json_elements`]).
fn parse_elements(b: &[u8], i: usize) -> (r: Option<(JsonValue, usize)>)
    requires
        i <= b@.len() <= isize::MAX,
    ensures
        match r {
            Some((v, e)) => json_elements(b@, i as int, Seq::empty()) == Some((json_view(v), e as int)) && e
                <= b@.len(),
            None => json_elements(b@, i as int, Seq::empty()) is None,
        },
    decreases b@.len() - i, 2int,
{
    let mut acc: Vec<JsonValue> = Vec::new();
    let mut cur = i;
    proof {
        assert(views(acc@) =~= Seq::<JsonView>::empty());
    }
    loop
        invariant
            i <= cur <= b@.len() <= isize::MAX,
            json_elements(b@, i as int, Seq::empty()) == json_elements(b@, cur as int, views(acc@)),
        decreases b@.len() - cur,
    {
        let k = skip_ws_comments(b, cur, b.len());
        if k >= b.len() {
            return None;
        }
        if b[k] == 0x5d {
            proof {
                lemma_array_view(acc);
            }
            return Some((JsonValue::Array(acc), k + 1));
        }
        let (v, e) = match parse_value(b, k) {
            Some(x) => x,
            None => return None,
        };
        let d = skip_ws_comments(b, e, b.len());
        if e <= cur || d >= b.len() {
            return None;
        }
        let ghost before = acc@;
        acc.push(v);
        proof {
            assert(views(acc@) =~= views(before).push(json_view(v)));
        }
        if b[d] == 0x2c {
            cur = d + 1;
        } else if b[d] == 0x5d {
            proof {
                lemma_array_view(acc);
            }
            return Some((JsonValue::Array(acc), d + 1));
        } else {
            return None;
        }
    }
}

/// The entries of an object from `i` on (see [`json_members`]).
fn parse_members(b: &[u8], i: usize) -> (r: Option<(JsonValue, usize)>)
    requires
        i <= b@.len() <= isize::MAX,
    ensures
        match r {
            Some((v, e)) => json_members(b@, i as int, Seq::empty()) == Some((json_view(v), e as int)) && e
                <= b@.len(),
            None => json_members(b@, i as int, Seq::empty()) is None,
        },
    decreases b@.len() - i, 2int,
{
    let mut acc: Vec<(Vec<u8>, JsonValue)> = Vec::new();
    let mut cur = i;
    proof {
        assert(entry_views(acc@) =~= Seq::<(Seq<u8>, JsonView)>::empty());
    }
    loop
        invariant
            i <= cur <= b@.len() <= isize::MAX,
            json_members(b@, i as int, Seq::empty()) == json_members(b@, cur as int, entry_views(acc@)),
        decreases b@.len() - cur,
    {
        let k = skip_ws_comments(b, cur, b.len());
        if k >= b.len() {
            return None;
        }
        if b[k] == 0x7d {
            proof {
                lemma_object_view(acc);
            }
            return Some((JsonValue::Object(acc), k + 1));
        }
        if b[k] != 0x22 {
            return None;
        }
        let (key, ke) = match parse_string(b, k + 1) {
            Some(x) => x,
            None => return None,
        };
        let c = skip_ws_comments(b, ke, b.len());
        if ke <= k || c >= b.len() || b[c] != 0x3a {
            return None;
        }
        let (v, e) = match parse_value(b, c + 1) {
            Some(x) => x,
            None => return None,
        };
        let d = skip_ws_comments(b, e, b.len());
        if e <= cur || d >= b.len() {
            return None;
        }
        let ghost before = acc@;
        let ghost kv = key@;
        acc.push((key, v));
        proof {
            assert(entry_views(acc@) =~= entry_views(before).push((kv, json_view(v))));
        }
        if b[d] == 0x2c {
            cur = d + 1;
        } else if b[d] == 0x7d {
            proof {
                lemma_object_view(acc);
            }
            return Some((JsonValue::Object(acc), d + 1));
        } else {
            return None;
        }
    }
}

/// Parses a whole text (see [`spec_parse_json`]).
pub fn parse_json(text: &[u8]) -> (r: Option<JsonValue>)
    requires
        text@.len() <= isize::MAX,
    ensures
        match r {
            Some(v) => spec_parse_json(text@) == Some(json_view(v)),
            None => spec_parse_json(text@) is None,
        },
{
    let (v, e) = match parse_value(text, 0) {
        Some(x) => x,
        None => return None,
    };
    if skip_ws_comments(text, e, text.len()) == text.len() {
        Some(v)
    } else {
        None
    }
}

} // verus!
