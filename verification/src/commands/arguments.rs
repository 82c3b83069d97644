//! Command arguments: the text after a command's name, interpreted as a
//! string, a pair, a boolean, a color, an end-of-file style, an encoding, a line
//! break, or margins.

use vstd::prelude::*;
use vstd::string::StringSliceAdditionalSpecFns;
use crate::icu::Encoding;
use crate::path::{normalize, spec_normalize_path};
use crate::helpers::CoordType;
use crate::settings::{normalize_word_wrap_column, spec_normalize_column, BindingMode, EditorColor, EofStyle};
use crate::text::{
    bytes_eq, eq_ignore_ascii_case, find_whitespace, find_ws, lemma_find_ws_bounds, lower_seq,
    next_word, parse_isize, spec_parse_isize, spec_trim, str_bytes, to_ascii_lowercase, trim,
    words, words_from, ws_len, ws_len_at, skip_ws,
};
use super::definition::opt_bytes_view;

verus! {

/// The trimmed argument, `None` where there is none or it is blank.
pub open spec fn spec_string_argument(a: Option<Seq<u8>>) -> Option<Seq<u8>> {
    match a {
        Some(t) => if spec_trim(t).len() == 0 {
            None
        } else {
            Some(spec_trim(t))
        },
        None => None,
    }
}

/// The trimmed argument, `None` where there is none or it is blank.
pub fn command_string_argument(argument: &Option<Vec<u8>>) -> (r: Option<Vec<u8>>)
    ensures
        opt_bytes_view(r) == spec_string_argument(opt_bytes_view(*argument)),
{
    match argument {
        Some(a) => {
            let t = trim(a.as_slice());
            if t.len() == 0 {
                None
            } else {
                Some(vstd::slice::slice_to_vec(t))
            }
        },
        None => None,
    }
}

/// The path an argument names: the trimmed argument, made absolute against
/// the working directory `cwd` where it is relative, then normalized.
pub open spec fn spec_path_argument(a: Option<Seq<u8>>, cwd: Seq<u8>) -> Option<Seq<u8>> {
    match spec_string_argument(a) {
        Some(t) => Some(spec_normalize_path(if t[0] == 0x2f { t } else { cwd + seq![0x2fu8] + t })),
        None => None,
    }
}

/// The path an argument names, absolute and normalized; `cwd` is the working
/// directory (an absolute path).
pub fn command_path_argument(argument: &Option<Vec<u8>>, cwd: &[u8]) -> (r: Option<Vec<u8>>)
    requires
        cwd@.len() > 0,
        cwd@[0] == 0x2f,
    ensures
        opt_bytes_view(r) == spec_path_argument(opt_bytes_view(*argument), cwd@),
{
    let t = match command_string_argument(argument) {
        Some(t) => t,
        None => {
            return None;
        },
    };
    if t[0] == 0x2f {
        Some(normalize(t.as_slice()))
    } else {
        let mut joined = vstd::slice::slice_to_vec(cwd);
        joined.push(0x2f);
        crate::text::extend_bytes(&mut joined, t.as_slice());
        assert(joined@ =~= cwd@ + seq![0x2fu8] + t@);
        Some(normalize(joined.as_slice()))
    }
}

/// `needle replacement…`: the trimmed argument split at its first whitespace
/// character, each part trimmed; `None` without whitespace or needle.
pub open spec fn spec_replace_arguments(a: Option<Seq<u8>>) -> Option<(Seq<u8>, Seq<u8>)> {
    match a {
        Some(raw) => {
            let t = spec_trim(raw);
            let p = find_ws(t, 0);
            if p >= t.len() || spec_trim(t.take(p)).len() == 0 {
                None
            } else {
                Some((spec_trim(t.take(p)), spec_trim(t.skip(p + ws_len_at(t, p)))))
            }
        },
        None => None,
    }
}

/// `needle replacement…` split at the first whitespace, each part trimmed.
pub fn command_replace_arguments(argument: &Option<Vec<u8>>) -> (r: Option<(Vec<u8>, Vec<u8>)>)
    ensures
        match r {
            Some((n, rep)) => spec_replace_arguments(opt_bytes_view(*argument)) == Some((n@, rep@)),
            None => spec_replace_arguments(opt_bytes_view(*argument)) is None,
        },
{
    let a = match argument {
        Some(a) => a,
        None => {
            return None;
        },
    };
    let t = trim(a.as_slice());
    proof {
        lemma_find_ws_bounds(t@, 0);
    }
    let p = find_whitespace(t, 0);
    if p >= t.len() {
        return None;
    }
    let needle = trim(&t[0..p]);
    assert(t@.subrange(0, p as int) =~= t@.take(p as int));
    if needle.len() == 0 {
        return None;
    }
    let n = ws_len(t, p);
    assert(p + n <= t@.len());
    let rest = trim(&t[p + n..t.len()]);
    assert(t@.subrange((p + n) as int, t@.len() as int) =~= t@.skip(p + n));
    Some((vstd::slice::slice_to_vec(needle), vstd::slice::slice_to_vec(rest)))
}

/// The argument trimmed and lower-cased, the form the keyword arguments are matched in.
pub open spec fn keyword(a: Seq<u8>) -> Seq<u8> {
    lower_seq(spec_trim(a))
}

fn keyword_of(a: &Vec<u8>) -> (r: Vec<u8>)
    ensures
        r@ == keyword(a@),
{
    to_ascii_lowercase(trim(a.as_slice()))
}

fn is_word(k: &Vec<u8>, w: &str) -> (r: bool)
    ensures
        r == (k@ == w.spec_bytes()),
{
    bytes_eq(k.as_slice(), str_bytes(w))
}

/// A boolean: `true`, `on`, `yes`, `1` or `false`, `off`, `no`, `0`, in any case.
pub open spec fn spec_bool_argument(a: Option<Seq<u8>>) -> Option<bool> {
    match a {
        Some(t) => {
            let k = keyword(t);
            if k == "true".spec_bytes() || k == "on".spec_bytes() || k == "yes".spec_bytes() || k
                == "1".spec_bytes() {
                Some(true)
            } else if k == "false".spec_bytes() || k == "off".spec_bytes() || k == "no".spec_bytes()
                || k == "0".spec_bytes() {
                Some(false)
            } else {
                None
            }
        },
        None => None,
    }
}

/// A boolean argument.
pub fn command_bool_argument(argument: &Option<Vec<u8>>) -> (r: Option<bool>)
    ensures
        r == spec_bool_argument(opt_bytes_view(*argument)),
{
    let a = match argument {
        Some(a) => a,
        None => {
            return None;
        },
    };
    let k = keyword_of(a);
    if is_word(&k, "true") || is_word(&k, "on") || is_word(&k, "yes") || is_word(&k, "1") {
        Some(true)
    } else if is_word(&k, "false") || is_word(&k, "off") || is_word(&k, "no") || is_word(&k, "0") {
        Some(false)
    } else {
        None
    }
}

/// A color scheme: `original`, or `white-on-blue` / `whiteonblue`, in any case.
pub open spec fn spec_editor_color_argument(a: Option<Seq<u8>>) -> Option<EditorColor> {
    match a {
        Some(t) => {
            let k = keyword(t);
            if k == "original".spec_bytes() {
                Some(EditorColor::Original)
            } else if k == "white-on-blue".spec_bytes() || k == "whiteonblue".spec_bytes() {
                Some(EditorColor::WhiteOnBlue)
            } else {
                None
            }
        },
        None => None,
    }
}

/// A color-scheme argument.
pub fn command_editor_color_argument(argument: &Option<Vec<u8>>) -> (r: Option<EditorColor>)
    ensures
        r == spec_editor_color_argument(opt_bytes_view(*argument)),
{
    let a = match argument {
        Some(a) => a,
        None => {
            return None;
        },
    };
    let k = keyword_of(a);
    if is_word(&k, "original") {
        Some(EditorColor::Original)
    } else if is_word(&k, "white-on-blue") || is_word(&k, "whiteonblue") {
        Some(EditorColor::WhiteOnBlue)
    } else {
        None
    }
}

/// An end-of-file style: `original`, `classic`, `ks3` or `hidden`, in any case.
pub open spec fn spec_eof_style_argument(a: Option<Seq<u8>>) -> Option<EofStyle> {
    match a {
        Some(t) => {
            let k = keyword(t);
            if k == "original".spec_bytes() {
                Some(EofStyle::Original)
            } else if k == "classic".spec_bytes() {
                Some(EofStyle::Classic)
            } else if k == "ks3".spec_bytes() {
                Some(EofStyle::Ks3)
            } else if k == "hidden".spec_bytes() {
                Some(EofStyle::Hidden)
            } else {
                None
            }
        },
        None => None,
    }
}

/// An end-of-file-style argument.
pub fn command_eof_style_argument(argument: &Option<Vec<u8>>) -> (r: Option<EofStyle>)
    ensures
        r == spec_eof_style_argument(opt_bytes_view(*argument)),
{
    let a = match argument {
        Some(a) => a,
        None => {
            return None;
        },
    };
    let k = keyword_of(a);
    if is_word(&k, "original") {
        Some(EofStyle::Original)
    } else if is_word(&k, "classic") {
        Some(EofStyle::Classic)
    } else if is_word(&k, "ks3") {
        Some(EofStyle::Ks3)
    } else if is_word(&k, "hidden") {
        Some(EofStyle::Hidden)
    } else {
        None
    }
}

/// A line break: `crlf`, `cr-lf`, `dos`, `windows` (CRLF) or `lf`, `unix` (LF), in any case.
pub open spec fn spec_line_break_argument(a: Option<Seq<u8>>) -> Option<bool> {
    match a {
        Some(t) => {
            let k = keyword(t);
            if k == "crlf".spec_bytes() || k == "cr-lf".spec_bytes() || k == "dos".spec_bytes() || k
                == "windows".spec_bytes() {
                Some(true)
            } else if k == "lf".spec_bytes() || k == "unix".spec_bytes() {
                Some(false)
            } else {
                None
            }
        },
        None => None,
    }
}

/// A line-break argument: `Some(true)` for CRLF, `Some(false)` for LF.
pub fn command_line_break_argument(argument: &Option<Vec<u8>>) -> (r: Option<bool>)
    ensures
        r == spec_line_break_argument(opt_bytes_view(*argument)),
{
    let a = match argument {
        Some(a) => a,
        None => {
            return None;
        },
    };
    let k = keyword_of(a);
    if is_word(&k, "crlf") || is_word(&k, "cr-lf") || is_word(&k, "dos") || is_word(&k, "windows") {
        Some(true)
    } else if is_word(&k, "lf") || is_word(&k, "unix") {
        Some(false)
    } else {
        None
    }
}

/// The canonical name of the first encoding from `i` on whose canonical name or
/// label equals `t`, ignoring ASCII case.
pub open spec fn encoding_from(encodings: Seq<Encoding>, t: Seq<u8>, i: int) -> Option<&'static str>
    decreases encodings.len() - i,
{
    if i < 0 || i >= encodings.len() {
        None
    } else if lower_seq(encodings[i].canonical.spec_bytes()) == lower_seq(t) || lower_seq(
        encodings[i].label.spec_bytes(),
    ) == lower_seq(t) {
        Some(encodings[i].canonical)
    } else {
        encoding_from(encodings, t, i + 1)
    }
}

/// An encoding among `encodings`, by canonical name or label in any case.
pub open spec fn spec_encoding_argument(a: Option<Seq<u8>>, encodings: Seq<Encoding>) -> Option<&'static str> {
    match a {
        Some(raw) => if spec_trim(raw).len() == 0 {
            None
        } else {
            encoding_from(encodings, spec_trim(raw), 0)
        },
        None => None,
    }
}

/// An encoding argument, looked up among the available `encodings` (the list
/// depends on the ICU library found at run time).
pub fn command_encoding_argument(argument: &Option<Vec<u8>>, encodings: &[Encoding]) -> (r: Option<
    &'static str,
>)
    ensures
        r == spec_encoding_argument(opt_bytes_view(*argument), encodings@),
{
    let a = match argument {
        Some(a) => a,
        None => {
            return None;
        },
    };
    let t = trim(a.as_slice());
    if t.len() == 0 {
        return None;
    }
    let mut i: usize = 0;
    while i < encodings.len()
        invariant
            i <= encodings@.len(),
            t@ == spec_trim(a@),
            t@.len() > 0,
            opt_bytes_view(*argument) == Some(a@),
            encoding_from(encodings@, t@, i as int) == encoding_from(encodings@, t@, 0),
        decreases encodings@.len() - i,
    {
        let enc = encodings[i];
        if eq_ignore_ascii_case(str_bytes(enc.canonical), t) || eq_ignore_ascii_case(str_bytes(enc.label), t) {
            return Some(enc.canonical);
        }
        i += 1;
    }
    None
}

/// The numbers of the words `w`, `None` if one is not an `isize`.
pub open spec fn parse_all(w: Seq<Seq<u8>>) -> Option<Seq<int>>
    decreases w.len(),
{
    if w.len() == 0 {
        Some(Seq::empty())
    } else {
        match (spec_parse_isize(w[0]), parse_all(w.skip(1))) {
            (Some(n), Some(ns)) => Some(seq![n] + ns),
            _ => None,
        }
    }
}

/// `right`, `left right` or `left right paragraph` (more numbers are ignored):
/// the left, right and paragraph margins; one number sets only the right margin,
/// two set the paragraph margin to the left one. `None` for no numbers or a word
/// that is not one.
pub open spec fn spec_parse_margins(a: Option<Seq<u8>>) -> Option<(int, int, int)> {
    match a {
        Some(t) => match parse_all(words(t)) {
            Some(n) => if n.len() == 0 {
                None
            } else if n.len() == 1 {
                Some((0, n[0], 0))
            } else if n.len() == 2 {
                Some((n[0], n[1], n[0]))
            } else {
                Some((n[0], n[1], n[2]))
            },
            None => None,
        },
        None => None,
    }
}

proof fn lemma_words_step(s: Seq<u8>, i: int, a: int, b: int)
    requires
        0 <= i <= s.len(),
        a == skip_ws(s, i),
        i <= a < s.len(),
        b == find_ws(s, a),
        a < b <= s.len(),
    ensures
        words_from(s, i) == seq![s.subrange(a, b)] + words_from(s, b),
{
}

/// The margins given as `right`, `left right` or `left right paragraph`.
pub fn parse_margins(argument: Option<&[u8]>) -> (r: Option<(isize, isize, isize)>)
    ensures
        match r {
            Some((l, rt, p)) => spec_parse_margins(match argument {
                Some(a) => Some(a@),
                None => None,
            }) == Some((l as int, rt as int, p as int)),
            None => spec_parse_margins(match argument {
                Some(a) => Some(a@),
                None => None,
            }) is None,
        },
{
    let s = match argument {
        Some(s) => s,
        None => {
            return None;
        },
    };
    let mut nums: Vec<isize> = Vec::new();
    let ghost mut vals: Seq<int> = Seq::empty();
    let mut i: usize = 0;
    loop
        invariant
            i <= s@.len(),
            argument == Some(s),
            vals.len() == nums@.len(),
            forall|k: int| 0 <= k < vals.len() ==> vals[k] == nums@[k] as int,
            parse_all(words(s@)) == match parse_all(words_from(s@, i as int)) {
                Some(rest) => Some(vals + rest),
                None => None::<Seq<int>>,
            },
        ensures
            vals.len() == nums@.len(),
            forall|k: int| 0 <= k < vals.len() ==> vals[k] == nums@[k] as int,
            parse_all(words(s@)) == Some(vals),
        decreases s@.len() - i,
    {
        let (a, b) = next_word(s, i);
        if a >= s.len() {
            assert(words_from(s@, i as int) =~= Seq::<Seq<u8>>::empty());
            assert(vals + Seq::<int>::empty() =~= vals);
            break;
        }
        proof {
            lemma_words_step(s@, i as int, a as int, b as int);
            let w = words_from(s@, i as int);
            assert(w[0] == s@.subrange(a as int, b as int));
            assert(w.skip(1) =~= words_from(s@, b as int));
        }
        let word = &s[a..b];
        match parse_isize(word) {
            Some(v) => {
                nums.push(v);
                proof {
                    let old_vals = vals;
                    vals = vals.push(v as int);
                    match parse_all(words_from(s@, b as int)) {
                        Some(rest) => {
                            assert(old_vals + (seq![v as int] + rest) =~= vals + rest);
                        },
                        None => {},
                    }
                }
            },
            None => {
                assert(parse_all(words_from(s@, i as int)) is None);
                return None;
            },
        }
        i = b;
    }

    let n = nums.len();
    if n == 0 {
        None
    } else if n == 1 {
        Some((0, nums[0], 0))
    } else if n == 2 {
        Some((nums[0], nums[1], nums[0]))
    } else {
        Some((nums[0], nums[1], nums[2]))
    }
}


/// The word-wrap column a `set-word-wrap-column` argument asks for: the
/// trimmed text as a number (0 where there is none or it is no number),
/// normalized (0 for off, else at least 20).
pub open spec fn spec_column_argument(a: Option<Seq<u8>>) -> int {
    let n = match a {
        Some(t) => match spec_parse_isize(spec_trim(t)) {
            Some(n) => n,
            None => 0,
        },
        None => 0,
    };
    spec_normalize_column(n)
}

/// The word-wrap column an argument asks for (see [`spec_column_argument`]).
pub fn command_column_argument(argument: &Option<Vec<u8>>) -> (r: CoordType)
    ensures
        r == spec_column_argument(opt_bytes_view(*argument)),
{
    let n: isize = match argument {
        Some(a) => match parse_isize(trim(a.as_slice())) {
            Some(n) => n,
            None => 0,
        },
        None => 0,
    };
    normalize_word_wrap_column(if n > 0 { n } else { 0 })
}

/// The tab width a `set-tabs` argument asks for: its first word as a number.
/// `None` where there is no word or it is no number.
pub open spec fn spec_tab_width_argument(a: Option<Seq<u8>>) -> Option<int> {
    match a {
        Some(t) => if words(t).len() > 0 {
            spec_parse_isize(words(t)[0])
        } else {
            None
        },
        None => None,
    }
}

/// The tab width an argument asks for (see [`spec_tab_width_argument`]).
pub fn command_tab_width_argument(argument: &Option<Vec<u8>>) -> (r: Option<isize>)
    ensures
        match r {
            Some(w) => spec_tab_width_argument(opt_bytes_view(*argument)) == Some(w as int),
            None => spec_tab_width_argument(opt_bytes_view(*argument)) is None,
        },
{
    let a = match argument {
        Some(a) => a.as_slice(),
        None => return None,
    };
    let (start, end) = next_word(a, 0);
    if start >= a.len() {
        return None;
    }
    parse_isize(vstd::slice::slice_subrange(a, start, end))
}

/// The key bindings a `set-binding` argument asks for: the trimmed text
/// `ghostty` or `original`, exactly.
pub open spec fn spec_binding_argument(a: Option<Seq<u8>>) -> Option<BindingMode> {
    match a {
        Some(t) => if spec_trim(t) == "ghostty".spec_bytes() {
            Some(BindingMode::Ghostty)
        } else if spec_trim(t) == "original".spec_bytes() {
            Some(BindingMode::Original)
        } else {
            None
        },
        None => None,
    }
}

/// The key bindings an argument asks for (see [`spec_binding_argument`]).
pub fn command_binding_argument(argument: &Option<Vec<u8>>) -> (r: Option<BindingMode>)
    ensures
        r == spec_binding_argument(opt_bytes_view(*argument)),
{
    let a = match argument {
        Some(a) => trim(a.as_slice()),
        None => return None,
    };
    if bytes_eq(a, str_bytes("ghostty")) {
        Some(BindingMode::Ghostty)
    } else if bytes_eq(a, str_bytes("original")) {
        Some(BindingMode::Original)
    } else {
        None
    }
}

} // verus!
