//! Editor dialogs' input: the go-to position and the search actions.

use vstd::prelude::*;
use vstd::string::StringSliceAdditionalSpecFns;
use crate::helpers::{CoordType, Point};
use crate::text::{find_byte, find_byte_exec, parse_isize, spec_parse_isize, str_bytes};

verus! {

/// What the search panel was asked to do.
#[derive(Clone, Copy, Debug, PartialEq, Eq, Structural)]
pub enum SearchAction {
    Search,
    Replace,
    ReplaceAll,
}

/// A number in the go-to text is not an integer in range.
#[derive(Clone, Copy, Debug, PartialEq, Eq, Structural)]
pub struct ParseIntError;

/// `v - 1`, saturating at the minimum.
pub open spec fn dec_sat(v: int) -> CoordType {
    if v - 1 < isize::MIN {
        isize::MIN
    } else {
        (v - 1) as CoordType
    }
}

/// `line` or `line:column`, 1-based, to a 0-based position (`x` the column,
/// `y` the line); a missing column is column 0.
pub open spec fn spec_goto_point(text: Seq<u8>) -> Option<Point> {
    let k = find_byte(text, 0x3a, 0);
    let ys = if k < text.len() { text.take(k) } else { text };
    let xs = if k < text.len() { text.skip(k + 1) } else { seq![0x30u8] };
    match (spec_parse_isize(xs), spec_parse_isize(ys)) {
        (Some(x), Some(y)) => Some(Point { x: dec_sat(x), y: dec_sat(y) }),
        _ => None,
    }
}

fn dec_saturating(v: isize) -> (r: isize)
    ensures
        r == dec_sat(v as int),
{
    if v == isize::MIN {
        v
    } else {
        v - 1
    }
}

/// Parses the go-to dialog's `line` or `line:column` (1-based) into a 0-based position.
pub fn validate_goto_point(line: &str) -> (r: Result<Point, ParseIntError>)
    ensures
        match r {
            Ok(p) => spec_goto_point(line.spec_bytes()) == Some(p),
            Err(_) => spec_goto_point(line.spec_bytes()) is None,
        },
{
    let text = str_bytes(line);
    let k = find_byte_exec(text, 0x3a, 0);
    let (ys, xs) = if k < text.len() {
        (&text[0..k], &text[k + 1..text.len()])
    } else {
        (text, str_bytes("0"))
    };
    proof {
        reveal_strlit("0");
        vstd::string::is_ascii_spec_bytes("0");
        assert("0".spec_bytes() =~= seq![0x30u8]);
        if k < text@.len() {
            assert(ys@ =~= text@.take(k as int));
            assert(xs@ =~= text@.skip(k + 1));
        }
    }
    let x = match parse_isize(xs) {
        Some(v) => dec_saturating(v),
        None => {
            return Err(ParseIntError);
        },
    };
    let y = match parse_isize(ys) {
        Some(v) => dec_saturating(v),
        None => {
            return Err(ParseIntError);
        },
    };
    Ok(Point { x, y })
}

/// `text` with every C0 control character (below 0x20) replaced by `_`.
pub open spec fn spec_sanitize(text: Seq<u8>) -> Seq<u8> {
    text.map_values(|b: u8| if b < 0x20 { 0x5Fu8 } else { b })
}

/// Replaces every C0 control character of `text` with `_`, so that it can
/// be shown in the terminal (for instance as the window title).
pub fn sanitize_control_chars(text: &[u8]) -> (r: Vec<u8>)
    ensures
        r@ == spec_sanitize(text@),
{
    let mut out: Vec<u8> = Vec::with_capacity(text.len());
    let mut i: usize = 0;
    while i < text.len()
        invariant
            i <= text.len(),
            out@ == spec_sanitize(text@.subrange(0, i as int)),
        decreases text.len() - i,
    {
        let b = text[i];
        out.push(if b < 0x20 { 0x5F } else { b });
        assert(text@.subrange(0, i + 1) =~= text@.subrange(0, i as int).push(b));
        i += 1;
    }
    assert(text@.subrange(0, text.len() as int) =~= text@);
    out
}

/// The OSC 52 sequence that puts `data` on the terminal's clipboard:
/// `ESC ] 52 ; c ;`, the data in base64, and `ESC \`.
pub open spec fn spec_osc_clipboard(data: Seq<u8>) -> Seq<u8> {
    seq![0x1Bu8, 0x5Du8, 0x35u8, 0x32u8, 0x3Bu8, 0x63u8, 0x3Bu8] + crate::base64::spec_encode(data)
        + seq![0x1Bu8, 0x5Cu8]
}

/// Appends to `output` what hands `data` to the terminal's clipboard;
/// nothing when `data` is empty.
pub fn write_osc_clipboard(output: &mut Vec<u8>, data: &[u8])
    ensures
        final(output)@ == if data.len() == 0 {
            old(output)@
        } else {
            old(output)@ + spec_osc_clipboard(data@)
        },
{
    if data.len() != 0 {
        let ghost start = output@;
        output.push(0x1B);
        output.push(0x5D);
        output.push(0x35);
        output.push(0x32);
        output.push(0x3B);
        output.push(0x63);
        output.push(0x3B);
        crate::base64::encode(output, data);
        output.push(0x1B);
        output.push(0x5C);
        assert(output@ =~= start + spec_osc_clipboard(data@));
    }
}


/// What the terminal's title shows: the active file's name (empty for none)
/// and whether that file has unsaved changes.
pub struct TitleStatus {
    pub filename: Vec<u8>,
    pub dirty: bool,
}

/// The OSC 0 sequence that sets the terminal's title: `ESC ] 0 ;`, then for a
/// file `● ` where it has unsaved changes, its name with control characters
/// replaced and ` - `, then `ze2` and `ESC \`.
pub open spec fn spec_terminal_title(filename: Seq<u8>, dirty: bool) -> Seq<u8> {
    seq![0x1Bu8, 0x5Du8, 0x30u8, 0x3Bu8] + (if filename.len() > 0 {
        (if dirty {
            seq![0xE2u8, 0x97u8, 0x8Fu8, 0x20u8]
        } else {
            Seq::empty()
        }) + spec_sanitize(filename) + seq![0x20u8, 0x2Du8, 0x20u8]
    } else {
        Seq::empty()
    }) + seq![0x7Au8, 0x65u8, 0x32u8, 0x1Bu8, 0x5Cu8]
}

/// Appends to `output` the sequence that titles the terminal after the active
/// file (`filename`, empty where there is none, and `dirty`), unless the title
/// `shown` is already that one; `shown` then records it.
pub fn write_terminal_title(output: &mut Vec<u8>, shown: &mut TitleStatus, filename: &[u8], dirty: bool)
    ensures
        old(shown).filename@ == filename@ && old(shown).dirty == dirty ==> final(output)@ == old(output)@,
        !(old(shown).filename@ == filename@ && old(shown).dirty == dirty) ==> final(output)@ == old(output)@
            + spec_terminal_title(filename@, dirty),
        final(shown).filename@ == filename@,
        final(shown).dirty == dirty,
{
    if shown.dirty == dirty && crate::text::bytes_eq(shown.filename.as_slice(), filename) {
        return;
    }
    let ghost start = output@;
    output.push(0x1B);
    output.push(0x5D);
    output.push(0x30);
    output.push(0x3B);
    if filename.len() > 0 {
        if dirty {
            output.push(0xE2);
            output.push(0x97);
            output.push(0x8F);
            output.push(0x20);
        }
        let mut name = sanitize_control_chars(filename);
        output.append(&mut name);
        output.push(0x20);
        output.push(0x2D);
        output.push(0x20);
    }
    output.push(0x7A);
    output.push(0x65);
    output.push(0x32);
    output.push(0x1B);
    output.push(0x5C);
    assert(output@ =~= start + spec_terminal_title(filename@, dirty));
    shown.filename = vstd::slice::slice_to_vec(filename);
    shown.dirty = dirty;
}

} // verus!
