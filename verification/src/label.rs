//! Styled labels: text with runs of colors and attributes, the labels of
//! buttons with their accelerator key underlined, and the shortcut text of
//! menu items.

use vstd::prelude::*;
use vstd::string::StringSliceAdditionalSpecFns;
use crate::framebuffer::Attributes;
use crate::input::{kbmod, InputKey};
use crate::oklab::StraightRgba;
use crate::text::{extend_bytes, find_byte, find_byte_exec, str_bytes};
use crate::tui::{ButtonStyle, ModifierTranslations};

verus! {

/// From `offset` on, the text of a label is drawn in `fg` with `attr`.
#[derive(Clone, Copy, Debug, PartialEq, Eq, Structural)]
pub struct StyledTextChunk {
    pub offset: usize,
    pub fg: StraightRgba,
    pub attr: Attributes,
}

/// The text of a label (UTF-8) and where its style changes.
pub struct StyledText {
    pub text: Vec<u8>,
    pub chunks: Vec<StyledTextChunk>,
}

/// The mathematical content of a label.
#[verifier::ext_equal]
pub struct StyledView {
    pub text: Seq<u8>,
    pub chunks: Seq<StyledTextChunk>,
}

impl View for StyledText {
    type V = StyledView;

    open spec fn view(&self) -> StyledView {
        StyledView { text: self.text@, chunks: self.chunks@ }
    }
}

/// The style in effect at the end of a label: its last chunk, or a chunk at
/// no offset of any text (transparent black, no attributes) before the first.
pub open spec fn last_chunk(chunks: Seq<StyledTextChunk>) -> StyledTextChunk {
    if chunks.len() == 0 {
        StyledTextChunk { offset: usize::MAX, fg: StraightRgba(0), attr: Attributes(0) }
    } else {
        chunks.last()
    }
}

/// The label with text added.
pub open spec fn add_text(l: StyledView, t: Seq<u8>) -> StyledView {
    StyledView { text: l.text + t, chunks: l.chunks }
}

/// The label with the color changed for the text that follows: a chunk is
/// added unless the last one starts at the end of the text or has that color.
pub open spec fn set_foreground(l: StyledView, fg: StraightRgba) -> StyledView {
    let last = last_chunk(l.chunks);
    if last.offset != l.text.len() && last.fg != fg {
        StyledView { text: l.text, chunks: l.chunks.push(StyledTextChunk { offset: l.text.len() as usize, fg, attr: last.attr }) }
    } else {
        l
    }
}

/// The label with the attributes changed for the text that follows (see
/// [`set_foreground`]).
pub open spec fn set_attributes(l: StyledView, attr: Attributes) -> StyledView {
    let last = last_chunk(l.chunks);
    if last.offset != l.text.len() && last.attr != attr {
        StyledView { text: l.text, chunks: l.chunks.push(StyledTextChunk { offset: l.text.len() as usize, fg: last.fg, attr }) }
    } else {
        l
    }
}

impl StyledText {
    /// An empty label.
    pub fn new() -> (r: StyledText)
        ensures
            r@.text.len() == 0,
            r@.chunks.len() == 0,
    {
        StyledText { text: Vec::new(), chunks: Vec::new() }
    }

    fn last(&self) -> (r: StyledTextChunk)
        ensures
            r == last_chunk(self.chunks@),
    {
        if self.chunks.len() == 0 {
            StyledTextChunk { offset: usize::MAX, fg: StraightRgba(0), attr: Attributes(0) }
        } else {
            self.chunks[self.chunks.len() - 1]
        }
    }

    /// Adds text to the label.
    pub fn add_text(&mut self, text: &str)
        ensures
            final(self)@ == add_text(old(self)@, text.spec_bytes()),
    {
        extend_bytes(&mut self.text, str_bytes(text));
    }

    /// Changes the color of the text that follows (see [`set_foreground`]).
    pub fn set_foreground(&mut self, fg: StraightRgba)
        ensures
            final(self)@ == set_foreground(old(self)@, fg),
    {
        let last = self.last();
        if last.offset != self.text.len() && last.fg != fg {
            let offset = self.text.len();
            self.chunks.push(StyledTextChunk { offset, fg, attr: last.attr });
        }
    }

    /// Changes the attributes of the text that follows (see [`set_attributes`]).
    pub fn set_attributes(&mut self, attr: Attributes)
        ensures
            final(self)@ == set_attributes(old(self)@, attr),
    {
        let last = self.last();
        if last.offset != self.text.len() && last.attr != attr {
            let offset = self.text.len();
            self.chunks.push(StyledTextChunk { offset, fg: last.fg, attr });
        }
    }
}


/// The first offset at or after `i` holding `a` or `b`, or the length.
pub open spec fn find_either(t: Seq<u8>, a: u8, b: u8, i: int) -> int
    decreases t.len() - i,
{
    if i < 0 || i >= t.len() || t[i] == a || t[i] == b {
        i
    } else {
        find_either(t, a, b, i + 1)
    }
}

/// Where a button's accelerator (an upper case ASCII letter) is in its text:
/// the first occurrence of the letter itself, else of its lower case; the
/// text's length where it occurs in neither case.
pub open spec fn accel_offset(t: Seq<u8>, acc: u8) -> int {
    if find_byte(t, acc, 0) < t.len() {
        find_byte(t, acc, 0)
    } else {
        find_either(t, acc, (acc + 0x20) as u8, 0)
    }
}

/// The label of a button with the text `t`: in brackets where the style says
/// so, after a check box where it has one; an accelerator found in the text
/// (see [`accel_offset`]) is underlined there, else added underlined in
/// parentheses after the text.
pub open spec fn spec_button_label(t: Seq<u8>, style: ButtonStyle) -> StyledView {
    let l0 = StyledView { text: Seq::empty(), chunks: Seq::empty() };
    let l1 = if style.bracketed {
        add_text(l0, "[".spec_bytes())
    } else {
        l0
    };
    let l2 = match style.checked {
        Some(true) => add_text(l1, "🗹 ".spec_bytes()),
        Some(false) => add_text(l1, "  ".spec_bytes()),
        None => l1,
    };
    let l3 = match style.accelerator {
        Some(a) => if 'A' <= a <= 'Z' {
            let acc = a as u8;
            let off = accel_offset(t, acc);
            if off < t.len() {
                add_text(
                    set_attributes(
                        add_text(set_attributes(add_text(l2, t.take(off)), Attributes(4)), t.subrange(off, off + 1)),
                        Attributes(0),
                    ),
                    t.skip(off + 1),
                )
            } else {
                add_text(
                    set_attributes(
                        add_text(set_attributes(add_text(add_text(l2, t), "(".spec_bytes()), Attributes(4)), seq![acc]),
                        Attributes(0),
                    ),
                    ")".spec_bytes(),
                )
            }
        } else {
            add_text(l2, t)
        },
        None => add_text(l2, t),
    };
    if style.bracketed {
        add_text(l3, "]".spec_bytes())
    } else {
        l3
    }
}

/// Where the accelerator is in the text (see [`accel_offset`]).
fn find_accelerator(t: &[u8], acc: u8) -> (r: usize)
    requires
        0x41 <= acc <= 0x5a,
    ensures
        r == accel_offset(t@, acc),
        r <= t@.len(),
{
    let e = find_byte_exec(t, acc, 0);
    if e < t.len() {
        return e;
    }
    let lower = acc + 0x20;
    let mut i: usize = 0;
    while i < t.len() && t[i] != acc && t[i] != lower
        invariant
            i <= t@.len(),
            find_either(t@, acc, lower, i as int) == find_either(t@, acc, lower, 0),
        decreases t@.len() - i,
    {
        i += 1;
    }
    i
}

impl StyledText {
    fn add_bytes(&mut self, bytes: &[u8])
        ensures
            final(self)@ == add_text(old(self)@, bytes@),
    {
        extend_bytes(&mut self.text, bytes);
    }
}

/// The label of a button (see [`spec_button_label`]).
pub fn button_label(text: &str, style: ButtonStyle) -> (r: StyledText)
    ensures
        r@ == spec_button_label(text.spec_bytes(), style),
{
    let t = str_bytes(text);
    let mut l = StyledText::new();
    let ghost l0 = StyledView { text: Seq::empty(), chunks: Seq::empty() };
    assert(l@ =~= l0);
    if style.bracketed {
        l.add_text("[");
    }
    match style.checked {
        Some(true) => l.add_text("🗹 "),
        Some(false) => l.add_text("  "),
        None => {},
    }
    let ghost l2 = l@;
    let mut plain = true;
    if let Some(a) = style.accelerator {
        if 'A' <= a && a <= 'Z' {
            plain = false;
            let acc = a as u8;
            let off = find_accelerator(t, acc);
            if off < t.len() {
                l.add_bytes(vstd::slice::slice_subrange(t, 0, off));
                proof {
                    assert(t@.subrange(0, off as int) =~= t@.take(off as int));
                }
                l.set_attributes(Attributes(4));
                l.add_bytes(vstd::slice::slice_subrange(t, off, off + 1));
                l.set_attributes(Attributes(0));
                l.add_bytes(vstd::slice::slice_subrange(t, off + 1, t.len()));
                proof {
                    assert(t@.subrange(off + 1, t@.len() as int) =~= t@.skip(off + 1));
                }
            } else {
                l.add_bytes(t);
                l.add_text("(");
                l.set_attributes(Attributes(4));
                let one = [acc];
                proof {
                    assert(one@ =~= seq![acc]);
                }
                l.add_bytes(&one);
                l.set_attributes(Attributes(0));
                l.add_text(")");
            }
        }
    }
    if plain {
        l.add_bytes(t);
    }
    let ghost l3 = l@;
    if style.bracketed {
        l.add_text("]");
    }
    proof {
        let spec_l2 = match style.checked {
            Some(true) => add_text(if style.bracketed { add_text(l0, "[".spec_bytes()) } else { l0 }, "🗹 ".spec_bytes()),
            Some(false) => add_text(if style.bracketed { add_text(l0, "[".spec_bytes()) } else { l0 }, "  ".spec_bytes()),
            None => if style.bracketed { add_text(l0, "[".spec_bytes()) } else { l0 },
        };
        assert(l2 == spec_l2);
    }
    l
}

/// The text shown for a menu item's shortcut: the modifiers' names, each
/// followed by `+`, then the key's letter; `None` where the key (its low byte)
/// is no upper case ASCII letter.
pub open spec fn spec_shortcut_text(key: InputKey, t: ModifierTranslations) -> Option<Seq<u8>> {
    let letter = (key % 256) as u8;
    if 0x41 <= letter <= 0x5a {
        Some(
            (if key & kbmod::CTRL != 0 {
                t.ctrl.spec_bytes() + seq![0x2Bu8]
            } else {
                Seq::empty()
            }) + (if key & kbmod::ALT != 0 {
                t.alt.spec_bytes() + seq![0x2Bu8]
            } else {
                Seq::empty()
            }) + (if key & kbmod::SHIFT != 0 {
                t.shift.spec_bytes() + seq![0x2Bu8]
            } else {
                Seq::empty()
            }) + seq![letter],
        )
    } else {
        None
    }
}

/// The shortcut text of a menu item (see [`spec_shortcut_text`]).
pub fn menubar_shortcut_text(key: InputKey, translations: &ModifierTranslations) -> (r: Option<Vec<u8>>)
    ensures
        match r {
            Some(v) => spec_shortcut_text(key, *translations) == Some(v@),
            None => spec_shortcut_text(key, *translations) is None,
        },
{
    let letter = (key % 256) as u8;
    if letter < 0x41 || letter > 0x5a {
        return None;
    }
    let mut out: Vec<u8> = Vec::new();
    let ghost start = out@;
    if key & kbmod::CTRL != 0 {
        extend_bytes(&mut out, str_bytes(translations.ctrl));
        out.push(0x2B);
    }
    let ghost a = out@;
    if key & kbmod::ALT != 0 {
        extend_bytes(&mut out, str_bytes(translations.alt));
        out.push(0x2B);
    }
    let ghost b = out@;
    if key & kbmod::SHIFT != 0 {
        extend_bytes(&mut out, str_bytes(translations.shift));
        out.push(0x2B);
    }
    out.push(letter);
    proof {
        assert(out@ =~= spec_shortcut_text(key, *translations)->Some_0);
    }
    Some(out)
}

} // verus!
