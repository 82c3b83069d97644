//! The input parser: a state machine over VT tokens that yields input events.
//!
//! Besides plain translation of tokens it handles two modes that span tokens:
//! bracketed pastes (`CSI 200 ~ ... CSI 201 ~`), whose content is taken
//! literally, and X10 mouse reports (`CSI M` followed by three raw characters).

use vstd::prelude::*;
use crate::helpers::{CoordType, Point, Size};
use crate::vt;
use crate::vt::{spec_next, spec_next_char, CsiView, State, Token, TokenView};
use super::{kbmod, vk, Input, InputKey, InputKeyMod, InputMouse, InputMouseState, InputView};

verus! {

/// The parser's state between calls; it outlives each chunk of input.
pub struct Parser {
    pub bracketed_paste: bool,
    pub bracketed_paste_buf: Vec<u8>,
    pub x10_mouse_want: bool,
    pub x10_mouse_buf: [char; 3],
    pub x10_mouse_len: usize,
}

/// The mathematical content of the input parser.
pub struct ParserView {
    pub bracketed_paste: bool,
    pub paste_buf: Seq<u8>,
    pub x10_want: bool,
    pub x10_buf: Seq<char>,
    pub x10_len: nat,
}

impl View for Parser {
    type V = ParserView;

    open spec fn view(&self) -> ParserView {
        ParserView {
            bracketed_paste: self.bracketed_paste,
            paste_buf: self.bracketed_paste_buf@,
            x10_want: self.x10_mouse_want,
            x10_buf: self.x10_mouse_buf@,
            x10_len: self.x10_mouse_len as nat,
        }
    }
}

/// The view of an optional input event.
pub open spec fn opt_input_view(i: Option<Input>) -> Option<InputView> {
    match i {
        Some(x) => Some(x@),
        None => None,
    }
}

/// The key that `ESC [ <c>` and `ESC O <c>` stand for, for `c` in `'A'..='H'`; 0 for none.
pub open spec fn keypad_key(c: char) -> InputKey {
    if c == 'A' {
        vk::UP
    } else if c == 'B' {
        vk::DOWN
    } else if c == 'C' {
        vk::RIGHT
    } else if c == 'D' {
        vk::LEFT
    } else if c == 'F' {
        vk::END
    } else if c == 'H' {
        vk::HOME
    } else {
        0
    }
}

/// The key that `CSI <n> ~` stands for, for `n < 35`; 0 for none.
pub open spec fn tilde_key(n: u16) -> InputKey {
    if n == 1 {
        vk::HOME
    } else if n == 2 {
        vk::INSERT
    } else if n == 3 {
        vk::DELETE
    } else if n == 4 {
        vk::END
    } else if n == 5 {
        vk::PRIOR
    } else if n == 6 {
        vk::NEXT
    } else if n == 15 {
        vk::F5
    } else if 17 <= n <= 21 {
        (vk::F6 + (n - 17)) as u32
    } else if n == 23 || n == 24 || n == 25 || n == 26 {
        (vk::F11 + (n - 23)) as u32
    } else if n == 28 || n == 29 {
        (vk::F15 + (n - 28)) as u32
    } else if 31 <= n <= 34 {
        (vk::F17 + (n - 31)) as u32
    } else {
        0
    }
}

/// The modifiers encoded in a CSI key parameter (1 + a bit set of Shift=1, Alt=2, Ctrl=4).
pub open spec fn csi_modifiers(p: u16) -> InputKeyMod {
    let m: u16 = if p == 0 { 0 } else { (p - 1) as u16 };
    (if m & 1 != 0 { kbmod::SHIFT } else { 0u32 }) | (if m & 2 != 0 { kbmod::ALT } else { 0u32 })
        | (if m & 4 != 0 { kbmod::CTRL } else { 0u32 })
}

/// A coordinate from a window-size report, clamped to `1..=32767`.
pub open spec fn clamp_coord(v: u16) -> CoordType {
    if v < 1 {
        1
    } else if v > 32767 {
        32767
    } else {
        v as CoordType
    }
}

/// The mouse event of an xterm (SGR) or X10 report with parameters `params`
/// and final byte `f` (`M` press/motion, `m` release); `None` for fewer than three parameters.
pub open spec fn xterm_mouse(params: Seq<u16>, f: char) -> Option<InputView> {
    if params.len() < 3 {
        None
    } else {
        let btn = params[0];
        let kind: u16 = btn & !0x1cu16;
        let zero = Point { x: 0, y: 0 };
        let wheel = f != 'm' && 0x40 <= kind < 0x44;
        let button = f != 'm' && !wheel && kind & !0x20u16 < 3;
        let delta: CoordType = if kind & 1 != 0 { 3isize } else { -3isize };
        let state = if wheel {
            InputMouseState::Scroll
        } else if button && kind & 3 == 0 {
            InputMouseState::Left
        } else if button && kind & 3 == 1 {
            InputMouseState::Middle
        } else if button && kind & 3 == 2 {
            InputMouseState::Right
        } else {
            InputMouseState::Idle
        };
        let scroll = if !wheel {
            zero
        } else if kind & 2 != 0 {
            Point { x: delta, y: 0 }
        } else {
            Point { x: 0, y: delta }
        };
        Some(
            InputView::Mouse(
                InputMouse {
                    state,
                    modifiers: (if btn & 4 != 0 { kbmod::SHIFT } else { 0u32 }) | (if btn & 8 != 0 {
                        kbmod::ALT
                    } else {
                        0u32
                    }) | (if btn & 0x10 != 0 { kbmod::CTRL } else { 0u32 }),
                    position: Point { x: (params[1] - 1) as CoordType, y: (params[2] - 1) as CoordType },
                    scroll,
                    drag: button && kind & 0x20 != 0,
                },
            ),
        )
    }
}

/// Whether a CSI sequence opens a bracketed paste (`CSI 200 ~`).
pub open spec fn starts_paste(c: CsiView) -> bool {
    c.final_byte == '~' && c.params[0] == 200
}

/// Whether a CSI sequence closes a bracketed paste (`CSI 201 ~`).
pub open spec fn ends_paste(t: TokenView) -> bool {
    t matches TokenView::Csi(c) && c.final_byte == '~' && c.params[0] == 201
}

/// Whether a CSI sequence announces an X10 mouse report (`CSI M` without parameters).
pub open spec fn starts_x10(c: CsiView) -> bool {
    c.final_byte == 'M' && c.private_byte != '<' && c.param_count == 0
}

/// Whether an SGR mouse report claims more parameters than the record holds.
pub open spec fn bad_mouse_report(c: CsiView) -> bool {
    (c.final_byte == 'm' || c.final_byte == 'M') && c.private_byte == '<' && c.param_count > 32
}

/// The event a CSI sequence stands for, if any.
pub open spec fn csi_event(c: CsiView) -> Option<InputView> {
    let f = c.final_byte;
    if 'A' <= f <= 'H' {
        if keypad_key(f) != 0 {
            Some(InputView::Keyboard(keypad_key(f) | csi_modifiers(c.params[1])))
        } else {
            None
        }
    } else if f == 'Z' {
        Some(InputView::Keyboard(kbmod::SHIFT | vk::TAB))
    } else if f == '~' {
        if c.params[0] < 35 && tilde_key(c.params[0]) != 0 {
            Some(InputView::Keyboard(tilde_key(c.params[0]) | csi_modifiers(c.params[1])))
        } else {
            None
        }
    } else if (f == 'm' || f == 'M') && c.private_byte == '<' {
        xterm_mouse(c.params.take(c.param_count as int), f)
    } else if f == 'M' && c.param_count == 0 {
        None
    } else if f == 't' && c.params[0] == 8 {
        Some(InputView::Resize(Size { width: clamp_coord(c.params[2]), height: clamp_coord(c.params[1]) }))
    } else if f == 'u' && c.param_count >= 1 {
        Some(InputView::Keyboard((c.params[0] as u32) | csi_modifiers(c.params[1])))
    } else {
        None
    }
}

/// The event a token stands for, if any.
pub open spec fn token_event(t: TokenView) -> Option<InputView> {
    match t {
        TokenView::Text(s) => Some(InputView::Text(s)),
        TokenView::Ctrl(c) => {
            if c == '\0' || c == '\t' || c == '\r' {
                Some(InputView::Keyboard(c as u32))
            } else if c == '\n' {
                Some(InputView::Keyboard(kbmod::CTRL | vk::RETURN))
            } else if c <= '\x1a' {
                Some(InputView::Keyboard(kbmod::CTRL | ((c as u32) | 0x40u32)))
            } else if c == '\x7f' {
                Some(InputView::Keyboard(vk::BACK))
            } else {
                None
            }
        },
        TokenView::Esc(c) => {
            if c == '\0' {
                Some(InputView::Keyboard(vk::ESCAPE))
            } else if c == '\n' {
                Some(InputView::Keyboard(kbmod::CTRL_ALT | vk::RETURN))
            } else if 'A' <= c <= 'Z' {
                Some(InputView::Keyboard(kbmod::ALT_SHIFT | (c as u32)))
            } else if 'a' <= c <= 'z' {
                Some(InputView::Keyboard(kbmod::ALT | ((c as u32 - 0x20) as u32)))
            } else if ' ' <= c <= '~' {
                Some(InputView::Keyboard(kbmod::ALT | (c as u32)))
            } else {
                None
            }
        },
        TokenView::SS3(c) => {
            if 'A' <= c <= 'H' && keypad_key(c) != 0 {
                Some(InputView::Keyboard(keypad_key(c)))
            } else if 'P' <= c <= 'S' {
                Some(InputView::Keyboard((vk::F1 + (c as u32 - 0x50)) as u32))
            } else {
                None
            }
        },
        TokenView::Csi(c) => csi_event(c),
        _ => None,
    }
}

/// The cursor keys: `ESC [ A`, `B`, `C`, `D`, `F` and `H` are Up, Down,
/// Right, Left, End and Home, with the modifiers of the second parameter
/// (none where it is 0 or 1); `ESC O` with the same letters gives the same
/// keys without modifiers.
pub proof fn lemma_cursor_keys(c: CsiView)
    ensures
        c.final_byte == 'A' ==> csi_event(c) == Some(InputView::Keyboard(vk::UP | csi_modifiers(c.params[1]))),
        c.final_byte == 'B' ==> csi_event(c) == Some(InputView::Keyboard(vk::DOWN | csi_modifiers(c.params[1]))),
        c.final_byte == 'C' ==> csi_event(c) == Some(InputView::Keyboard(vk::RIGHT | csi_modifiers(c.params[1]))),
        c.final_byte == 'D' ==> csi_event(c) == Some(InputView::Keyboard(vk::LEFT | csi_modifiers(c.params[1]))),
        c.final_byte == 'F' ==> csi_event(c) == Some(InputView::Keyboard(vk::END | csi_modifiers(c.params[1]))),
        c.final_byte == 'H' ==> csi_event(c) == Some(InputView::Keyboard(vk::HOME | csi_modifiers(c.params[1]))),
        c.params[1] <= 1 ==> csi_modifiers(c.params[1]) == 0,
        token_event(TokenView::SS3('A')) == Some(InputView::Keyboard(vk::UP)),
        token_event(TokenView::SS3('B')) == Some(InputView::Keyboard(vk::DOWN)),
        token_event(TokenView::SS3('C')) == Some(InputView::Keyboard(vk::RIGHT)),
        token_event(TokenView::SS3('D')) == Some(InputView::Keyboard(vk::LEFT)),
        token_event(TokenView::SS3('F')) == Some(InputView::Keyboard(vk::END)),
        token_event(TokenView::SS3('H')) == Some(InputView::Keyboard(vk::HOME)),
{
    assert(0u32 | 0u32 | 0u32 == 0u32) by (bit_vector);
    assert(0u16 & 1u16 == 0u16 && 0u16 & 2u16 == 0u16 && 0u16 & 4u16 == 0u16) by (bit_vector);
}

/// The modifier parameter of a CSI key is one more than a bit set of Shift
/// (1), Alt (2) and Ctrl (4): 2 is Shift, 3 Alt, 4 Alt+Shift, 5 Ctrl, 6
/// Ctrl+Shift, 7 Ctrl+Alt and 8 all three; 0 and 1 are none.
pub proof fn lemma_csi_modifier_values()
    ensures
        csi_modifiers(0) == kbmod::NONE,
        csi_modifiers(1) == kbmod::NONE,
        csi_modifiers(2) == kbmod::SHIFT,
        csi_modifiers(3) == kbmod::ALT,
        csi_modifiers(4) == kbmod::ALT_SHIFT,
        csi_modifiers(5) == kbmod::CTRL,
        csi_modifiers(6) == kbmod::CTRL_SHIFT,
        csi_modifiers(7) == kbmod::CTRL_ALT,
        csi_modifiers(8) == kbmod::CTRL_ALT_SHIFT,
{
    assert(0u16 & 1u16 == 0u16 && 0u16 & 2u16 == 0u16 && 0u16 & 4u16 == 0u16) by (bit_vector);
    assert(1u16 & 1u16 != 0u16 && 1u16 & 2u16 == 0u16 && 1u16 & 4u16 == 0u16) by (bit_vector);
    assert(2u16 & 1u16 == 0u16 && 2u16 & 2u16 != 0u16 && 2u16 & 4u16 == 0u16) by (bit_vector);
    assert(3u16 & 1u16 != 0u16 && 3u16 & 2u16 != 0u16 && 3u16 & 4u16 == 0u16) by (bit_vector);
    assert(4u16 & 1u16 == 0u16 && 4u16 & 2u16 == 0u16 && 4u16 & 4u16 != 0u16) by (bit_vector);
    assert(5u16 & 1u16 != 0u16 && 5u16 & 2u16 == 0u16 && 5u16 & 4u16 != 0u16) by (bit_vector);
    assert(6u16 & 1u16 == 0u16 && 6u16 & 2u16 != 0u16 && 6u16 & 4u16 != 0u16) by (bit_vector);
    assert(7u16 & 1u16 != 0u16 && 7u16 & 2u16 != 0u16 && 7u16 & 4u16 != 0u16) by (bit_vector);
    assert(0u32 | 0u32 | 0u32 == 0u32) by (bit_vector);
    assert(0x04000000u32 | 0u32 | 0u32 == 0x04000000u32) by (bit_vector);
    assert(0u32 | 0x02000000u32 | 0u32 == 0x02000000u32) by (bit_vector);
    assert(0x04000000u32 | 0x02000000u32 | 0u32 == 0x06000000u32) by (bit_vector);
    assert(0u32 | 0u32 | 0x01000000u32 == 0x01000000u32) by (bit_vector);
    assert(0x04000000u32 | 0u32 | 0x01000000u32 == 0x05000000u32) by (bit_vector);
    assert(0u32 | 0x02000000u32 | 0x01000000u32 == 0x03000000u32) by (bit_vector);
    assert(0x04000000u32 | 0x02000000u32 | 0x01000000u32 == 0x07000000u32) by (bit_vector);
}

/// The editing and function keys: `ESC [ n ~` is Home, Insert, Delete, End,
/// Page Up and Page Down for `n` from 1 to 6, F5 for 15, F6 to F10 for 17 to
/// 21 and F11, F12 for 23, 24, with the modifiers of the second parameter;
/// `ESC O P` to `ESC O S` are F1 to F4 and `ESC [ Z` is Shift+Tab.
pub proof fn lemma_editing_and_function_keys(c: CsiView)
    requires
        c.final_byte == '~',
    ensures
        c.params[0] == 1 ==> csi_event(c) == Some(InputView::Keyboard(vk::HOME | csi_modifiers(c.params[1]))),
        c.params[0] == 2 ==> csi_event(c) == Some(InputView::Keyboard(vk::INSERT | csi_modifiers(c.params[1]))),
        c.params[0] == 3 ==> csi_event(c) == Some(InputView::Keyboard(vk::DELETE | csi_modifiers(c.params[1]))),
        c.params[0] == 4 ==> csi_event(c) == Some(InputView::Keyboard(vk::END | csi_modifiers(c.params[1]))),
        c.params[0] == 5 ==> csi_event(c) == Some(InputView::Keyboard(vk::PRIOR | csi_modifiers(c.params[1]))),
        c.params[0] == 6 ==> csi_event(c) == Some(InputView::Keyboard(vk::NEXT | csi_modifiers(c.params[1]))),
        c.params[0] == 15 ==> csi_event(c) == Some(InputView::Keyboard(vk::F5 | csi_modifiers(c.params[1]))),
        c.params[0] == 17 ==> csi_event(c) == Some(InputView::Keyboard(vk::F6 | csi_modifiers(c.params[1]))),
        c.params[0] == 18 ==> csi_event(c) == Some(InputView::Keyboard(vk::F7 | csi_modifiers(c.params[1]))),
        c.params[0] == 19 ==> csi_event(c) == Some(InputView::Keyboard(vk::F8 | csi_modifiers(c.params[1]))),
        c.params[0] == 20 ==> csi_event(c) == Some(InputView::Keyboard(vk::F9 | csi_modifiers(c.params[1]))),
        c.params[0] == 21 ==> csi_event(c) == Some(InputView::Keyboard(vk::F10 | csi_modifiers(c.params[1]))),
        c.params[0] == 23 ==> csi_event(c) == Some(InputView::Keyboard(vk::F11 | csi_modifiers(c.params[1]))),
        c.params[0] == 24 ==> csi_event(c) == Some(InputView::Keyboard(vk::F12 | csi_modifiers(c.params[1]))),
        token_event(TokenView::SS3('P')) == Some(InputView::Keyboard(vk::F1)),
        token_event(TokenView::SS3('Q')) == Some(InputView::Keyboard(vk::F2)),
        token_event(TokenView::SS3('R')) == Some(InputView::Keyboard(vk::F3)),
        token_event(TokenView::SS3('S')) == Some(InputView::Keyboard(vk::F4)),
        csi_event(CsiView { final_byte: 'Z', ..c }) == Some(InputView::Keyboard(kbmod::SHIFT | vk::TAB)),
{
}

/// Control characters and Alt: Tab, Enter, Backspace and Escape are their
/// keys; another control character `c` below 27 is Ctrl with the letter
/// `c + 64`, and LF Ctrl+Enter; `ESC` before a lowercase letter is Alt with
/// that letter's key (its uppercase), before an uppercase one Alt+Shift.
pub proof fn lemma_control_keys(c: char)
    ensures
        token_event(TokenView::Ctrl('\t')) == Some(InputView::Keyboard(vk::TAB)),
        token_event(TokenView::Ctrl('\r')) == Some(InputView::Keyboard(vk::RETURN)),
        token_event(TokenView::Ctrl('\n')) == Some(InputView::Keyboard(kbmod::CTRL | vk::RETURN)),
        token_event(TokenView::Ctrl('\x7f')) == Some(InputView::Keyboard(vk::BACK)),
        token_event(TokenView::Esc('\0')) == Some(InputView::Keyboard(vk::ESCAPE)),
        ('\x01' <= c <= '\x1a' && c != '\t' && c != '\n' && c != '\r') ==> token_event(TokenView::Ctrl(c))
            == Some(InputView::Keyboard(kbmod::CTRL | ((c as u32) + 64) as u32)),
        ('a' <= c <= 'z') ==> token_event(TokenView::Esc(c)) == Some(
            InputView::Keyboard(kbmod::ALT | ((c as u32) - 32) as u32),
        ),
        ('A' <= c <= 'Z') ==> token_event(TokenView::Esc(c)) == Some(InputView::Keyboard(kbmod::ALT_SHIFT | (c as u32))),
{
    if '\x01' <= c <= '\x1a' {
        let x = c as u32;
        assert(1 <= x <= 26 ==> x | 0x40u32 == x + 64) by (bit_vector);
    }
}

/// The wheel in an SGR mouse report: button code 64 scrolls up by 3 rows,
/// 65 down by 3, 66 left by 3 columns and 67 right by 3 (whatever
/// Shift/Alt/Ctrl bits 4, 8, 16 are set besides); the Shift, Alt and Ctrl
/// bits of any report are its modifiers.
pub proof fn lemma_sgr_wheel(params: Seq<u16>)
    requires
        params.len() >= 3,
    ensures
        params[0] & 0xffe3u16 == 64 ==> mouse_of(xterm_mouse(params, 'M')) is Some && mouse_of(
            xterm_mouse(params, 'M'),
        )->0.state == InputMouseState::Scroll && mouse_of(xterm_mouse(params, 'M'))->0.scroll == (Point {
            x: 0,
            y: -3isize,
        }),
        params[0] & 0xffe3u16 == 65 ==> mouse_of(xterm_mouse(params, 'M')) is Some && mouse_of(
            xterm_mouse(params, 'M'),
        )->0.state == InputMouseState::Scroll && mouse_of(xterm_mouse(params, 'M'))->0.scroll == (Point {
            x: 0,
            y: 3,
        }),
        params[0] & 0xffe3u16 == 66 ==> mouse_of(xterm_mouse(params, 'M')) is Some && mouse_of(
            xterm_mouse(params, 'M'),
        )->0.state == InputMouseState::Scroll && mouse_of(xterm_mouse(params, 'M'))->0.scroll == (Point {
            x: -3isize,
            y: 0,
        }),
        params[0] & 0xffe3u16 == 67 ==> mouse_of(xterm_mouse(params, 'M')) is Some && mouse_of(
            xterm_mouse(params, 'M'),
        )->0.state == InputMouseState::Scroll && mouse_of(xterm_mouse(params, 'M'))->0.scroll == (Point {
            x: 3,
            y: 0,
        }),
        params[0] & 0x1cu16 == 0x04 ==> mouse_of(xterm_mouse(params, 'M'))->0.modifiers == kbmod::SHIFT,
        params[0] & 0x1cu16 == 0x08 ==> mouse_of(xterm_mouse(params, 'M'))->0.modifiers == kbmod::ALT,
        params[0] & 0x1cu16 == 0x10 ==> mouse_of(xterm_mouse(params, 'M'))->0.modifiers == kbmod::CTRL,
        params[0] & 0x1cu16 == 0 ==> mouse_of(xterm_mouse(params, 'M'))->0.modifiers == kbmod::NONE,
{
    let b = params[0];
    assert(b & 0xffe3u16 == 64 ==> (b & !0x1cu16) == 64) by (bit_vector);
    assert(b & 0xffe3u16 == 65 ==> (b & !0x1cu16) == 65) by (bit_vector);
    assert(b & 0xffe3u16 == 66 ==> (b & !0x1cu16) == 66) by (bit_vector);
    assert(b & 0xffe3u16 == 67 ==> (b & !0x1cu16) == 67) by (bit_vector);
    assert(64u16 & 1 == 0 && 64u16 & 2 == 0 && 65u16 & 1 != 0 && 65u16 & 2 == 0) by (bit_vector);
    assert(66u16 & 1 == 0 && 66u16 & 2 != 0 && 67u16 & 1 != 0 && 67u16 & 2 != 0) by (bit_vector);
    assert(b & 0x1cu16 == 0x04 ==> (b & 4 != 0 && b & 8 == 0 && b & 0x10 == 0)) by (bit_vector);
    assert(b & 0x1cu16 == 0x08 ==> (b & 4 == 0 && b & 8 != 0 && b & 0x10 == 0)) by (bit_vector);
    assert(b & 0x1cu16 == 0x10 ==> (b & 4 == 0 && b & 8 == 0 && b & 0x10 != 0)) by (bit_vector);
    assert(b & 0x1cu16 == 0 ==> (b & 4 == 0 && b & 8 == 0 && b & 0x10 == 0)) by (bit_vector);
    assert(0x04000000u32 | 0u32 | 0u32 == 0x04000000u32) by (bit_vector);
    assert(0u32 | 0x02000000u32 | 0u32 == 0x02000000u32) by (bit_vector);
    assert(0u32 | 0u32 | 0x01000000u32 == 0x01000000u32) by (bit_vector);
    assert(0u32 | 0u32 | 0u32 == 0u32) by (bit_vector);
}

/// The bits of an SGR button code that name the button: with only the
/// Shift/Alt/Ctrl bits (4, 8, 16) and the motion bit (32) besides, a code
/// below 3 is no wheel, and names its button in its low two bits.
proof fn lemma_button_bits(btn: u16)
    by (bit_vector)
    ensures
        (btn & 0xffc3u16) < 3 ==> {
            &&& (btn & !0x1cu16) < 0x40
            &&& (btn & !0x1cu16) & !0x20u16 == btn & 0xffc3u16
            &&& (btn & !0x1cu16) & 3 == btn & 0xffc3u16
        },
{
}

/// The mouse event among events, if it is one.
pub open spec fn mouse_of(e: Option<InputView>) -> Option<InputMouse> {
    match e {
        Some(InputView::Mouse(m)) => Some(m),
        _ => None,
    }
}

/// The buttons of an SGR mouse report `ESC [ < b ; x ; y M`: button code 0
/// is the left button held, 1 the middle and 2 the right one (whatever
/// Shift/Alt/Ctrl bits 4, 8, 16 and motion bit 32 are set besides), at
/// column `x - 1` and row `y - 1`, without scrolling; the same report ending
/// in `m` is a release: no button held.
pub proof fn lemma_sgr_buttons(params: Seq<u16>)
    requires
        params.len() >= 3,
    ensures
        params[0] & 0xffc3u16 == 0 ==> mouse_of(xterm_mouse(params, 'M')) is Some && mouse_of(
            xterm_mouse(params, 'M'),
        )->0.state == InputMouseState::Left,
        params[0] & 0xffc3u16 == 1 ==> mouse_of(xterm_mouse(params, 'M')) is Some && mouse_of(
            xterm_mouse(params, 'M'),
        )->0.state == InputMouseState::Middle,
        params[0] & 0xffc3u16 == 2 ==> mouse_of(xterm_mouse(params, 'M')) is Some && mouse_of(
            xterm_mouse(params, 'M'),
        )->0.state == InputMouseState::Right,
        params[0] & 0xffc3u16 < 3 ==> mouse_of(xterm_mouse(params, 'M'))->0.scroll == (Point { x: 0, y: 0 })
            && mouse_of(xterm_mouse(params, 'M'))->0.position == (Point {
            x: (params[1] - 1) as CoordType,
            y: (params[2] - 1) as CoordType,
        }),
        mouse_of(xterm_mouse(params, 'm')) is Some && mouse_of(xterm_mouse(params, 'm'))->0.state
            == InputMouseState::Idle && !mouse_of(xterm_mouse(params, 'm'))->0.drag,
{
    lemma_button_bits(params[0]);
}

/// A measure on VT parser states: a token that leaves the offset where it was
/// moves the state down this ladder.
pub open spec fn state_rank(s: State) -> int {
    match s {
        State::Ground => 0,
        State::OscEsc | State::DcsEsc => 2,
        _ => 1,
    }
}

/// Whether a VT step from `(vp, off)` to `(vp2, off2)` made progress.
pub open spec fn progress(len: int, vp: vt::ParserView, off: int, vp2: vt::ParserView, off2: int) -> bool {
    (off < off2 <= len) || (off2 == off && state_rank(vp2.state) < state_rank(vp.state))
}

/// Scanning a bracketed paste for its end: the VT parser and offset afterwards,
/// the offset after the last token of the paste's content, and whether the end was found.
pub open spec fn paste_scan(vp: vt::ParserView, input: Seq<u8>, off: int, end: int) -> Option<
    (vt::ParserView, int, int, bool),
>
    decreases input.len() - off, state_rank(vp.state),
{
    if off < 0 || off > input.len() {
        None
    } else {
        match spec_next(vp, input, off) {
            None => None,
            Some((vp2, off2, None)) => Some((vp2, off2, end, false)),
            Some((vp2, off2, Some(t))) => {
                if ends_paste(t) {
                    Some((vp2, off2, end, true))
                } else if progress(input.len() as int, vp, off, vp2, off2) {
                    paste_scan(vp2, input, off2, off2)
                } else {
                    None
                }
            },
        }
    }
}

/// The result of one call: the input parser, the VT parser and offset
/// afterwards, and the event, if any. `None` marks inputs on which parsing
/// cannot proceed without an index or an arithmetic operation leaving its range.
pub type InStep = Option<(ParserView, vt::ParserView, int, Option<InputView>)>;

/// Reading on inside a bracketed paste.
pub open spec fn spec_paste(ip: ParserView, vp: vt::ParserView, input: Seq<u8>, off: int) -> InStep {
    match paste_scan(vp, input, off, off) {
        None => None,
        Some((vp2, off2, end, found)) => {
            if !(off <= end <= input.len()) {
                None
            } else {
                let buf = ip.paste_buf + input.subrange(off, end);
                if found {
                    Some(
                        (
                            ParserView { bracketed_paste: false, paste_buf: Seq::empty(), ..ip },
                            vp2,
                            off2,
                            Some(InputView::Paste(buf)),
                        ),
                    )
                } else {
                    Some((ParserView { paste_buf: buf, ..ip }, vp2, off2, None))
                }
            }
        },
    }
}

/// Reading the raw characters of an X10 mouse report into `buf` until it holds three.
pub open spec fn x10_fill(buf: Seq<char>, len: nat, input: Seq<u8>, off: int) -> (Seq<char>, nat, int)
    decreases 3 - len,
{
    if len < 3 && off < input.len() {
        let (c, n) = spec_next_char(input, off);
        x10_fill(buf.update(len as int, c), len + 1, input, n)
    } else {
        (buf, len, off)
    }
}

/// A raw X10 coordinate: the character's code, truncated to 16 bits, minus 32.
pub open spec fn x10_value(c: char) -> int {
    (c as u32 % 0x10000) - 0x20
}

/// Reading on inside an X10 mouse report.
pub open spec fn spec_x10(ip: ParserView, vp: vt::ParserView, input: Seq<u8>, off: int) -> InStep {
    let (buf, len, off2) = x10_fill(ip.x10_buf, ip.x10_len, input, off);
    if off < 0 || off > input.len() {
        None
    } else if len < 3 {
        Some((ParserView { x10_buf: buf, x10_len: len, ..ip }, vp, off2, None))
    } else if x10_value(buf[0]) < 0 || x10_value(buf[1]) < 0 || x10_value(buf[2]) < 0 {
        None
    } else {
        Some(
            (
                ParserView { x10_want: false, x10_buf: buf, x10_len: 0, ..ip },
                vp,
                off2,
                xterm_mouse(
                    seq![x10_value(buf[0]) as u16, x10_value(buf[1]) as u16, x10_value(buf[2]) as u16],
                    'M',
                ),
            ),
        )
    }
}

/// One call of `Stream::next`: tokens are read until one stands for an event,
/// opens a paste or a mouse report, or the input runs out.
pub open spec fn spec_input_next(ip: ParserView, vp: vt::ParserView, input: Seq<u8>, off: int) -> InStep
    decreases input.len() - off, state_rank(vp.state),
{
    if off < 0 || off > input.len() {
        None
    } else if ip.bracketed_paste {
        spec_paste(ip, vp, input, off)
    } else if ip.x10_want {
        spec_x10(ip, vp, input, off)
    } else {
        match spec_next(vp, input, off) {
            None => None,
            Some((vp2, off2, None)) => Some((ip, vp2, off2, None)),
            Some((vp2, off2, Some(t))) => {
                if t matches TokenView::Csi(c) && bad_mouse_report(c) {
                    None
                } else if token_event(t) is Some {
                    Some((ip, vp2, off2, token_event(t)))
                } else if t matches TokenView::Csi(c) && starts_paste(c) {
                    spec_paste(ParserView { bracketed_paste: true, ..ip }, vp2, input, off2)
                } else if t matches TokenView::Csi(c) && starts_x10(c) {
                    spec_x10(ParserView { x10_want: true, ..ip }, vp2, input, off2)
                } else if progress(input.len() as int, vp, off, vp2, off2) {
                    spec_input_next(ip, vp2, input, off2)
                } else {
                    None
                }
            },
        }
    }
}


/// The key for `'A'..='H'` after `CSI` or `SS3`; 0 for none.
fn keypad(c: char) -> (k: InputKey)
    ensures
        k == keypad_key(c),
{
    if c == 'A' {
        vk::UP
    } else if c == 'B' {
        vk::DOWN
    } else if c == 'C' {
        vk::RIGHT
    } else if c == 'D' {
        vk::LEFT
    } else if c == 'F' {
        vk::END
    } else if c == 'H' {
        vk::HOME
    } else {
        0
    }
}

/// The key for `CSI <n> ~`; 0 for none.
fn tilde(n: u16) -> (k: InputKey)
    requires
        n < 35,
    ensures
        k == tilde_key(n),
{
    if n == 1 {
        vk::HOME
    } else if n == 2 {
        vk::INSERT
    } else if n == 3 {
        vk::DELETE
    } else if n == 4 {
        vk::END
    } else if n == 5 {
        vk::PRIOR
    } else if n == 6 {
        vk::NEXT
    } else if n == 15 {
        vk::F5
    } else if 17 <= n && n <= 21 {
        vk::F6 + (n as u32 - 17)
    } else if n == 23 || n == 24 || n == 25 || n == 26 {
        vk::F11 + (n as u32 - 23)
    } else if n == 28 || n == 29 {
        vk::F15 + (n as u32 - 28)
    } else if 31 <= n && n <= 34 {
        vk::F17 + (n as u32 - 31)
    } else {
        0
    }
}

impl Parser {
    /// Creates a new parser that turns VT sequences into input events.
    ///
    /// Keep the instance alive for the lifetime of the input stream.
    pub fn new() -> (p: Parser)
        ensures
            !p@.bracketed_paste,
            p@.paste_buf == Seq::<u8>::empty(),
            !p@.x10_want,
            p@.x10_buf == seq!['\0', '\0', '\0'],
            p@.x10_len == 0,
    {
        let p = Parser {
            bracketed_paste: false,
            bracketed_paste_buf: Vec::new(),
            x10_mouse_want: false,
            x10_mouse_buf: ['\0'; 3],
            x10_mouse_len: 0,
        };
        assert(p@.x10_buf =~= seq!['\0', '\0', '\0']);
        p
    }

    /// Takes a VT token stream and returns a [`Stream`] that turns its tokens
    /// into input events. Both parsers travel with the stream and are handed
    /// back by [`Stream::into_parts`].
    pub fn parse<'input>(self, stream: vt::Stream<'input>) -> (s: Stream<'input>)
        ensures
            s.parser@ == self@,
            s.stream == stream,
    {
        Stream { parser: self, stream }
    }
}

/// Parses VT sequences into input events.
pub struct Stream<'input> {
    pub parser: Parser,
    pub stream: vt::Stream<'input>,
}

impl<'input> Stream<'input> {
    /// Hands back the input parser and the VT stream, with the states they reached.
    pub fn into_parts(self) -> (r: (Parser, vt::Stream<'input>))
        ensures
            r.0@ == self.parser@,
            r.1 == self.stream,
    {
        (self.parser, self.stream)
    }

    /// Returns the next input event, or `None` once the input is exhausted
    /// (an escape sequence split across reads is finished on a later call).
    pub fn next(&mut self) -> (r: Option<Input>)
        requires
            old(self).stream.off <= old(self).stream.input@.len(),
            spec_input_next(
                old(self).parser@,
                old(self).stream.parser@,
                old(self).stream.input@,
                old(self).stream.off as int,
            ) is Some,
        ensures
            spec_input_next(
                old(self).parser@,
                old(self).stream.parser@,
                old(self).stream.input@,
                old(self).stream.off as int,
            ) == Some(
                (
                    final(self).parser@,
                    final(self).stream.parser@,
                    final(self).stream.off as int,
                    opt_input_view(r),
                ),
            ),
            final(self).stream.input == old(self).stream.input,
    {
        if self.parser.bracketed_paste {
            return self.handle_bracketed_paste();
        }
        if self.parser.x10_mouse_want {
            return self.parse_x10_mouse_coordinates();
        }
        loop
            invariant
                self.stream.input == old(self).stream.input,
                self.parser@ == old(self).parser@,
                !self.parser.bracketed_paste,
                !self.parser.x10_mouse_want,
                self.stream.off <= self.stream.input@.len(),
                spec_input_next(
                    self.parser@,
                    self.stream.parser@,
                    self.stream.input@,
                    self.stream.off as int,
                ) == spec_input_next(
                    old(self).parser@,
                    old(self).stream.parser@,
                    old(self).stream.input@,
                    old(self).stream.off as int,
                ),
                spec_input_next(
                    self.parser@,
                    self.stream.parser@,
                    self.stream.input@,
                    self.stream.off as int,
                ) is Some,
            decreases self.stream.input@.len() - self.stream.off, state_rank(self.stream.parser.state),
        {
            let tok = self.stream.next();
            match tok {
                None => {
                    return None;
                },
                Some(t) => {
                    let csi: Option<vt::Csi> = match &t {
                        Token::Csi(c) => Some(*c),
                        _ => None,
                    };
                    let ev = Self::translate(t);
                    if ev.is_some() {
                        return ev;
                    }
                    if let Some(c) = csi {
                        if c.final_byte == '~' && c.params[0] == 200 {
                            self.parser.bracketed_paste = true;
                            return self.handle_bracketed_paste();
                        }
                        if c.final_byte == 'M' && c.private_byte != '<' && c.param_count == 0 {
                            self.parser.x10_mouse_want = true;
                            return self.parse_x10_mouse_coordinates();
                        }
                    }
                },
            }
        }
    }

    /// The event a token stands for, if any.
    fn translate(t: Token) -> (r: Option<Input>)
        requires
            !(t@ matches TokenView::Csi(c) && bad_mouse_report(c)),
        ensures
            opt_input_view(r) == token_event(t@),
    {
        match t {
            Token::Text(text) => Some(Input::Text(text)),
            Token::Ctrl(ch) => {
                if ch == '\0' || ch == '\t' || ch == '\r' {
                    Some(Input::Keyboard(ch as u32))
                } else if ch == '\n' {
                    Some(Input::Keyboard(kbmod::CTRL | vk::RETURN))
                } else if ch <= '\x1a' {
                    // Shift the control code to A-Z.
                    Some(Input::Keyboard(kbmod::CTRL | ((ch as u32) | 0x40)))
                } else if ch == '\x7f' {
                    Some(Input::Keyboard(vk::BACK))
                } else {
                    None
                }
            },
            Token::Esc(ch) => {
                if ch == '\0' {
                    Some(Input::Keyboard(vk::ESCAPE))
                } else if ch == '\n' {
                    Some(Input::Keyboard(kbmod::CTRL_ALT | vk::RETURN))
                } else if 'A' <= ch && ch <= 'Z' {
                    Some(Input::Keyboard(kbmod::ALT_SHIFT | (ch as u32)))
                } else if 'a' <= ch && ch <= 'z' {
                    Some(Input::Keyboard(kbmod::ALT | (ch as u32 - 0x20)))
                } else if ' ' <= ch && ch <= '~' {
                    Some(Input::Keyboard(kbmod::ALT | (ch as u32)))
                } else {
                    None
                }
            },
            Token::SS3(ch) => {
                if 'A' <= ch && ch <= 'H' && keypad(ch) != 0 {
                    Some(Input::Keyboard(keypad(ch)))
                } else if 'P' <= ch && ch <= 'S' {
                    Some(Input::Keyboard(vk::F1 + (ch as u32 - 0x50)))
                } else {
                    None
                }
            },
            Token::Csi(csi) => Self::csi_input(&csi),
            _ => None,
        }
    }

    /// The event a CSI sequence stands for, if any.
    fn csi_input(csi: &vt::Csi) -> (r: Option<Input>)
        requires
            !bad_mouse_report(csi@),
        ensures
            opt_input_view(r) == csi_event(csi@),
    {
        let f = csi.final_byte;
        if 'A' <= f && f <= 'H' {
            let k = keypad(f);
            if k != 0 {
                Some(Input::Keyboard(k | Self::parse_modifiers(csi)))
            } else {
                None
            }
        } else if f == 'Z' {
            Some(Input::Keyboard(kbmod::SHIFT | vk::TAB))
        } else if f == '~' {
            if csi.params[0] < 35 && tilde(csi.params[0]) != 0 {
                Some(Input::Keyboard(tilde(csi.params[0]) | Self::parse_modifiers(csi)))
            } else {
                None
            }
        } else if (f == 'm' || f == 'M') && csi.private_byte == '<' {
            let params = &csi.params.as_slice()[0..csi.param_count];
            assert(params@ =~= csi@.params.take(csi.param_count as int));
            Self::parse_xterm_mouse(params, f)
        } else if f == 'M' && csi.param_count == 0 {
            None
        } else if f == 't' && csi.params[0] == 8 {
            // Window size report.
            let width = Self::clamp_coord(csi.params[2]);
            let height = Self::clamp_coord(csi.params[1]);
            Some(Input::Resize(Size { width, height }))
        } else if f == 'u' && csi.param_count >= 1 {
            Some(Input::Keyboard((csi.params[0] as u32) | Self::parse_modifiers(csi)))
        } else {
            None
        }
    }

    fn clamp_coord(v: u16) -> (c: CoordType)
        ensures
            c == clamp_coord(v),
    {
        if v < 1 {
            1
        } else if v > 32767 {
            32767
        } else {
            v as CoordType
        }
    }

    /// The modifiers of a CSI key sequence, from its second parameter.
    fn parse_modifiers(csi: &vt::Csi) -> (m: InputKeyMod)
        ensures
            m == csi_modifiers(csi.params[1]),
    {
        let p1 = csi.params[1].saturating_sub(1);
        let shift = if (p1 & 0x01) != 0 { kbmod::SHIFT } else { 0 };
        let alt = if (p1 & 0x02) != 0 { kbmod::ALT } else { 0 };
        let ctrl = if (p1 & 0x04) != 0 { kbmod::CTRL } else { 0 };
        shift | alt | ctrl
    }

    /// The event of a mouse report: `[button, x, y, ..]` with final byte `M`
    /// (press or motion) or `m` (release).
    fn parse_xterm_mouse(params: &[u16], final_byte: char) -> (r: Option<Input>)
        ensures
            opt_input_view(r) == xterm_mouse(params@, final_byte),
    {
        if params.len() < 3 {
            return None;
        }
        let btn = params[0];
        let kind = btn & !0x1cu16;
        let mut state = InputMouseState::Idle;
        let mut scroll = Point { x: 0, y: 0 };
        let mut drag = false;
        if final_byte == 'm' {
            // A release is reported as the absence of held buttons.
        } else if 0x40 <= kind && kind < 0x44 {
            let delta: CoordType = if (kind & 1) != 0 { 3 } else { -3 };
            if (kind & 2) != 0 {
                scroll.x = delta;
            } else {
                scroll.y = delta;
            }
            state = InputMouseState::Scroll;
        } else if (kind & !0x20u16) < 3 {
            let b = kind & 3;
            if b == 0 {
                state = InputMouseState::Left;
            } else if b == 1 {
                state = InputMouseState::Middle;
            } else if b == 2 {
                state = InputMouseState::Right;
            }
            drag = (kind & 0x20) != 0;
        }
        let shift = if (btn & 0x04) != 0 { kbmod::SHIFT } else { 0 };
        let alt = if (btn & 0x08) != 0 { kbmod::ALT } else { 0 };
        let ctrl = if (btn & 0x10) != 0 { kbmod::CTRL } else { 0 };
        let x = params[1] as CoordType - 1;
        let y = params[2] as CoordType - 1;
        Some(
            Input::Mouse(
                InputMouse {
                    state,
                    modifiers: shift | alt | ctrl,
                    position: Point { x, y },
                    scroll,
                    drag,
                },
            ),
        )
    }

    /// Once the start of a bracketed paste was seen, collects input up to
    /// its end (`CSI 201 ~`); everything in between is taken literally.
    fn handle_bracketed_paste(&mut self) -> (r: Option<Input>)
        requires
            spec_paste(
                old(self).parser@,
                old(self).stream.parser@,
                old(self).stream.input@,
                old(self).stream.off as int,
            ) is Some,
        ensures
            spec_paste(
                old(self).parser@,
                old(self).stream.parser@,
                old(self).stream.input@,
                old(self).stream.off as int,
            ) == Some(
                (
                    final(self).parser@,
                    final(self).stream.parser@,
                    final(self).stream.off as int,
                    opt_input_view(r),
                ),
            ),
            final(self).stream.input == old(self).stream.input,
    {
        let ghost vp0 = self.stream.parser@;
        let ghost input = self.stream.input@;
        let beg = self.stream.offset();
        let mut end = beg;
        let mut found = false;
        loop
            invariant_except_break
                paste_scan(self.stream.parser@, input, self.stream.off as int, end as int)
                    == paste_scan(vp0, input, beg as int, beg as int),
                paste_scan(self.stream.parser@, input, self.stream.off as int, end as int) is Some,
                end <= self.stream.off <= input.len(),
                !found,
            invariant
                self.stream.input == old(self).stream.input,
                input == self.stream.input@,
                self.parser@ == old(self).parser@,
                beg == old(self).stream.off,
                beg <= end,
            ensures
                paste_scan(vp0, input, beg as int, beg as int) == Some(
                    (self.stream.parser@, self.stream.off as int, end as int, found),
                ),
            decreases input.len() - self.stream.off, state_rank(self.stream.parser.state),
        {
            let tok = self.stream.next();
            match tok {
                None => {
                    break;
                },
                Some(t) => {
                    let is_end = match &t {
                        Token::Csi(c) => c.final_byte == '~' && c.params[0] == 201,
                        _ => false,
                    };
                    if is_end {
                        found = true;
                        break;
                    }
                    end = self.stream.offset();
                },
            }
        }
        if end != beg {
            let bytes = self.stream.input();
            let mut chunk = vstd::slice::slice_to_vec(&bytes[beg..end]);
            self.parser.bracketed_paste_buf.append(&mut chunk);
        }
        proof {
            assert(input.subrange(beg as int, beg as int) =~= Seq::<u8>::empty());
            assert(old(self).parser@.paste_buf + Seq::<u8>::empty() =~= old(self).parser@.paste_buf);
        }
        if found {
            self.parser.bracketed_paste = false;
            let mut buf = Vec::new();
            std::mem::swap(&mut buf, &mut self.parser.bracketed_paste_buf);
            Some(Input::Paste(buf))
        } else {
            None
        }
    }

    /// Implements the X10 mouse protocol, `CSI M` followed by three raw
    /// characters: button, column and row, each offset by 32.
    fn parse_x10_mouse_coordinates(&mut self) -> (r: Option<Input>)
        requires
            spec_x10(
                old(self).parser@,
                old(self).stream.parser@,
                old(self).stream.input@,
                old(self).stream.off as int,
            ) is Some,
        ensures
            spec_x10(
                old(self).parser@,
                old(self).stream.parser@,
                old(self).stream.input@,
                old(self).stream.off as int,
            ) == Some(
                (
                    final(self).parser@,
                    final(self).stream.parser@,
                    final(self).stream.off as int,
                    opt_input_view(r),
                ),
            ),
            final(self).stream.input == old(self).stream.input,
    {
        while self.parser.x10_mouse_len < 3 && !self.stream.done()
            invariant
                self.stream.input == old(self).stream.input,
                self.stream.parser@ == old(self).stream.parser@,
                self.parser.bracketed_paste == old(self).parser.bracketed_paste,
                self.parser.bracketed_paste_buf@ == old(self).parser.bracketed_paste_buf@,
                self.parser.x10_mouse_want == old(self).parser.x10_mouse_want,
                x10_fill(
                    self.parser.x10_mouse_buf@,
                    self.parser.x10_mouse_len as nat,
                    self.stream.input@,
                    self.stream.off as int,
                ) == x10_fill(
                    old(self).parser.x10_mouse_buf@,
                    old(self).parser.x10_mouse_len as nat,
                    old(self).stream.input@,
                    old(self).stream.off as int,
                ),
            decreases 3 - self.parser.x10_mouse_len,
        {
            let c = self.stream.next_char();
            let i = self.parser.x10_mouse_len;
            self.parser.x10_mouse_buf[i] = c;
            self.parser.x10_mouse_len = i + 1;
        }
        if self.parser.x10_mouse_len < 3 {
            return None;
        }
        let b = (self.parser.x10_mouse_buf[0] as u32 % 0x10000) as u16 - 0x20;
        let x = (self.parser.x10_mouse_buf[1] as u32 % 0x10000) as u16 - 0x20;
        let y = (self.parser.x10_mouse_buf[2] as u32 % 0x10000) as u16 - 0x20;
        self.parser.x10_mouse_want = false;
        self.parser.x10_mouse_len = 0;
        let params = [b, x, y];
        assert(params@ =~= seq![b, x, y]);
        Self::parse_xterm_mouse(params.as_slice(), 'M')
    }
}

proof fn lemma_digits_forward(v: u16, input: Seq<u8>, i: int)
    requires
        0 <= i <= input.len(),
    ensures
        i <= vt::spec_digits(v, input, i).1 <= input.len(),
    decreases input.len() - i,
{
    if i < input.len() && vt::is_digit(input[i]) {
        let w = v * 10 + (input[i] - 0x30);
        lemma_digits_forward(if w > 0xffff { 0xffffu16 } else { w as u16 }, input, i + 1);
    }
}

proof fn lemma_skip_digits_forward(input: Seq<u8>, i: int)
    requires
        0 <= i <= input.len(),
    ensures
        i <= vt::skip_digits(input, i) <= input.len(),
    decreases input.len() - i,
{
    if i < input.len() && vt::is_digit(input[i]) {
        lemma_skip_digits_forward(input, i + 1);
    }
}

/// A CSI sequence ends within the input, and a token ends after its start.
proof fn lemma_csi_forward(p: vt::ParserView, input: Seq<u8>, off: int)
    requires
        0 <= off <= input.len(),
    ensures
        match vt::spec_csi(p, input, off) {
            Some((p2, off2, t)) => off <= off2 <= input.len() && (t is Some ==> off < off2) && (t is None ==> off2
                >= input.len()),
            None => true,
        },
    decreases input.len() - off,
{
    let count = p.csi.param_count;
    if count < 32 {
        lemma_digits_forward(p.csi.params[count as int], input, off);
    } else {
        lemma_skip_digits_forward(input, off);
    }
    let (p1, o1) = if count < 32 {
        let (v, o) = vt::spec_digits(p.csi.params[count as int], input, off);
        (p.with_csi(CsiView { params: p.csi.params.update(count as int, v), ..p.csi }), o)
    } else {
        (p, vt::skip_digits(input, off))
    };
    if o1 < input.len() {
        let c = input[o1];
        if 0x40 <= c <= 0x7e {
        } else if c == 0x3b {
            if p1.csi.param_count < usize::MAX {
                lemma_csi_forward(
                    p1.with_csi(CsiView { param_count: (p1.csi.param_count + 1) as nat, ..p1.csi }),
                    input,
                    o1 + 1,
                );
            }
        } else if 0x3c <= c <= 0x3f {
            lemma_csi_forward(p1.with_csi(CsiView { private_byte: c as char, ..p1.csi }), input, o1 + 1);
        } else {
            lemma_csi_forward(p1, input, o1 + 1);
        }
    }
}

/// An OSC or DCS payload ends within the input, after its start where the
/// input was not exhausted.
proof fn lemma_string_forward(p: vt::ParserView, input: Seq<u8>, beg: int, off: int)
    requires
        0 <= off <= input.len(),
    ensures
        match vt::spec_string(p, input, beg, off) {
            Some((p2, off2, t)) => off <= off2 <= input.len() && (off < input.len() ==> off < off2) && t is Some,
            None => true,
        },
    decreases input.len() - off,
{
    let i = vt::find_bel_esc(input, off);
    vt::lemma_find_bounds(input, off);
    if i < input.len() && input[i] == 0x1b && i + 1 < input.len() && input[i + 1] != 0x5c {
        lemma_string_forward(p, input, beg, i + 1);
    }
}

/// Each step of the VT parser's main loop ends within the input and no
/// earlier than it started, and a token either consumes input or leaves an
/// escape state for a simpler one.
proof fn lemma_run_forward(p: vt::ParserView, input: Seq<u8>, off: int)
    requires
        0 <= off <= input.len(),
    ensures
        match vt::spec_run(p, input, off) {
            Some((p2, off2, t)) => {
                &&& off <= off2 <= input.len()
                &&& t is Some ==> (off < off2 || (off2 == off && state_rank(p2.state) < state_rank(p.state)))
                &&& t is None ==> off2 >= input.len()
            },
            None => true,
        },
    decreases input.len() - off,
{
    if off < input.len() {
        match p.state {
            State::Ground => {
                if input[off] == 0x1b {
                    lemma_run_forward(p.with_state(State::Esc), input, off + 1);
                } else if !vt::is_ctrl_byte(input[off]) {
                    vt::lemma_text_end_bounds(input, off + 1);
                }
            },
            State::Esc => {
                crate::utf8::lemma_decode_is_scalar(input, off);
                let (c, n) = spec_next_char(input, off);
                if c == '[' {
                    match vt::csi_reset(p.csi) {
                        None => {},
                        Some(c2) => lemma_run_forward(p.with_csi(c2).with_state(State::Csi), input, n),
                    }
                } else if c == ']' {
                    lemma_run_forward(p.with_state(State::Osc), input, n);
                } else if c == 'O' {
                    lemma_run_forward(p.with_state(State::Ss3), input, n);
                } else if c == 'P' {
                    lemma_run_forward(p.with_state(State::Dcs), input, n);
                }
            },
            State::Ss3 => {
                crate::utf8::lemma_decode_is_scalar(input, off);
            },
            State::Csi => {
                lemma_csi_forward(p, input, off);
            },
            State::Osc | State::Dcs => {
                lemma_string_forward(p, input, off, off);
            },
            _ => {},
        }
    }
}

/// The VT parser never stalls: every token it produces consumes input, or
/// else turns an escape state into a simpler one.
pub proof fn lemma_vt_progress(p: vt::ParserView, input: Seq<u8>, off: int)
    requires
        0 <= off <= input.len(),
    ensures
        match spec_next(p, input, off) {
            Some((p2, off2, Some(t))) => progress(input.len() as int, p, off, p2, off2),
            _ => true,
        },
{
    if !(input.len() == 0 && (p.state == State::Esc || p.state == State::Csi || p.state == State::Osc
        || p.state == State::Dcs)) {
        lemma_run_forward(p, input, off);
    }
}

/// `Stream::next` never moves the offset backwards or past the end of the
/// input, and it returns no token only once the input is used up (the
/// stream is then done).
pub proof fn lemma_stream_done(p: vt::ParserView, input: Seq<u8>, off: int)
    requires
        0 <= off <= input.len(),
    ensures
        match spec_next(p, input, off) {
            Some((p2, off2, t)) => off <= off2 <= input.len() && (t is None ==> off2 >= input.len()),
            None => true,
        },
{
    if !(input.len() == 0 && (p.state == State::Esc || p.state == State::Csi || p.state == State::Osc
        || p.state == State::Dcs)) {
        lemma_run_forward(p, input, off);
    }
}

} // verus!
