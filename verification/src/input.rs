//! Turns VT tokens into input events: keys, mouse, text, pastes, and resizes.

use vstd::prelude::*;
use crate::helpers::{CoordType, Point, Size};

pub mod kbmod;
pub mod parser;
pub mod vk;

pub use parser::{Parser, Stream};

verus! {

/// A key combined with modifiers: the low 24 bits are the key code,
/// the high 8 bits the modifiers (see [`kbmod`]). A plain `u32`, so that keys
/// and modifiers combine with `|`.
pub type InputKey = u32;

/// A keyboard modifier set: Ctrl/Alt/Shift, in the high byte.
pub type InputKeyMod = u32;

/// The key for an ASCII letter, digit or space: lower case letters map to their
/// upper case key, upper case letters to their key with Shift.
pub open spec fn ascii_key(ch: char) -> Option<InputKey> {
    if ch == ' ' || ('0' <= ch <= '9') {
        Some(ch as u32)
    } else if 'a' <= ch <= 'z' {
        Some(((ch as u32) - 0x20) as u32)
    } else if 'A' <= ch <= 'Z' {
        Some((0x04000000 + ch as u32) as u32)
    } else {
        None
    }
}

/// The key for an ASCII letter, digit or space (see [`ascii_key`]).
pub fn key_from_ascii(ch: char) -> (k: Option<InputKey>)
    ensures
        k == ascii_key(ch),
{
    if ch == ' ' || (ch >= '0' && ch <= '9') {
        Some(ch as u32)
    } else if ch >= 'a' && ch <= 'z' {
        let v = ch as u32;
        assert(0x61 <= v <= 0x7a ==> v & !0x20u32 == v - 0x20) by (bit_vector);
        Some(v & !0x20u32)
    } else if ch >= 'A' && ch <= 'Z' {
        let v = ch as u32;
        assert(0x41 <= v <= 0x5a ==> 0x04000000u32 | v == 0x04000000 + v) by (bit_vector);
        Some(kbmod::SHIFT | v)
    } else {
        None
    }
}

/// The key without modifiers.
pub fn key_code(key: InputKey) -> (k: InputKey)
    ensures
        k == key & 0x00FFFFFF,
{
    key & 0x00FFFFFF
}

/// The modifiers of the key.
pub fn key_modifiers(key: InputKey) -> (m: InputKeyMod)
    ensures
        m == key & 0xFF000000,
{
    key & 0xFF000000
}

/// Whether the key (or modifier set) holds any of the given modifiers.
pub fn modifiers_contains(key: u32, modifier: InputKeyMod) -> (b: bool)
    ensures
        b == (key & modifier != 0),
{
    (key & modifier) != 0
}

/// The key with the given modifiers added.
pub fn with_modifiers(key: InputKey, modifiers: InputKeyMod) -> (k: InputKey)
    ensures
        k == key | modifiers,
{
    key | modifiers
}

/// Mouse input state.
#[derive(Clone, Copy, Debug, Default, PartialEq, Eq, Structural)]
pub enum InputMouseState {
    #[default]
    Idle,
    Left,
    Middle,
    Right,
    Release,
    Scroll,
}

/// Mouse input.
#[derive(Clone, Copy, Debug, PartialEq, Eq, Structural)]
pub struct InputMouse {
    /// Up/Down, Left/Right, etc.
    pub state: InputMouseState,
    /// Keyboard modifiers held down.
    pub modifiers: InputKeyMod,
    /// Position of the mouse in the viewport.
    pub position: Point,
    /// Scroll delta.
    pub scroll: Point,
    /// Whether the mouse is dragged with a button held down.
    pub drag: bool,
}

/// An input event.
pub enum Input {
    /// Window resize event.
    Resize(Size),
    /// Text input.
    Text(Vec<u8>),
    /// A clipboard paste.
    Paste(Vec<u8>),
    /// Keyboard input.
    Keyboard(InputKey),
    /// Mouse input.
    Mouse(InputMouse),
}

/// The mathematical content of an input event.
pub enum InputView {
    Resize(Size),
    Text(Seq<u8>),
    Paste(Seq<u8>),
    Keyboard(InputKey),
    Mouse(InputMouse),
}

impl View for Input {
    type V = InputView;

    open spec fn view(&self) -> InputView {
        match self {
            Input::Resize(s) => InputView::Resize(*s),
            Input::Text(t) => InputView::Text(t@),
            Input::Paste(t) => InputView::Paste(t@),
            Input::Keyboard(k) => InputView::Keyboard(*k),
            Input::Mouse(m) => InputView::Mouse(*m),
        }
    }
}

} // verus!
