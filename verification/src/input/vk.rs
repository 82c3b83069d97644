//! Keyboard keys. The codes match the `VK_*` constants on Windows.

use vstd::prelude::*;
use super::InputKey;

verus! {

pub const NULL: InputKey = 0x00;
pub const BACK: InputKey = 0x08;
pub const TAB: InputKey = 0x09;
pub const RETURN: InputKey = 0x0d;
pub const ESCAPE: InputKey = 0x1b;
pub const SPACE: InputKey = 0x20;
pub const EXCLAMATION: InputKey = 0x21;
pub const APOSTROPHE: InputKey = 0x27;
pub const COMMA: InputKey = 0x2c;
pub const PERIOD: InputKey = 0x2e;
pub const COLON: InputKey = 0x3a;
pub const SEMICOLON: InputKey = 0x3b;
pub const LBRACKET: InputKey = 0x5b;
pub const RBRACKET: InputKey = 0x5d;
pub const LBRACE: InputKey = 0x7b;
pub const RBRACE: InputKey = 0x7d;
pub const LT: InputKey = 0x3c;
pub const GT: InputKey = 0x3e;
pub const QUESTION: InputKey = 0x3f;
pub const SLASH: InputKey = 0x2f;
pub const PRIOR: InputKey = 0x21;
pub const NEXT: InputKey = 0x22;
pub const END: InputKey = 0x23;
pub const HOME: InputKey = 0x24;
pub const LEFT: InputKey = 0x25;
pub const UP: InputKey = 0x26;
pub const RIGHT: InputKey = 0x27;
pub const DOWN: InputKey = 0x28;
pub const APPS: InputKey = 0x5d;
pub const INSERT: InputKey = 0x2d;
pub const DELETE: InputKey = 0x2e;
pub const N0: InputKey = 0x30;
pub const N1: InputKey = 0x31;
pub const N2: InputKey = 0x32;
pub const N3: InputKey = 0x33;
pub const N4: InputKey = 0x34;
pub const N5: InputKey = 0x35;
pub const N6: InputKey = 0x36;
pub const N7: InputKey = 0x37;
pub const N8: InputKey = 0x38;
pub const N9: InputKey = 0x39;
pub const A: InputKey = 0x41;
pub const B: InputKey = 0x42;
pub const C: InputKey = 0x43;
pub const D: InputKey = 0x44;
pub const E: InputKey = 0x45;
pub const F: InputKey = 0x46;
pub const G: InputKey = 0x47;
pub const H: InputKey = 0x48;
pub const I: InputKey = 0x49;
pub const J: InputKey = 0x4a;
pub const K: InputKey = 0x4b;
pub const L: InputKey = 0x4c;
pub const M: InputKey = 0x4d;
pub const N: InputKey = 0x4e;
pub const O: InputKey = 0x4f;
pub const P: InputKey = 0x50;
pub const Q: InputKey = 0x51;
pub const R: InputKey = 0x52;
pub const S: InputKey = 0x53;
pub const T: InputKey = 0x54;
pub const U: InputKey = 0x55;
pub const V: InputKey = 0x56;
pub const W: InputKey = 0x57;
pub const X: InputKey = 0x58;
pub const Y: InputKey = 0x59;
pub const Z: InputKey = 0x5a;
pub const NUMPAD0: InputKey = 0x60;
pub const NUMPAD1: InputKey = 0x61;
pub const NUMPAD2: InputKey = 0x62;
pub const NUMPAD3: InputKey = 0x63;
pub const NUMPAD4: InputKey = 0x64;
pub const NUMPAD5: InputKey = 0x65;
pub const NUMPAD6: InputKey = 0x66;
pub const NUMPAD7: InputKey = 0x67;
pub const NUMPAD8: InputKey = 0x68;
pub const NUMPAD9: InputKey = 0x69;
pub const MULTIPLY: InputKey = 0x6a;
pub const ADD: InputKey = 0x6b;
pub const SEPARATOR: InputKey = 0x6c;
pub const SUBTRACT: InputKey = 0x6d;
pub const DECIMAL: InputKey = 0x6e;
pub const DIVIDE: InputKey = 0x6f;
pub const F1: InputKey = 0x70;
pub const F2: InputKey = 0x71;
pub const F3: InputKey = 0x72;
pub const F4: InputKey = 0x73;
pub const F5: InputKey = 0x74;
pub const F6: InputKey = 0x75;
pub const F7: InputKey = 0x76;
pub const F8: InputKey = 0x77;
pub const F9: InputKey = 0x78;
pub const F10: InputKey = 0x79;
pub const F11: InputKey = 0x7a;
pub const F12: InputKey = 0x7b;
pub const F13: InputKey = 0x7c;
pub const F14: InputKey = 0x7d;
pub const F15: InputKey = 0x7e;
pub const F16: InputKey = 0x7f;
pub const F17: InputKey = 0x80;
pub const F18: InputKey = 0x81;
pub const F19: InputKey = 0x82;
pub const F20: InputKey = 0x83;
pub const F21: InputKey = 0x84;
pub const F22: InputKey = 0x85;
pub const F23: InputKey = 0x86;
pub const F24: InputKey = 0x87;

} // verus!
