//! Keyboard modifiers.

use vstd::prelude::*;
use super::InputKeyMod;

verus! {

pub const NONE: InputKeyMod = 0x00000000;
pub const CTRL: InputKeyMod = 0x01000000;
pub const ALT: InputKeyMod = 0x02000000;
pub const SHIFT: InputKeyMod = 0x04000000;
pub const CTRL_ALT: InputKeyMod = 0x03000000;
pub const CTRL_SHIFT: InputKeyMod = 0x05000000;
pub const ALT_SHIFT: InputKeyMod = 0x06000000;
pub const CTRL_ALT_SHIFT: InputKeyMod = 0x07000000;

} // verus!
