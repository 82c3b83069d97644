//! What one UI frame sees of an input event: a resize changes the size, text
//! is typed (a single character also as its key), a paste lands in the
//! clipboard and acts as Ctrl+V, and keys and mouse events pass through.

use vstd::prelude::*;
use crate::clipboard::{Clipboard, ClipboardView, spec_write};
use crate::helpers::Size;
use crate::input::{ascii_key, key_from_ascii, kbmod, vk, Input, InputKey, InputMouse, InputView};

verus! {

/// The input of one frame.
pub struct FrameInput {
    pub text: Option<Vec<u8>>,
    pub keyboard: Option<InputKey>,
    pub mouse: Option<InputMouse>,
}

/// Whether a resize to `s` is one the UI handles: both sides in `1..32768`.
pub open spec fn valid_resize(s: Size) -> bool {
    0 < s.width < 32768 && 0 < s.height < 32768
}

/// Hands the event `input` to a frame of a UI of size `size` with the
/// clipboard `clipboard`.
pub fn frame_input(input: Option<Input>, size: &mut Size, clipboard: &mut Clipboard) -> (r: FrameInput)
    requires
        match input {
            Some(Input::Resize(s)) => valid_resize(s),
            _ => true,
        },
    ensures
        match input {
            Some(Input::Resize(s)) => *final(size) == s,
            _ => *final(size) == *old(size),
        },
        match input {
            Some(Input::Paste(p)) => final(clipboard)@ == (ClipboardView {
                wants_host_sync: false,
                ..spec_write(old(clipboard)@, p@)
            }),
            _ => final(clipboard)@ == old(clipboard)@,
        },
        match input {
            Some(Input::Text(t)) => r.text matches Some(v) && v@ == t@,
            _ => r.text is None,
        },
        r.keyboard == match input {
            Some(Input::Text(t)) => if t@.len() == 1 {
                ascii_key(t@[0] as char)
            } else {
                None
            },
            Some(Input::Paste(_)) => Some(kbmod::CTRL | vk::V),
            Some(Input::Keyboard(k)) => Some(k),
            _ => None,
        },
        r.mouse == match input {
            Some(Input::Mouse(m)) => Some(m),
            _ => None,
        },
{
    match input {
        None => FrameInput { text: None, keyboard: None, mouse: None },
        Some(Input::Resize(s)) => {
            *size = s;
            FrameInput { text: None, keyboard: None, mouse: None }
        },
        Some(Input::Text(text)) => {
            let keyboard = if text.len() == 1 {
                key_from_ascii(text[0] as char)
            } else {
                None
            };
            FrameInput { text: Some(text), keyboard, mouse: None }
        },
        Some(Input::Paste(paste)) => {
            clipboard.write(paste);
            clipboard.mark_as_synchronized();
            FrameInput { text: None, keyboard: Some(kbmod::CTRL | vk::V), mouse: None }
        },
        Some(Input::Keyboard(k)) => FrameInput { text: None, keyboard: Some(k), mouse: None },
        Some(Input::Mouse(m)) => FrameInput { text: None, keyboard: None, mouse: Some(m) },
    }
}

} // verus!
