//! Styling and layout options of the immediate-mode UI, and the keyboard
//! input its widgets share.

use vstd::prelude::*;
use crate::input::InputKey;

verus! {

/// The words shown for Ctrl, Alt and Shift in shortcut labels, so that the UI
/// can show them translated.
pub struct ModifierTranslations {
    pub ctrl: &'static str,
    pub alt: &'static str,
    pub shift: &'static str,
}

/// Controls to which node the floater is anchored.
#[derive(Default, Clone, Copy, Debug, PartialEq, Eq, Structural)]
pub enum Anchor {
    /// The floater is attached relative to the node created last.
    #[default]
    Last,
    /// The floater is attached relative to the current node (= parent of new nodes).
    Parent,
    /// The floater is attached relative to the root node (= usually the viewport).
    Root,
}

/// Informs you about the change that was made to the list selection.
#[derive(Clone, Copy, Debug, PartialEq, Eq, Structural)]
pub enum ListSelection {
    /// The selection wasn't changed.
    Unchanged,
    /// The selection was changed to the current list item.
    Selected,
    /// The selection was changed to the current list item
    /// *and* the item was also activated (Enter or Double-click).
    Activated,
}

/// Controls the position of a node relative to its parent.
#[derive(Default, Clone, Copy, Debug, PartialEq, Eq, Structural)]
pub enum Position {
    /// The child is stretched to fill the parent.
    #[default]
    Stretch,
    /// The child is positioned at the left edge of the parent.
    Left,
    /// The child is positioned at the center of the parent.
    Center,
    /// The child is positioned at the right edge of the parent.
    Right,
}

/// Controls the text overflow behavior of a label
/// when the text doesn't fit the container.
#[derive(Default, Clone, Copy, Debug, PartialEq, Eq, Structural)]
pub enum Overflow {
    /// Text is simply cut off when it doesn't fit.
    #[default]
    Clip,
    /// An ellipsis is shown at the end of the text.
    TruncateHead,
    /// An ellipsis is shown in the middle of the text.
    TruncateMiddle,
    /// An ellipsis is shown at the beginning of the text.
    TruncateTail,
}

/// Controls the style with which a button label renders.
#[derive(Clone, Copy, Debug, PartialEq, Eq, Structural)]
pub struct ButtonStyle {
    pub accelerator: Option<char>,
    pub checked: Option<bool>,
    pub bracketed: bool,
}

impl ButtonStyle {
    /// Draw an accelerator label: `[_E_xample button]` or `[Example button(X)]`.
    ///
    /// Must provide an upper-case ASCII character.
    pub fn accelerator(self, char: char) -> (s: Self)
        ensures
            s == (ButtonStyle { accelerator: Some(char), ..self }),
    {
        Self { accelerator: Some(char), ..self }
    }

    /// Draw a checkbox prefix: `[🗹 Example Button]`.
    pub fn checked(self, checked: bool) -> (s: Self)
        ensures
            s == (ButtonStyle { checked: Some(checked), ..self }),
    {
        Self { checked: Some(checked), ..self }
    }

    /// Draw with or without brackets: `[Example Button]` or `Example Button`.
    pub fn bracketed(self, bracketed: bool) -> (s: Self)
        ensures
            s == (ButtonStyle { bracketed, ..self }),
    {
        Self { bracketed, ..self }
    }
}

impl Default for ButtonStyle {
    /// No accelerator, no checkbox, with brackets (brackets may be turned off,
    /// e.g. for buttons in menus).
    fn default() -> (s: Self)
        ensures
            s == (ButtonStyle { accelerator: None, checked: None, bracketed: true }),
    {
        Self { accelerator: None, checked: None, bracketed: true }
    }
}


/// The key a typed text stands for: a single ASCII character, lower case
/// letters as the key of their upper case letter.
pub open spec fn text_key(text: Option<Seq<u8>>) -> Option<InputKey> {
    match text {
        Some(t) => if t.len() == 1 && t[0] < 0x80 {
            if 0x61 <= t[0] <= 0x7a {
                Some((t[0] - 0x20) as u32)
            } else {
                Some(t[0] as u32)
            }
        } else {
            None
        },
        None => None,
    }
}

/// Whether an input (a key press and the text it typed) matches a shortcut:
/// the key is the shortcut, or the shortcut has no modifiers and the text is
/// its single ASCII character.
pub open spec fn spec_matches_shortcut(keyboard: Option<InputKey>, text: Option<Seq<u8>>, shortcut: InputKey) -> bool {
    keyboard == Some(shortcut) || (shortcut & 0xFF000000 == 0 && text_key(text) == Some(shortcut))
}

/// The view of optional bytes.
pub open spec fn opt_seq(v: Option<Vec<u8>>) -> Option<Seq<u8>> {
    match v {
        Some(b) => Some(b@),
        None => None,
    }
}

/// The keyboard input of one frame as the widgets see it: the key pressed and
/// the text it typed (UTF-8), if any, and whether a widget consumed it.
pub struct KeyInput {
    pub keyboard: Option<InputKey>,
    pub text: Option<Vec<u8>>,
    pub consumed: bool,
}

impl KeyInput {
    /// The key pressed, unless a widget consumed the input.
    pub fn keyboard_input(&self) -> (r: Option<InputKey>)
        ensures
            r == (if self.consumed {
                None
            } else {
                self.keyboard
            }),
    {
        if self.consumed {
            None
        } else {
            self.keyboard
        }
    }

    /// Whether the input matches `shortcut` (see [`spec_matches_shortcut`]).
    pub fn matches_shortcut(&self, shortcut: InputKey) -> (r: bool)
        ensures
            r == spec_matches_shortcut(self.keyboard, opt_seq(self.text), shortcut),
    {
        if self.keyboard == Some(shortcut) {
            return true;
        }
        if shortcut & 0xFF000000 != 0 {
            return false;
        }
        match &self.text {
            Some(t) => {
                if t.len() != 1 || t[0] >= 0x80 {
                    return false;
                }
                let ch = t[0];
                let key: u32 = if 0x61 <= ch && ch <= 0x7a {
                    (ch - 0x20) as u32
                } else {
                    ch as u32
                };
                key == shortcut
            },
            None => false,
        }
    }

    /// Takes the input for `shortcut` if nothing took it yet and it matches.
    pub fn consume_shortcut(&mut self, shortcut: InputKey) -> (r: bool)
        ensures
            r == (!old(self).consumed && spec_matches_shortcut(old(self).keyboard, opt_seq(old(self).text), shortcut)),
            final(self).consumed == (old(self).consumed || r),
            final(self).keyboard == old(self).keyboard,
            final(self).text == old(self).text,
    {
        if !self.consumed && self.matches_shortcut(shortcut) {
            self.consumed = true;
            true
        } else {
            false
        }
    }
}


impl KeyInput {
    /// Whether a focused button (`focused`) is pressed this frame: clicked
    /// (`clicked`: a click whose press was on it), or Return or Space, unless a
    /// widget took the input before; it takes the input then.
    pub fn button_activated(&mut self, clicked: bool, focused: bool) -> (r: bool)
        ensures
            r == (!old(self).consumed && (clicked || old(self).keyboard == Some(crate::input::vk::RETURN)
                || old(self).keyboard == Some(crate::input::vk::SPACE)) && focused),
            final(self).consumed == (old(self).consumed || r),
            final(self).keyboard == old(self).keyboard,
            final(self).text == old(self).text,
    {
        if !self.consumed && (clicked || self.keyboard == Some(crate::input::vk::RETURN) || self.keyboard == Some(
            crate::input::vk::SPACE,
        )) && focused {
            self.consumed = true;
            true
        } else {
            false
        }
    }
}

} // verus!
