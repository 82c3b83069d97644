//! What a key does in a text area or an input line: the editing operation it
//! stands for, whether the cursor is then brought into view, and whether the
//! column the cursor keeps to when moving up and down is taken anew.

use vstd::prelude::*;
use crate::input::{kbmod, vk, InputKey, InputKeyMod};

verus! {

/// An operation on the text buffer.
#[derive(Clone, Copy, Debug, PartialEq, Eq, Structural)]
pub enum TextareaAction {
    /// The key is not the text area's: the input is left to others.
    Ignore,
    /// The key is taken and nothing changes.
    Nothing,
    DeleteLine,
    /// Delete a character or a word, forward or backward.
    Delete { word: bool, forward: bool },
    /// Indent (or outdent) the selected lines.
    Indent { outdent: bool },
    InsertNewline,
    ClearSelection,
    /// Page Up or Page Down, moving the cursor or extending the selection.
    Page { down: bool, select: bool },
    /// Home or End: of the line, or of the document.
    Home { document: bool, select: bool },
    End { document: bool, select: bool },
    /// Left or Right by a character or a word.
    Horizontal { right: bool, word: bool, select: bool },
    /// Up or Down by a line.
    Vertical { down: bool },
    /// Extend the selection by a line.
    SelectVertical { down: bool },
    /// Scroll by a line without moving the cursor.
    Scroll { down: bool },
    /// Move the selected lines up or down.
    MoveLines { down: bool },
    Paste,
    Copy,
    Cut,
    ToggleOvertype,
    SelectAll,
    SelectLine,
    JoinLine,
    Undo,
    Redo,
    ToggleWordWrap,
}

/// What a key press does in a text area.
#[derive(Clone, Copy, Debug, PartialEq, Eq, Structural)]
pub struct TextareaKey {
    pub action: TextareaAction,
    /// The cursor is brought into view afterwards.
    pub make_cursor_visible: bool,
    /// The column kept for moving up and down becomes the cursor's.
    pub change_preferred_column: bool,
}

/// The modifiers that make Left and Right move by words: Alt on macOS, else Ctrl.
pub open spec fn word_nav_mod(mac: bool) -> InputKeyMod {
    if mac {
        kbmod::ALT
    } else {
        kbmod::CTRL
    }
}

/// The action of a key (without modifiers, `key`) with the modifiers `m`, in
/// an input line (`single_line`) or a text area, with or without a selection,
/// on macOS (`mac`) or elsewhere.
pub open spec fn key_action(key: InputKey, m: InputKeyMod, single_line: bool, has_selection: bool, mac: bool) -> TextareaAction {
    if key == vk::BACK {
        if m == kbmod::CTRL { TextareaAction::DeleteLine } else { TextareaAction::Delete { word: false, forward: false } }
    } else if key == vk::TAB {
        if single_line { TextareaAction::Ignore } else { TextareaAction::Indent { outdent: m == kbmod::SHIFT } }
    } else if key == vk::RETURN {
        if single_line { TextareaAction::Ignore } else { TextareaAction::InsertNewline }
    } else if key == vk::ESCAPE {
        if has_selection {
            TextareaAction::ClearSelection
        } else if single_line {
            TextareaAction::Ignore
        } else {
            TextareaAction::Nothing
        }
    } else if key == vk::PRIOR || key == vk::NEXT {
        TextareaAction::Page { down: key == vk::NEXT, select: m == kbmod::SHIFT }
    } else if key == vk::END {
        TextareaAction::End { document: m & kbmod::CTRL != 0, select: m & kbmod::SHIFT != 0 }
    } else if key == vk::HOME {
        TextareaAction::Home { document: m & kbmod::CTRL != 0, select: m & kbmod::SHIFT != 0 }
    } else if key == vk::LEFT || key == vk::RIGHT {
        TextareaAction::Horizontal {
            right: key == vk::RIGHT,
            word: m & word_nav_mod(mac) != 0,
            select: m & kbmod::SHIFT != 0,
        }
    } else if key == vk::UP || key == vk::DOWN {
        let down = key == vk::DOWN;
        if single_line {
            TextareaAction::Ignore
        } else if m == kbmod::NONE {
            TextareaAction::Vertical { down }
        } else if m == kbmod::CTRL {
            TextareaAction::Scroll { down }
        } else if m == kbmod::SHIFT {
            TextareaAction::SelectVertical { down }
        } else if m == kbmod::ALT {
            TextareaAction::MoveLines { down }
        } else if m == kbmod::CTRL_ALT {
            TextareaAction::Nothing
        } else {
            TextareaAction::Ignore
        }
    } else if key == vk::INSERT {
        if m == kbmod::SHIFT {
            TextareaAction::Paste
        } else if m == kbmod::CTRL {
            TextareaAction::Copy
        } else {
            TextareaAction::ToggleOvertype
        }
    } else if key == vk::DELETE {
        if m == kbmod::SHIFT {
            TextareaAction::Cut
        } else if m == kbmod::CTRL {
            TextareaAction::Delete { word: true, forward: true }
        } else if m == kbmod::ALT {
            TextareaAction::Ignore
        } else {
            TextareaAction::Delete { word: false, forward: true }
        }
    } else if key == vk::A {
        if m == kbmod::CTRL { TextareaAction::SelectAll } else { TextareaAction::Ignore }
    } else if key == vk::B || key == vk::F {
        if m == kbmod::ALT && mac {
            TextareaAction::Horizontal { right: key == vk::F, word: true, select: false }
        } else {
            TextareaAction::Ignore
        }
    } else if key == vk::J {
        if m == kbmod::ALT { TextareaAction::JoinLine } else { TextareaAction::Ignore }
    } else if key == vk::H {
        if m == kbmod::CTRL { TextareaAction::Delete { word: true, forward: false } } else { TextareaAction::Ignore }
    } else if key == vk::L {
        if m == kbmod::CTRL { TextareaAction::SelectLine } else { TextareaAction::Ignore }
    } else if key == vk::X {
        if m == kbmod::CTRL { TextareaAction::Cut } else { TextareaAction::Ignore }
    } else if key == vk::C {
        if m == kbmod::CTRL { TextareaAction::Copy } else { TextareaAction::Ignore }
    } else if key == vk::V {
        if m == kbmod::CTRL { TextareaAction::Paste } else { TextareaAction::Ignore }
    } else if key == vk::Y {
        if m == kbmod::CTRL { TextareaAction::Redo } else { TextareaAction::Ignore }
    } else if key == vk::Z {
        if m == kbmod::CTRL {
            TextareaAction::Undo
        } else if m == kbmod::CTRL_SHIFT {
            TextareaAction::Redo
        } else if m == kbmod::ALT {
            TextareaAction::ToggleWordWrap
        } else {
            TextareaAction::Ignore
        }
    } else {
        TextareaAction::Ignore
    }
}

/// What a key press (`input`: key and modifiers) does in a text area: its
/// action (see [`key_action`]); the cursor comes into view except after
/// scrolling with Ctrl+Up/Down or an Escape that cleared nothing; the column
/// kept for moving up and down is taken anew except after Page Up/Down and
/// Up/Down, and after inserting a line break.
pub open spec fn spec_textarea_key(input: InputKey, single_line: bool, has_selection: bool, mac: bool) -> TextareaKey {
    let key = input & 0x00FFFFFF;
    let m = input & 0xFF000000;
    let action = key_action(key, m, single_line, has_selection, mac);
    TextareaKey {
        action,
        make_cursor_visible: !(action matches TextareaAction::Scroll { .. }) && action != TextareaAction::Ignore
            && !(key == vk::ESCAPE && action == TextareaAction::Nothing),
        change_preferred_column: action != TextareaAction::Ignore && (action == TextareaAction::InsertNewline || !(
        key == vk::PRIOR || key == vk::NEXT || key == vk::UP || key == vk::DOWN)),
    }
}

/// What a key press does in a text area (see [`spec_textarea_key`]).
pub fn textarea_key_action(input: InputKey, single_line: bool, has_selection: bool, mac: bool) -> (r: TextareaKey)
    ensures
        r == spec_textarea_key(input, single_line, has_selection, mac),
{
    let key = input & 0x00FFFFFF;
    let m = input & 0xFF000000;
    let word_mod = if mac { kbmod::ALT } else { kbmod::CTRL };
    let action = if key == vk::BACK {
        if m == kbmod::CTRL { TextareaAction::DeleteLine } else { TextareaAction::Delete { word: false, forward: false } }
    } else if key == vk::TAB {
        if single_line { TextareaAction::Ignore } else { TextareaAction::Indent { outdent: m == kbmod::SHIFT } }
    } else if key == vk::RETURN {
        if single_line { TextareaAction::Ignore } else { TextareaAction::InsertNewline }
    } else if key == vk::ESCAPE {
        if has_selection {
            TextareaAction::ClearSelection
        } else if single_line {
            TextareaAction::Ignore
        } else {
            TextareaAction::Nothing
        }
    } else if key == vk::PRIOR || key == vk::NEXT {
        TextareaAction::Page { down: key == vk::NEXT, select: m == kbmod::SHIFT }
    } else if key == vk::END {
        TextareaAction::End { document: m & kbmod::CTRL != 0, select: m & kbmod::SHIFT != 0 }
    } else if key == vk::HOME {
        TextareaAction::Home { document: m & kbmod::CTRL != 0, select: m & kbmod::SHIFT != 0 }
    } else if key == vk::LEFT || key == vk::RIGHT {
        TextareaAction::Horizontal { right: key == vk::RIGHT, word: m & word_mod != 0, select: m & kbmod::SHIFT != 0 }
    } else if key == vk::UP || key == vk::DOWN {
        let down = key == vk::DOWN;
        if single_line {
            TextareaAction::Ignore
        } else if m == kbmod::NONE {
            TextareaAction::Vertical { down }
        } else if m == kbmod::CTRL {
            TextareaAction::Scroll { down }
        } else if m == kbmod::SHIFT {
            TextareaAction::SelectVertical { down }
        } else if m == kbmod::ALT {
            TextareaAction::MoveLines { down }
        } else if m == kbmod::CTRL_ALT {
            TextareaAction::Nothing
        } else {
            TextareaAction::Ignore
        }
    } else if key == vk::INSERT {
        if m == kbmod::SHIFT {
            TextareaAction::Paste
        } else if m == kbmod::CTRL {
            TextareaAction::Copy
        } else {
            TextareaAction::ToggleOvertype
        }
    } else if key == vk::DELETE {
        if m == kbmod::SHIFT {
            TextareaAction::Cut
        } else if m == kbmod::CTRL {
            TextareaAction::Delete { word: true, forward: true }
        } else if m == kbmod::ALT {
            TextareaAction::Ignore
        } else {
            TextareaAction::Delete { word: false, forward: true }
        }
    } else if key == vk::A {
        if m == kbmod::CTRL { TextareaAction::SelectAll } else { TextareaAction::Ignore }
    } else if key == vk::B || key == vk::F {
        if m == kbmod::ALT && mac {
            TextareaAction::Horizontal { right: key == vk::F, word: true, select: false }
        } else {
            TextareaAction::Ignore
        }
    } else if key == vk::J {
        if m == kbmod::ALT { TextareaAction::JoinLine } else { TextareaAction::Ignore }
    } else if key == vk::H {
        if m == kbmod::CTRL { TextareaAction::Delete { word: true, forward: false } } else { TextareaAction::Ignore }
    } else if key == vk::L {
        if m == kbmod::CTRL { TextareaAction::SelectLine } else { TextareaAction::Ignore }
    } else if key == vk::X {
        if m == kbmod::CTRL { TextareaAction::Cut } else { TextareaAction::Ignore }
    } else if key == vk::C {
        if m == kbmod::CTRL { TextareaAction::Copy } else { TextareaAction::Ignore }
    } else if key == vk::V {
        if m == kbmod::CTRL { TextareaAction::Paste } else { TextareaAction::Ignore }
    } else if key == vk::Y {
        if m == kbmod::CTRL { TextareaAction::Redo } else { TextareaAction::Ignore }
    } else if key == vk::Z {
        if m == kbmod::CTRL {
            TextareaAction::Undo
        } else if m == kbmod::CTRL_SHIFT {
            TextareaAction::Redo
        } else if m == kbmod::ALT {
            TextareaAction::ToggleWordWrap
        } else {
            TextareaAction::Ignore
        }
    } else {
        TextareaAction::Ignore
    };
    let scroll = match action {
        TextareaAction::Scroll { .. } => true,
        _ => false,
    };
    let ignored = action == TextareaAction::Ignore;
    TextareaKey {
        action,
        make_cursor_visible: !scroll && !ignored && !(key == vk::ESCAPE && action == TextareaAction::Nothing),
        change_preferred_column: !ignored && (action == TextareaAction::InsertNewline || !(key == vk::PRIOR
            || key == vk::NEXT || key == vk::UP || key == vk::DOWN)),
    }
}

} // verus!
