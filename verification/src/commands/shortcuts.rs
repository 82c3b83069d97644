//! Keyboard shortcuts: keys that run a command, insert text, or pre-fill the
//! command bar.

use vstd::prelude::*;
use vstd::string::StringSliceAdditionalSpecFns;
use crate::input::{kbmod, vk, InputKey, InputKeyMod};
use crate::text::str_bytes;
use super::definition::{
    Command, CommandArgs, CommandBarShortcut, CommandFocusTarget, CommandInvocation, InvocationView,
    opt_invocation_view,
};

verus! {

/// A key combination that inserts a piece of text (full-width punctuation).
#[derive(Clone, Copy)]
pub struct InsertShortcut {
    pub modifiers: InputKeyMod,
    pub key: InputKey,
    pub text: &'static str,
}

/// Entry `i` of the table of text-inserting shortcuts; `None` past its end.
pub open spec fn spec_insert_shortcut(i: int) -> Option<InsertShortcut> {
    if i == 0 {
        Some(InsertShortcut { modifiers: kbmod::ALT, key: vk::COMMA, text: "，" })
    } else if i == 1 {
        Some(InsertShortcut { modifiers: kbmod::ALT, key: vk::PERIOD, text: "。" })
    } else if i == 2 {
        Some(InsertShortcut { modifiers: kbmod::ALT, key: vk::DELETE, text: "。" })
    } else if i == 3 {
        Some(InsertShortcut { modifiers: kbmod::ALT, key: vk::SEMICOLON, text: "；" })
    } else if i == 4 {
        Some(InsertShortcut { modifiers: kbmod::ALT, key: vk::COLON, text: "：" })
    } else if i == 5 {
        Some(InsertShortcut { modifiers: kbmod::ALT_SHIFT, key: vk::SEMICOLON, text: "：" })
    } else if i == 6 {
        Some(InsertShortcut { modifiers: kbmod::ALT, key: vk::APOSTROPHE, text: "、" })
    } else if i == 7 {
        Some(InsertShortcut { modifiers: kbmod::ALT, key: vk::LBRACKET, text: "「" })
    } else if i == 8 {
        Some(InsertShortcut { modifiers: kbmod::ALT, key: vk::RBRACKET, text: "」" })
    } else if i == 9 {
        Some(InsertShortcut { modifiers: kbmod::ALT, key: vk::LBRACE, text: "『" })
    } else if i == 10 {
        Some(InsertShortcut { modifiers: kbmod::ALT_SHIFT, key: vk::LBRACKET, text: "『" })
    } else if i == 11 {
        Some(InsertShortcut { modifiers: kbmod::ALT, key: vk::RBRACE, text: "』" })
    } else if i == 12 {
        Some(InsertShortcut { modifiers: kbmod::ALT_SHIFT, key: vk::RBRACKET, text: "』" })
    } else if i == 13 {
        Some(InsertShortcut { modifiers: kbmod::ALT, key: vk::N1, text: "！" })
    } else if i == 14 {
        Some(InsertShortcut { modifiers: kbmod::ALT, key: vk::EXCLAMATION, text: "！" })
    } else if i == 15 {
        Some(InsertShortcut { modifiers: kbmod::ALT_SHIFT, key: vk::N1, text: "！" })
    } else {
        None
    }
}

/// Entry `i` of the table of text-inserting shortcuts; `None` past its end.
fn insert_shortcut(i: usize) -> (r: Option<InsertShortcut>)
    ensures
        r == spec_insert_shortcut(i as int),
{
    if i == 0 {
        Some(InsertShortcut { modifiers: kbmod::ALT, key: vk::COMMA, text: "，" })
    } else if i == 1 {
        Some(InsertShortcut { modifiers: kbmod::ALT, key: vk::PERIOD, text: "。" })
    } else if i == 2 {
        Some(InsertShortcut { modifiers: kbmod::ALT, key: vk::DELETE, text: "。" })
    } else if i == 3 {
        Some(InsertShortcut { modifiers: kbmod::ALT, key: vk::SEMICOLON, text: "；" })
    } else if i == 4 {
        Some(InsertShortcut { modifiers: kbmod::ALT, key: vk::COLON, text: "：" })
    } else if i == 5 {
        Some(InsertShortcut { modifiers: kbmod::ALT_SHIFT, key: vk::SEMICOLON, text: "：" })
    } else if i == 6 {
        Some(InsertShortcut { modifiers: kbmod::ALT, key: vk::APOSTROPHE, text: "、" })
    } else if i == 7 {
        Some(InsertShortcut { modifiers: kbmod::ALT, key: vk::LBRACKET, text: "「" })
    } else if i == 8 {
        Some(InsertShortcut { modifiers: kbmod::ALT, key: vk::RBRACKET, text: "」" })
    } else if i == 9 {
        Some(InsertShortcut { modifiers: kbmod::ALT, key: vk::LBRACE, text: "『" })
    } else if i == 10 {
        Some(InsertShortcut { modifiers: kbmod::ALT_SHIFT, key: vk::LBRACKET, text: "『" })
    } else if i == 11 {
        Some(InsertShortcut { modifiers: kbmod::ALT, key: vk::RBRACE, text: "』" })
    } else if i == 12 {
        Some(InsertShortcut { modifiers: kbmod::ALT_SHIFT, key: vk::RBRACKET, text: "』" })
    } else if i == 13 {
        Some(InsertShortcut { modifiers: kbmod::ALT, key: vk::N1, text: "！" })
    } else if i == 14 {
        Some(InsertShortcut { modifiers: kbmod::ALT, key: vk::EXCLAMATION, text: "！" })
    } else if i == 15 {
        Some(InsertShortcut { modifiers: kbmod::ALT_SHIFT, key: vk::N1, text: "！" })
    } else {
        None
    }
}

/// The text of the first insert shortcut at or after entry `i` that `key` is.
pub open spec fn insert_text_from(key: InputKey, i: int) -> Option<&'static str>
    decreases 16 - i,
{
    if i < 0 {
        None
    } else {
        match spec_insert_shortcut(i) {
            None => None,
            Some(s) => if s.modifiers | s.key == key {
                Some(s.text)
            } else {
                insert_text_from(key, i + 1)
            },
        }
    }
}

/// The text that `key` inserts, if it is an insert shortcut.
pub open spec fn spec_text_from_insert_shortcut(key: InputKey) -> Option<&'static str> {
    insert_text_from(key, 0)
}

/// The text that `key` inserts, if it is an insert shortcut.
pub fn text_from_insert_shortcut(key: InputKey) -> (r: Option<&'static str>)
    ensures
        r == spec_text_from_insert_shortcut(key),
{
    let mut i: usize = 0;
    loop
        invariant
            i <= 16,
            insert_text_from(key, i as int) == spec_text_from_insert_shortcut(key),
        decreases 16 - i,
    {
        match insert_shortcut(i) {
            None => {
                return None;
            },
            Some(s) => {
                if s.modifiers | s.key == key {
                    return Some(s.text);
                }
            },
        }
        i += 1;
    }
}

/// The command a Ctrl shortcut runs, if any.
pub open spec fn spec_shortcut_command(key: InputKey) -> Option<Command> {
    if key == kbmod::CTRL | vk::N {
        Some(Command::NewFile)
    } else if key == kbmod::CTRL | vk::O {
        Some(Command::OpenFile)
    } else if key == kbmod::CTRL | vk::S {
        Some(Command::Save)
    } else if key == kbmod::CTRL_SHIFT | vk::S {
        Some(Command::SaveAs)
    } else if key == kbmod::CTRL | vk::W {
        Some(Command::CloseFile)
    } else if key == kbmod::CTRL | vk::P {
        Some(Command::GoToFile)
    } else if key == kbmod::CTRL | vk::Q {
        Some(Command::Exit)
    } else if key == kbmod::CTRL | vk::G {
        Some(Command::Goto)
    } else if key == kbmod::CTRL | vk::F {
        Some(Command::Find)
    } else if key == kbmod::CTRL | vk::R {
        Some(Command::Replace)
    } else if key == kbmod::CTRL | vk::L {
        Some(Command::SelectLine)
    } else {
        None
    }
}

/// What a key runs: an insert shortcut inserts its text, a Ctrl shortcut runs
/// its command without arguments; any other key runs nothing.
pub open spec fn spec_invocation_from_shortcut(key: InputKey) -> Option<InvocationView> {
    match spec_text_from_insert_shortcut(key) {
        Some(t) => Some(
            InvocationView {
                command: Command::InsertText,
                argument: Some(t.spec_bytes()),
                focus_target: CommandFocusTarget::Default,
            },
        ),
        None => match spec_shortcut_command(key) {
            Some(c) => Some(InvocationView { command: c, argument: None, focus_target: CommandFocusTarget::Default }),
            None => None,
        },
    }
}

/// The invocation a key runs, if it is a shortcut.
pub fn command_invocation_from_shortcut(key: InputKey) -> (r: Option<CommandInvocation>)
    ensures
        opt_invocation_view(r) == spec_invocation_from_shortcut(key),
{
    if let Some(text) = text_from_insert_shortcut(key) {
        let argument = vstd::slice::slice_to_vec(str_bytes(text));
        return Some(
            CommandInvocation {
                command: Command::InsertText,
                args: CommandArgs { argument: Some(argument), focus_target: CommandFocusTarget::Default },
            },
        );
    }
    let command = if key == kbmod::CTRL | vk::N {
        Command::NewFile
    } else if key == kbmod::CTRL | vk::O {
        Command::OpenFile
    } else if key == kbmod::CTRL | vk::S {
        Command::Save
    } else if key == kbmod::CTRL_SHIFT | vk::S {
        Command::SaveAs
    } else if key == kbmod::CTRL | vk::W {
        Command::CloseFile
    } else if key == kbmod::CTRL | vk::P {
        Command::GoToFile
    } else if key == kbmod::CTRL | vk::Q {
        Command::Exit
    } else if key == kbmod::CTRL | vk::G {
        Command::Goto
    } else if key == kbmod::CTRL | vk::F {
        Command::Find
    } else if key == kbmod::CTRL | vk::R {
        Command::Replace
    } else if key == kbmod::CTRL | vk::L {
        Command::SelectLine
    } else {
        return None;
    };
    Some(
        CommandInvocation {
            command,
            args: CommandArgs { argument: None, focus_target: CommandFocusTarget::Default },
        },
    )
}

/// The text a function key pre-fills the command bar with: F2 `save `,
/// F3 `file `, F4 `quit `.
pub fn commandbar_shortcut_from_key(key: InputKey) -> (r: Option<CommandBarShortcut>)
    ensures
        r == (if key == vk::F2 {
            Some(CommandBarShortcut { text: "save " })
        } else if key == vk::F3 {
            Some(CommandBarShortcut { text: "file " })
        } else if key == vk::F4 {
            Some(CommandBarShortcut { text: "quit " })
        } else {
            None
        }),
{
    if key == vk::F2 {
        Some(CommandBarShortcut { text: "save " })
    } else if key == vk::F3 {
        Some(CommandBarShortcut { text: "file " })
    } else if key == vk::F4 {
        Some(CommandBarShortcut { text: "quit " })
    } else {
        None
    }
}

/// Whether a shortcut's command goes before the editor's own key handling:
/// only text insertion does.
pub fn should_handle_command_shortcut_before_editor(command: Command) -> (r: bool)
    ensures
        r == (command == Command::InsertText),
{
    match command {
        Command::InsertText => true,
        _ => false,
    }
}

} // verus!
