//! The command tables of the two editors, in lookup order.

use vstd::prelude::*;
use super::definition::{Command, CommandDefinition, CommandFocusTarget, CommandSet, DefView};

verus! {

/// Number of definitions in the `edit` table.
pub open spec fn spec_edit_len() -> int { 33 }

/// Definition `i` of the `edit` table.
pub open spec fn spec_edit_def(i: int) -> Option<DefView> {
    if i == 0 {
        Some(DefView { command: Command::NewFile, names: seq!["new", "file-new"], names_vim: Seq::empty(), names_emacs: Seq::empty(), label: Some("New File"), default_focus_target: CommandFocusTarget::Default, argument_hint: None })
    } else if i == 1 {
        Some(DefView { command: Command::OpenFile, names: seq!["open", "file-open", "e", "edit"], names_vim: seq!["o"], names_emacs: seq!["find-file"], label: Some("Open File…"), default_focus_target: CommandFocusTarget::Default, argument_hint: Some("<path>") })
    } else if i == 2 {
        Some(DefView { command: Command::SaveAndCloseFileAndExitIfLast, names: seq!["file"], names_vim: seq!["wq"], names_emacs: seq!["save-buffers-kill-emacs"], label: None, default_focus_target: CommandFocusTarget::Default, argument_hint: Some("<path>") })
    } else if i == 3 {
        Some(DefView { command: Command::Save, names: seq!["save", "file-save"], names_vim: seq!["w"], names_emacs: seq!["save-buffer"], label: Some("Save"), default_focus_target: CommandFocusTarget::Default, argument_hint: Some("<path>") })
    } else if i == 4 {
        Some(DefView { command: Command::SaveAs, names: seq!["save-as", "file-save-as"], names_vim: Seq::empty(), names_emacs: Seq::empty(), label: Some("Save As…"), default_focus_target: CommandFocusTarget::Default, argument_hint: None })
    } else if i == 5 {
        Some(DefView { command: Command::Preferences, names: seq!["preferences", "settings"], names_vim: Seq::empty(), names_emacs: Seq::empty(), label: Some("Preferences"), default_focus_target: CommandFocusTarget::Default, argument_hint: None })
    } else if i == 6 {
        Some(DefView { command: Command::CloseFile, names: seq!["close", "file-close"], names_vim: seq!["q", "bd", "bdelete"], names_emacs: seq!["kill-buffer"], label: Some("Close File"), default_focus_target: CommandFocusTarget::Default, argument_hint: None })
    } else if i == 7 {
        Some(DefView { command: Command::Exit, names: seq!["exit"], names_vim: seq!["q!", "qa!"], names_emacs: seq!["kill-emacs"], label: Some("Exit"), default_focus_target: CommandFocusTarget::Default, argument_hint: None })
    } else if i == 8 {
        Some(DefView { command: Command::CloseFileAndExitIfLast, names: seq!["quit"], names_vim: Seq::empty(), names_emacs: Seq::empty(), label: None, default_focus_target: CommandFocusTarget::Default, argument_hint: None })
    } else if i == 9 {
        Some(DefView { command: Command::Undo, names: seq!["undo"], names_vim: seq!["u"], names_emacs: Seq::empty(), label: Some("Undo"), default_focus_target: CommandFocusTarget::Default, argument_hint: None })
    } else if i == 10 {
        Some(DefView { command: Command::Redo, names: seq!["redo"], names_vim: Seq::empty(), names_emacs: seq!["undo-redo"], label: Some("Redo"), default_focus_target: CommandFocusTarget::Default, argument_hint: None })
    } else if i == 11 {
        Some(DefView { command: Command::Cut, names: seq!["cut"], names_vim: seq!["delete"], names_emacs: seq!["kill-region"], label: Some("Cut"), default_focus_target: CommandFocusTarget::Default, argument_hint: None })
    } else if i == 12 {
        Some(DefView { command: Command::Copy, names: seq!["copy"], names_vim: seq!["yank"], names_emacs: seq!["kill-ring-save"], label: Some("Copy"), default_focus_target: CommandFocusTarget::Default, argument_hint: None })
    } else if i == 13 {
        Some(DefView { command: Command::Paste, names: seq!["paste"], names_vim: seq!["put"], names_emacs: seq!["clipboard-yank"], label: Some("Paste"), default_focus_target: CommandFocusTarget::Default, argument_hint: None })
    } else if i == 14 {
        Some(DefView { command: Command::SelectAll, names: seq!["select-all"], names_vim: Seq::empty(), names_emacs: seq!["mark-whole-buffer"], label: Some("Select All"), default_focus_target: CommandFocusTarget::Default, argument_hint: None })
    } else if i == 15 {
        Some(DefView { command: Command::SelectLine, names: seq!["select-line", "line"], names_vim: Seq::empty(), names_emacs: Seq::empty(), label: None, default_focus_target: CommandFocusTarget::Default, argument_hint: None })
    } else if i == 16 {
        Some(DefView { command: Command::InsertText, names: seq!["insert"], names_vim: Seq::empty(), names_emacs: Seq::empty(), label: None, default_focus_target: CommandFocusTarget::Default, argument_hint: Some("<text>") })
    } else if i == 17 {
        Some(DefView { command: Command::Find, names: seq!["find", "search"], names_vim: Seq::empty(), names_emacs: Seq::empty(), label: Some("Find"), default_focus_target: CommandFocusTarget::Default, argument_hint: Some("<text>") })
    } else if i == 18 {
        Some(DefView { command: Command::Replace, names: seq!["replace"], names_vim: Seq::empty(), names_emacs: Seq::empty(), label: Some("Replace"), default_focus_target: CommandFocusTarget::Default, argument_hint: Some("<text> <replacement>") })
    } else if i == 19 {
        Some(DefView { command: Command::FocusStatusbar, names: seq!["statusbar", "focus-statusbar"], names_vim: Seq::empty(), names_emacs: Seq::empty(), label: Some("Focus Statusbar"), default_focus_target: CommandFocusTarget::StatusBar, argument_hint: None })
    } else if i == 20 {
        Some(DefView { command: Command::GoToFile, names: seq!["go-to-file", "file-list"], names_vim: Seq::empty(), names_emacs: Seq::empty(), label: Some("Go to File…"), default_focus_target: CommandFocusTarget::Default, argument_hint: Some("<path>") })
    } else if i == 21 {
        Some(DefView { command: Command::Goto, names: seq!["goto", "go-to-line", "go-to-line-column"], names_vim: Seq::empty(), names_emacs: Seq::empty(), label: Some("Go to Line:Column…"), default_focus_target: CommandFocusTarget::Default, argument_hint: Some("<line>[:<column>]") })
    } else if i == 22 {
        Some(DefView { command: Command::Menu, names: seq!["menu"], names_vim: Seq::empty(), names_emacs: Seq::empty(), label: None, default_focus_target: CommandFocusTarget::Default, argument_hint: None })
    } else if i == 23 {
        Some(DefView { command: Command::WordWrap, names: seq!["word-wrap", "wrap"], names_vim: seq!["set-wrap"], names_emacs: seq!["toggle-truncate-lines", "visual-line-mode"], label: Some("Word Wrap"), default_focus_target: CommandFocusTarget::Default, argument_hint: Some("<bool>") })
    } else if i == 24 {
        Some(DefView { command: Command::SetWordWrapColumn, names: seq!["set-word-wrap-column", "set-wrap-column"], names_vim: seq!["set-textwidth"], names_emacs: seq!["set-fill-column"], label: None, default_focus_target: CommandFocusTarget::Default, argument_hint: Some("<column>") })
    } else if i == 25 {
        Some(DefView { command: Command::CenterText, names: seq!["set-center-text", "toggle-center-text", "center-text"], names_vim: Seq::empty(), names_emacs: Seq::empty(), label: Some("Center Text"), default_focus_target: CommandFocusTarget::Default, argument_hint: Some("<bool>") })
    } else if i == 26 {
        Some(DefView { command: Command::SetHighlightCurrentChar, names: seq!["set-highlight-current-char"], names_vim: Seq::empty(), names_emacs: Seq::empty(), label: None, default_focus_target: CommandFocusTarget::Default, argument_hint: Some("<bool>") })
    } else if i == 27 {
        Some(DefView { command: Command::ToggleHighlightCurrentChar, names: seq!["toggle-highlight-current-char"], names_vim: Seq::empty(), names_emacs: Seq::empty(), label: Some("Highlight Current Character"), default_focus_target: CommandFocusTarget::Default, argument_hint: None })
    } else if i == 28 {
        Some(DefView { command: Command::SetEditorColor, names: seq!["set-editor-color"], names_vim: Seq::empty(), names_emacs: Seq::empty(), label: None, default_focus_target: CommandFocusTarget::Default, argument_hint: Some("original|white-on-blue") })
    } else if i == 29 {
        Some(DefView { command: Command::About, names: seq!["about"], names_vim: Seq::empty(), names_emacs: Seq::empty(), label: Some("About"), default_focus_target: CommandFocusTarget::Default, argument_hint: None })
    } else if i == 30 {
        Some(DefView { command: Command::WordCount, names: seq!["word-count"], names_vim: Seq::empty(), names_emacs: Seq::empty(), label: Some("Word Count"), default_focus_target: CommandFocusTarget::Default, argument_hint: None })
    } else if i == 31 {
        Some(DefView { command: Command::EnableVimCommands, names: seq!["set-vim-commands-enabled"], names_vim: Seq::empty(), names_emacs: Seq::empty(), label: None, default_focus_target: CommandFocusTarget::Default, argument_hint: Some("<bool>") })
    } else if i == 32 {
        Some(DefView { command: Command::EnableEmacsCommands, names: seq!["set-emacs-commands-enabled"], names_vim: Seq::empty(), names_emacs: Seq::empty(), label: None, default_focus_target: CommandFocusTarget::Default, argument_hint: Some("<bool>") })
    } else {
        None
    }
}

fn edit_def(i: usize) -> (r: Option<CommandDefinition>)
    ensures
        (match r { Some(d) => Some(d@), None => None }) == spec_edit_def(i as int),
{
    match i {
        0 => {
            let d = CommandDefinition { command: Command::NewFile, names: vec!["new", "file-new"], names_vim: Vec::new(), names_emacs: Vec::new(), label: Some("New File"), default_focus_target: CommandFocusTarget::Default, argument_hint: None };
            assert(d.names@ =~= seq!["new", "file-new"]);
            assert(d.names_vim@ =~= Seq::empty());
            assert(d.names_emacs@ =~= Seq::empty());
            Some(d)
        },
        1 => {
            let d = CommandDefinition { command: Command::OpenFile, names: vec!["open", "file-open", "e", "edit"], names_vim: vec!["o"], names_emacs: vec!["find-file"], label: Some("Open File…"), default_focus_target: CommandFocusTarget::Default, argument_hint: Some("<path>") };
            assert(d.names@ =~= seq!["open", "file-open", "e", "edit"]);
            assert(d.names_vim@ =~= seq!["o"]);
            assert(d.names_emacs@ =~= seq!["find-file"]);
            Some(d)
        },
        2 => {
            let d = CommandDefinition { command: Command::SaveAndCloseFileAndExitIfLast, names: vec!["file"], names_vim: vec!["wq"], names_emacs: vec!["save-buffers-kill-emacs"], label: None, default_focus_target: CommandFocusTarget::Default, argument_hint: Some("<path>") };
            assert(d.names@ =~= seq!["file"]);
            assert(d.names_vim@ =~= seq!["wq"]);
            assert(d.names_emacs@ =~= seq!["save-buffers-kill-emacs"]);
            Some(d)
        },
        3 => {
            let d = CommandDefinition { command: Command::Save, names: vec!["save", "file-save"], names_vim: vec!["w"], names_emacs: vec!["save-buffer"], label: Some("Save"), default_focus_target: CommandFocusTarget::Default, argument_hint: Some("<path>") };
            assert(d.names@ =~= seq!["save", "file-save"]);
            assert(d.names_vim@ =~= seq!["w"]);
            assert(d.names_emacs@ =~= seq!["save-buffer"]);
            Some(d)
        },
        4 => {
            let d = CommandDefinition { command: Command::SaveAs, names: vec!["save-as", "file-save-as"], names_vim: Vec::new(), names_emacs: Vec::new(), label: Some("Save As…"), default_focus_target: CommandFocusTarget::Default, argument_hint: None };
            assert(d.names@ =~= seq!["save-as", "file-save-as"]);
            assert(d.names_vim@ =~= Seq::empty());
            assert(d.names_emacs@ =~= Seq::empty());
            Some(d)
        },
        5 => {
            let d = CommandDefinition { command: Command::Preferences, names: vec!["preferences", "settings"], names_vim: Vec::new(), names_emacs: Vec::new(), label: Some("Preferences"), default_focus_target: CommandFocusTarget::Default, argument_hint: None };
            assert(d.names@ =~= seq!["preferences", "settings"]);
            assert(d.names_vim@ =~= Seq::empty());
            assert(d.names_emacs@ =~= Seq::empty());
            Some(d)
        },
        6 => {
            let d = CommandDefinition { command: Command::CloseFile, names: vec!["close", "file-close"], names_vim: vec!["q", "bd", "bdelete"], names_emacs: vec!["kill-buffer"], label: Some("Close File"), default_focus_target: CommandFocusTarget::Default, argument_hint: None };
            assert(d.names@ =~= seq!["close", "file-close"]);
            assert(d.names_vim@ =~= seq!["q", "bd", "bdelete"]);
            assert(d.names_emacs@ =~= seq!["kill-buffer"]);
            Some(d)
        },
        7 => {
            let d = CommandDefinition { command: Command::Exit, names: vec!["exit"], names_vim: vec!["q!", "qa!"], names_emacs: vec!["kill-emacs"], label: Some("Exit"), default_focus_target: CommandFocusTarget::Default, argument_hint: None };
            assert(d.names@ =~= seq!["exit"]);
            assert(d.names_vim@ =~= seq!["q!", "qa!"]);
            assert(d.names_emacs@ =~= seq!["kill-emacs"]);
            Some(d)
        },
        8 => {
            let d = CommandDefinition { command: Command::CloseFileAndExitIfLast, names: vec!["quit"], names_vim: Vec::new(), names_emacs: Vec::new(), label: None, default_focus_target: CommandFocusTarget::Default, argument_hint: None };
            assert(d.names@ =~= seq!["quit"]);
            assert(d.names_vim@ =~= Seq::empty());
            assert(d.names_emacs@ =~= Seq::empty());
            Some(d)
        },
        9 => {
            let d = CommandDefinition { command: Command::Undo, names: vec!["undo"], names_vim: vec!["u"], names_emacs: Vec::new(), label: Some("Undo"), default_focus_target: CommandFocusTarget::Default, argument_hint: None };
            assert(d.names@ =~= seq!["undo"]);
            assert(d.names_vim@ =~= seq!["u"]);
            assert(d.names_emacs@ =~= Seq::empty());
            Some(d)
        },
        10 => {
            let d = CommandDefinition { command: Command::Redo, names: vec!["redo"], names_vim: Vec::new(), names_emacs: vec!["undo-redo"], label: Some("Redo"), default_focus_target: CommandFocusTarget::Default, argument_hint: None };
            assert(d.names@ =~= seq!["redo"]);
            assert(d.names_vim@ =~= Seq::empty());
            assert(d.names_emacs@ =~= seq!["undo-redo"]);
            Some(d)
        },
        11 => {
            let d = CommandDefinition { command: Command::Cut, names: vec!["cut"], names_vim: vec!["delete"], names_emacs: vec!["kill-region"], label: Some("Cut"), default_focus_target: CommandFocusTarget::Default, argument_hint: None };
            assert(d.names@ =~= seq!["cut"]);
            assert(d.names_vim@ =~= seq!["delete"]);
            assert(d.names_emacs@ =~= seq!["kill-region"]);
            Some(d)
        },
        12 => {
            let d = CommandDefinition { command: Command::Copy, names: vec!["copy"], names_vim: vec!["yank"], names_emacs: vec!["kill-ring-save"], label: Some("Copy"), default_focus_target: CommandFocusTarget::Default, argument_hint: None };
            assert(d.names@ =~= seq!["copy"]);
            assert(d.names_vim@ =~= seq!["yank"]);
            assert(d.names_emacs@ =~= seq!["kill-ring-save"]);
            Some(d)
        },
        13 => {
            let d = CommandDefinition { command: Command::Paste, names: vec!["paste"], names_vim: vec!["put"], names_emacs: vec!["clipboard-yank"], label: Some("Paste"), default_focus_target: CommandFocusTarget::Default, argument_hint: None };
            assert(d.names@ =~= seq!["paste"]);
            assert(d.names_vim@ =~= seq!["put"]);
            assert(d.names_emacs@ =~= seq!["clipboard-yank"]);
            Some(d)
        },
        14 => {
            let d = CommandDefinition { command: Command::SelectAll, names: vec!["select-all"], names_vim: Vec::new(), names_emacs: vec!["mark-whole-buffer"], label: Some("Select All"), default_focus_target: CommandFocusTarget::Default, argument_hint: None };
            assert(d.names@ =~= seq!["select-all"]);
            assert(d.names_vim@ =~= Seq::empty());
            assert(d.names_emacs@ =~= seq!["mark-whole-buffer"]);
            Some(d)
        },
        15 => {
            let d = CommandDefinition { command: Command::SelectLine, names: vec!["select-line", "line"], names_vim: Vec::new(), names_emacs: Vec::new(), label: None, default_focus_target: CommandFocusTarget::Default, argument_hint: None };
            assert(d.names@ =~= seq!["select-line", "line"]);
            assert(d.names_vim@ =~= Seq::empty());
            assert(d.names_emacs@ =~= Seq::empty());
            Some(d)
        },
        16 => {
            let d = CommandDefinition { command: Command::InsertText, names: vec!["insert"], names_vim: Vec::new(), names_emacs: Vec::new(), label: None, default_focus_target: CommandFocusTarget::Default, argument_hint: Some("<text>") };
            assert(d.names@ =~= seq!["insert"]);
            assert(d.names_vim@ =~= Seq::empty());
            assert(d.names_emacs@ =~= Seq::empty());
            Some(d)
        },
        17 => {
            let d = CommandDefinition { command: Command::Find, names: vec!["find", "search"], names_vim: Vec::new(), names_emacs: Vec::new(), label: Some("Find"), default_focus_target: CommandFocusTarget::Default, argument_hint: Some("<text>") };
            assert(d.names@ =~= seq!["find", "search"]);
            assert(d.names_vim@ =~= Seq::empty());
            assert(d.names_emacs@ =~= Seq::empty());
            Some(d)
        },
        18 => {
            let d = CommandDefinition { command: Command::Replace, names: vec!["replace"], names_vim: Vec::new(), names_emacs: Vec::new(), label: Some("Replace"), default_focus_target: CommandFocusTarget::Default, argument_hint: Some("<text> <replacement>") };
            assert(d.names@ =~= seq!["replace"]);
            assert(d.names_vim@ =~= Seq::empty());
            assert(d.names_emacs@ =~= Seq::empty());
            Some(d)
        },
        19 => {
            let d = CommandDefinition { command: Command::FocusStatusbar, names: vec!["statusbar", "focus-statusbar"], names_vim: Vec::new(), names_emacs: Vec::new(), label: Some("Focus Statusbar"), default_focus_target: CommandFocusTarget::StatusBar, argument_hint: None };
            assert(d.names@ =~= seq!["statusbar", "focus-statusbar"]);
            assert(d.names_vim@ =~= Seq::empty());
            assert(d.names_emacs@ =~= Seq::empty());
            Some(d)
        },
        20 => {
            let d = CommandDefinition { command: Command::GoToFile, names: vec!["go-to-file", "file-list"], names_vim: Vec::new(), names_emacs: Vec::new(), label: Some("Go to File…"), default_focus_target: CommandFocusTarget::Default, argument_hint: Some("<path>") };
            assert(d.names@ =~= seq!["go-to-file", "file-list"]);
            assert(d.names_vim@ =~= Seq::empty());
            assert(d.names_emacs@ =~= Seq::empty());
            Some(d)
        },
        21 => {
            let d = CommandDefinition { command: Command::Goto, names: vec!["goto", "go-to-line", "go-to-line-column"], names_vim: Vec::new(), names_emacs: Vec::new(), label: Some("Go to Line:Column…"), default_focus_target: CommandFocusTarget::Default, argument_hint: Some("<line>[:<column>]") };
            assert(d.names@ =~= seq!["goto", "go-to-line", "go-to-line-column"]);
            assert(d.names_vim@ =~= Seq::empty());
            assert(d.names_emacs@ =~= Seq::empty());
            Some(d)
        },
        22 => {
            let d = CommandDefinition { command: Command::Menu, names: vec!["menu"], names_vim: Vec::new(), names_emacs: Vec::new(), label: None, default_focus_target: CommandFocusTarget::Default, argument_hint: None };
            assert(d.names@ =~= seq!["menu"]);
            assert(d.names_vim@ =~= Seq::empty());
            assert(d.names_emacs@ =~= Seq::empty());
            Some(d)
        },
        23 => {
            let d = CommandDefinition { command: Command::WordWrap, names: vec!["word-wrap", "wrap"], names_vim: vec!["set-wrap"], names_emacs: vec!["toggle-truncate-lines", "visual-line-mode"], label: Some("Word Wrap"), default_focus_target: CommandFocusTarget::Default, argument_hint: Some("<bool>") };
            assert(d.names@ =~= seq!["word-wrap", "wrap"]);
            assert(d.names_vim@ =~= seq!["set-wrap"]);
            assert(d.names_emacs@ =~= seq!["toggle-truncate-lines", "visual-line-mode"]);
            Some(d)
        },
        24 => {
            let d = CommandDefinition { command: Command::SetWordWrapColumn, names: vec!["set-word-wrap-column", "set-wrap-column"], names_vim: vec!["set-textwidth"], names_emacs: vec!["set-fill-column"], label: None, default_focus_target: CommandFocusTarget::Default, argument_hint: Some("<column>") };
            assert(d.names@ =~= seq!["set-word-wrap-column", "set-wrap-column"]);
            assert(d.names_vim@ =~= seq!["set-textwidth"]);
            assert(d.names_emacs@ =~= seq!["set-fill-column"]);
            Some(d)
        },
        25 => {
            let d = CommandDefinition { command: Command::CenterText, names: vec!["set-center-text", "toggle-center-text", "center-text"], names_vim: Vec::new(), names_emacs: Vec::new(), label: Some("Center Text"), default_focus_target: CommandFocusTarget::Default, argument_hint: Some("<bool>") };
            assert(d.names@ =~= seq!["set-center-text", "toggle-center-text", "center-text"]);
            assert(d.names_vim@ =~= Seq::empty());
            assert(d.names_emacs@ =~= Seq::empty());
            Some(d)
        },
        26 => {
            let d = CommandDefinition { command: Command::SetHighlightCurrentChar, names: vec!["set-highlight-current-char"], names_vim: Vec::new(), names_emacs: Vec::new(), label: None, default_focus_target: CommandFocusTarget::Default, argument_hint: Some("<bool>") };
            assert(d.names@ =~= seq!["set-highlight-current-char"]);
            assert(d.names_vim@ =~= Seq::empty());
            assert(d.names_emacs@ =~= Seq::empty());
            Some(d)
        },
        27 => {
            let d = CommandDefinition { command: Command::ToggleHighlightCurrentChar, names: vec!["toggle-highlight-current-char"], names_vim: Vec::new(), names_emacs: Vec::new(), label: Some("Highlight Current Character"), default_focus_target: CommandFocusTarget::Default, argument_hint: None };
            assert(d.names@ =~= seq!["toggle-highlight-current-char"]);
            assert(d.names_vim@ =~= Seq::empty());
            assert(d.names_emacs@ =~= Seq::empty());
            Some(d)
        },
        28 => {
            let d = CommandDefinition { command: Command::SetEditorColor, names: vec!["set-editor-color"], names_vim: Vec::new(), names_emacs: Vec::new(), label: None, default_focus_target: CommandFocusTarget::Default, argument_hint: Some("original|white-on-blue") };
            assert(d.names@ =~= seq!["set-editor-color"]);
            assert(d.names_vim@ =~= Seq::empty());
            assert(d.names_emacs@ =~= Seq::empty());
            Some(d)
        },
        29 => {
            let d = CommandDefinition { command: Command::About, names: vec!["about"], names_vim: Vec::new(), names_emacs: Vec::new(), label: Some("About"), default_focus_target: CommandFocusTarget::Default, argument_hint: None };
            assert(d.names@ =~= seq!["about"]);
            assert(d.names_vim@ =~= Seq::empty());
            assert(d.names_emacs@ =~= Seq::empty());
            Some(d)
        },
        30 => {
            let d = CommandDefinition { command: Command::WordCount, names: vec!["word-count"], names_vim: Vec::new(), names_emacs: Vec::new(), label: Some("Word Count"), default_focus_target: CommandFocusTarget::Default, argument_hint: None };
            assert(d.names@ =~= seq!["word-count"]);
            assert(d.names_vim@ =~= Seq::empty());
            assert(d.names_emacs@ =~= Seq::empty());
            Some(d)
        },
        31 => {
            let d = CommandDefinition { command: Command::EnableVimCommands, names: vec!["set-vim-commands-enabled"], names_vim: Vec::new(), names_emacs: Vec::new(), label: None, default_focus_target: CommandFocusTarget::Default, argument_hint: Some("<bool>") };
            assert(d.names@ =~= seq!["set-vim-commands-enabled"]);
            assert(d.names_vim@ =~= Seq::empty());
            assert(d.names_emacs@ =~= Seq::empty());
            Some(d)
        },
        32 => {
            let d = CommandDefinition { command: Command::EnableEmacsCommands, names: vec!["set-emacs-commands-enabled"], names_vim: Vec::new(), names_emacs: Vec::new(), label: None, default_focus_target: CommandFocusTarget::Default, argument_hint: Some("<bool>") };
            assert(d.names@ =~= seq!["set-emacs-commands-enabled"]);
            assert(d.names_vim@ =~= Seq::empty());
            assert(d.names_emacs@ =~= Seq::empty());
            Some(d)
        },
        _ => None,
    }
}

/// Number of definitions in the `ze2` table.
pub open spec fn spec_ze2_len() -> int { 69 }

/// Definition `i` of the `ze2` table.
pub open spec fn spec_ze2_def(i: int) -> Option<DefView> {
    if i == 0 {
        Some(DefView { command: Command::NewFile, names: seq!["new", "file-new"], names_vim: Seq::empty(), names_emacs: Seq::empty(), label: Some("New File"), default_focus_target: CommandFocusTarget::Default, argument_hint: None })
    } else if i == 1 {
        Some(DefView { command: Command::OpenFile, names: seq!["open", "file-open", "e", "edit"], names_vim: seq!["o"], names_emacs: seq!["find-file"], label: Some("Open File…"), default_focus_target: CommandFocusTarget::Default, argument_hint: Some("<path>") })
    } else if i == 2 {
        Some(DefView { command: Command::SaveAndCloseFileAndExitIfLast, names: seq!["file"], names_vim: seq!["wq"], names_emacs: seq!["save-buffers-kill-emacs"], label: None, default_focus_target: CommandFocusTarget::Default, argument_hint: Some("<path>") })
    } else if i == 3 {
        Some(DefView { command: Command::Save, names: seq!["save", "file-save"], names_vim: seq!["w"], names_emacs: seq!["save-buffer"], label: Some("Save"), default_focus_target: CommandFocusTarget::Default, argument_hint: Some("<path>") })
    } else if i == 4 {
        Some(DefView { command: Command::SaveAs, names: seq!["save-as", "file-save-as"], names_vim: Seq::empty(), names_emacs: Seq::empty(), label: Some("Save As…"), default_focus_target: CommandFocusTarget::Default, argument_hint: None })
    } else if i == 5 {
        Some(DefView { command: Command::Preferences, names: seq!["preferences", "settings"], names_vim: Seq::empty(), names_emacs: Seq::empty(), label: Some("Preferences"), default_focus_target: CommandFocusTarget::Default, argument_hint: None })
    } else if i == 6 {
        Some(DefView { command: Command::CloseFile, names: seq!["close", "file-close"], names_vim: seq!["q", "bd", "bdelete"], names_emacs: seq!["kill-buffer"], label: Some("Close File"), default_focus_target: CommandFocusTarget::Default, argument_hint: None })
    } else if i == 7 {
        Some(DefView { command: Command::Exit, names: seq!["exit"], names_vim: seq!["q!", "qa!"], names_emacs: seq!["kill-emacs"], label: Some("Exit"), default_focus_target: CommandFocusTarget::Default, argument_hint: None })
    } else if i == 8 {
        Some(DefView { command: Command::CloseFileAndExitIfLast, names: seq!["quit"], names_vim: Seq::empty(), names_emacs: Seq::empty(), label: None, default_focus_target: CommandFocusTarget::Default, argument_hint: None })
    } else if i == 9 {
        Some(DefView { command: Command::Undo, names: seq!["undo"], names_vim: seq!["u"], names_emacs: Seq::empty(), label: Some("Undo"), default_focus_target: CommandFocusTarget::Default, argument_hint: None })
    } else if i == 10 {
        Some(DefView { command: Command::Redo, names: seq!["redo"], names_vim: Seq::empty(), names_emacs: seq!["undo-redo"], label: Some("Redo"), default_focus_target: CommandFocusTarget::Default, argument_hint: None })
    } else if i == 11 {
        Some(DefView { command: Command::Cut, names: seq!["cut"], names_vim: seq!["delete"], names_emacs: seq!["kill-region"], label: Some("Cut"), default_focus_target: CommandFocusTarget::Default, argument_hint: None })
    } else if i == 12 {
        Some(DefView { command: Command::Copy, names: seq!["copy"], names_vim: seq!["yank"], names_emacs: seq!["kill-ring-save"], label: Some("Copy"), default_focus_target: CommandFocusTarget::Default, argument_hint: None })
    } else if i == 13 {
        Some(DefView { command: Command::Paste, names: seq!["paste"], names_vim: seq!["put"], names_emacs: seq!["clipboard-yank"], label: Some("Paste"), default_focus_target: CommandFocusTarget::Default, argument_hint: None })
    } else if i == 14 {
        Some(DefView { command: Command::SelectAll, names: seq!["select-all"], names_vim: Seq::empty(), names_emacs: seq!["mark-whole-buffer"], label: Some("Select All"), default_focus_target: CommandFocusTarget::Default, argument_hint: None })
    } else if i == 15 {
        Some(DefView { command: Command::SelectLine, names: seq!["select-line", "line"], names_vim: Seq::empty(), names_emacs: Seq::empty(), label: None, default_focus_target: CommandFocusTarget::Default, argument_hint: None })
    } else if i == 16 {
        Some(DefView { command: Command::InsertText, names: seq!["insert"], names_vim: Seq::empty(), names_emacs: Seq::empty(), label: None, default_focus_target: CommandFocusTarget::Default, argument_hint: Some("<text>") })
    } else if i == 17 {
        Some(DefView { command: Command::InsertLine, names: seq!["insert-line", "il"], names_vim: Seq::empty(), names_emacs: seq!["open-line"], label: None, default_focus_target: CommandFocusTarget::Default, argument_hint: None })
    } else if i == 18 {
        Some(DefView { command: Command::SplitLine, names: seq!["split-line", "split", "sp"], names_vim: Seq::empty(), names_emacs: Seq::empty(), label: None, default_focus_target: CommandFocusTarget::Default, argument_hint: None })
    } else if i == 19 {
        Some(DefView { command: Command::JoinLine, names: seq!["join-line", "join", "jo"], names_vim: seq!["join"], names_emacs: Seq::empty(), label: None, default_focus_target: CommandFocusTarget::Default, argument_hint: None })
    } else if i == 20 {
        Some(DefView { command: Command::FirstNonblank, names: seq!["first-nonblank", "fn"], names_vim: Seq::empty(), names_emacs: seq!["back-to-indentation"], label: None, default_focus_target: CommandFocusTarget::Default, argument_hint: None })
    } else if i == 21 {
        Some(DefView { command: Command::BeginWord, names: seq!["begin-word", "wb"], names_vim: Seq::empty(), names_emacs: seq!["backward-word"], label: None, default_focus_target: CommandFocusTarget::Default, argument_hint: None })
    } else if i == 22 {
        Some(DefView { command: Command::EndWord, names: seq!["end-word", "we"], names_vim: Seq::empty(), names_emacs: seq!["forward-word"], label: None, default_focus_target: CommandFocusTarget::Default, argument_hint: None })
    } else if i == 23 {
        Some(DefView { command: Command::TabWord, names: seq!["tab-word", "tw"], names_vim: Seq::empty(), names_emacs: Seq::empty(), label: None, default_focus_target: CommandFocusTarget::Default, argument_hint: None })
    } else if i == 24 {
        Some(DefView { command: Command::BacktabWord, names: seq!["backtab-word", "bw"], names_vim: Seq::empty(), names_emacs: Seq::empty(), label: None, default_focus_target: CommandFocusTarget::Default, argument_hint: None })
    } else if i == 25 {
        Some(DefView { command: Command::MarkLine, names: seq!["mark-line", "ml"], names_vim: Seq::empty(), names_emacs: Seq::empty(), label: None, default_focus_target: CommandFocusTarget::Default, argument_hint: None })
    } else if i == 26 {
        Some(DefView { command: Command::MarkChar, names: seq!["mark-char", "mc"], names_vim: Seq::empty(), names_emacs: Seq::empty(), label: None, default_focus_target: CommandFocusTarget::Default, argument_hint: None })
    } else if i == 27 {
        Some(DefView { command: Command::MarkBlock, names: seq!["mark-block", "mb"], names_vim: Seq::empty(), names_emacs: Seq::empty(), label: None, default_focus_target: CommandFocusTarget::Default, argument_hint: None })
    } else if i == 28 {
        Some(DefView { command: Command::Unmark, names: seq!["unmark", "um"], names_vim: Seq::empty(), names_emacs: Seq::empty(), label: None, default_focus_target: CommandFocusTarget::Default, argument_hint: None })
    } else if i == 29 {
        Some(DefView { command: Command::CopyMark, names: seq!["copy-mark", "cm"], names_vim: Seq::empty(), names_emacs: Seq::empty(), label: None, default_focus_target: CommandFocusTarget::Default, argument_hint: None })
    } else if i == 30 {
        Some(DefView { command: Command::MoveMark, names: seq!["move-mark", "mm"], names_vim: Seq::empty(), names_emacs: Seq::empty(), label: None, default_focus_target: CommandFocusTarget::Default, argument_hint: None })
    } else if i == 31 {
        Some(DefView { command: Command::DeleteMark, names: seq!["delete-mark", "dm"], names_vim: Seq::empty(), names_emacs: Seq::empty(), label: None, default_focus_target: CommandFocusTarget::Default, argument_hint: None })
    } else if i == 32 {
        Some(DefView { command: Command::FillMark, names: seq!["fill-mark", "fm"], names_vim: Seq::empty(), names_emacs: Seq::empty(), label: None, default_focus_target: CommandFocusTarget::Default, argument_hint: Some("<char>") })
    } else if i == 33 {
        Some(DefView { command: Command::OverlayBlock, names: seq!["overlay-block", "ob"], names_vim: Seq::empty(), names_emacs: Seq::empty(), label: None, default_focus_target: CommandFocusTarget::Default, argument_hint: None })
    } else if i == 34 {
        Some(DefView { command: Command::ShiftLeft, names: seq!["shift-left", "sl"], names_vim: Seq::empty(), names_emacs: Seq::empty(), label: None, default_focus_target: CommandFocusTarget::Default, argument_hint: None })
    } else if i == 35 {
        Some(DefView { command: Command::ShiftRight, names: seq!["shift-right", "sr"], names_vim: Seq::empty(), names_emacs: Seq::empty(), label: None, default_focus_target: CommandFocusTarget::Default, argument_hint: None })
    } else if i == 36 {
        Some(DefView { command: Command::CopyToCmd, names: seq!["copy-to-command", "ct"], names_vim: Seq::empty(), names_emacs: Seq::empty(), label: None, default_focus_target: CommandFocusTarget::Default, argument_hint: None })
    } else if i == 37 {
        Some(DefView { command: Command::CopyFromCmd, names: seq!["copy-from-command", "cf"], names_vim: Seq::empty(), names_emacs: Seq::empty(), label: None, default_focus_target: CommandFocusTarget::Default, argument_hint: None })
    } else if i == 38 {
        Some(DefView { command: Command::Find, names: seq!["find", "search"], names_vim: Seq::empty(), names_emacs: Seq::empty(), label: Some("Find"), default_focus_target: CommandFocusTarget::Default, argument_hint: Some("<text>") })
    } else if i == 39 {
        Some(DefView { command: Command::Replace, names: seq!["replace"], names_vim: Seq::empty(), names_emacs: Seq::empty(), label: Some("Replace"), default_focus_target: CommandFocusTarget::Default, argument_hint: Some("<text> <replacement>") })
    } else if i == 40 {
        Some(DefView { command: Command::FocusStatusbar, names: seq!["statusbar", "focus-statusbar"], names_vim: Seq::empty(), names_emacs: Seq::empty(), label: Some("Focus Statusbar"), default_focus_target: CommandFocusTarget::StatusBar, argument_hint: None })
    } else if i == 41 {
        Some(DefView { command: Command::GoToFile, names: seq!["go-to-file", "file-list"], names_vim: Seq::empty(), names_emacs: Seq::empty(), label: Some("Go to File…"), default_focus_target: CommandFocusTarget::Default, argument_hint: Some("<path>") })
    } else if i == 42 {
        Some(DefView { command: Command::Goto, names: seq!["goto", "go-to-line", "go-to-line-column"], names_vim: Seq::empty(), names_emacs: Seq::empty(), label: Some("Go to Line:Column…"), default_focus_target: CommandFocusTarget::Default, argument_hint: Some("<line>[:<column>]") })
    } else if i == 43 {
        Some(DefView { command: Command::Menu, names: seq!["menu"], names_vim: Seq::empty(), names_emacs: Seq::empty(), label: None, default_focus_target: CommandFocusTarget::Default, argument_hint: None })
    } else if i == 44 {
        Some(DefView { command: Command::SetEncoding, names: seq!["set-encoding", "encoding"], names_vim: seq!["set-fileencoding", "set-fenc"], names_emacs: seq!["set-buffer-file-coding-system"], label: None, default_focus_target: CommandFocusTarget::Default, argument_hint: Some("<encoding>") })
    } else if i == 45 {
        Some(DefView { command: Command::ReopenEncoding, names: seq!["reopen-encoding"], names_vim: seq!["edit-encoding"], names_emacs: seq!["revert-buffer-with-coding-system"], label: None, default_focus_target: CommandFocusTarget::Default, argument_hint: Some("<encoding>") })
    } else if i == 46 {
        Some(DefView { command: Command::SetLineBreak, names: seq!["set-line-break", "set-line-break-char", "set-newline", "newline"], names_vim: seq!["set-fileformat", "set-ff"], names_emacs: seq!["set-buffer-file-eol-type"], label: None, default_focus_target: CommandFocusTarget::Default, argument_hint: Some("LF|CRLF") })
    } else if i == 47 {
        Some(DefView { command: Command::SetWordWrapColumn, names: seq!["set-word-wrap-column", "set-wrap-column", "right-margin", "rg"], names_vim: seq!["set-textwidth"], names_emacs: seq!["set-fill-column"], label: None, default_focus_target: CommandFocusTarget::Default, argument_hint: Some("<column>") })
    } else if i == 48 {
        Some(DefView { command: Command::SetMargins, names: seq!["set-margins", "margins"], names_vim: Seq::empty(), names_emacs: Seq::empty(), label: None, default_focus_target: CommandFocusTarget::Default, argument_hint: Some("<left> <right> <paragraph>") })
    } else if i == 49 {
        Some(DefView { command: Command::SetTabs, names: seq!["set-tabs", "tabs"], names_vim: seq!["set-tabstop"], names_emacs: Seq::empty(), label: None, default_focus_target: CommandFocusTarget::Default, argument_hint: Some("<width>") })
    } else if i == 50 {
        Some(DefView { command: Command::SetHighlightCurrentChar, names: seq!["set-highlight-current-char"], names_vim: Seq::empty(), names_emacs: Seq::empty(), label: None, default_focus_target: CommandFocusTarget::Default, argument_hint: Some("<bool>") })
    } else if i == 51 {
        Some(DefView { command: Command::SetEditorColor, names: seq!["set-editor-color"], names_vim: Seq::empty(), names_emacs: Seq::empty(), label: None, default_focus_target: CommandFocusTarget::Default, argument_hint: Some("original|white-on-blue") })
    } else if i == 52 {
        Some(DefView { command: Command::SetEofStyle, names: seq!["set-eof-style"], names_vim: Seq::empty(), names_emacs: Seq::empty(), label: None, default_focus_target: CommandFocusTarget::Default, argument_hint: Some("original|classic|ks3|hidden") })
    } else if i == 53 {
        Some(DefView { command: Command::EnableVimCommands, names: seq!["set-vim-commands-enabled"], names_vim: Seq::empty(), names_emacs: Seq::empty(), label: None, default_focus_target: CommandFocusTarget::Default, argument_hint: Some("<bool>") })
    } else if i == 54 {
        Some(DefView { command: Command::EnableEmacsCommands, names: seq!["set-emacs-commands-enabled"], names_vim: Seq::empty(), names_emacs: Seq::empty(), label: None, default_focus_target: CommandFocusTarget::Default, argument_hint: Some("<bool>") })
    } else if i == 55 {
        Some(DefView { command: Command::SetBinding, names: seq!["set-binding"], names_vim: Seq::empty(), names_emacs: Seq::empty(), label: None, default_focus_target: CommandFocusTarget::Default, argument_hint: Some("original|ghostty") })
    } else if i == 56 {
        Some(DefView { command: Command::WordWrap, names: seq!["word-wrap", "wrap"], names_vim: seq!["set-wrap"], names_emacs: seq!["toggle-truncate-lines", "visual-line-mode"], label: Some("Word Wrap"), default_focus_target: CommandFocusTarget::Default, argument_hint: Some("<bool>") })
    } else if i == 57 {
        Some(DefView { command: Command::Reflow, names: seq!["reflow", "rf"], names_vim: Seq::empty(), names_emacs: Seq::empty(), label: None, default_focus_target: CommandFocusTarget::Default, argument_hint: None })
    } else if i == 58 {
        Some(DefView { command: Command::CenterText, names: seq!["set-center-text", "toggle-center-text", "center-text"], names_vim: Seq::empty(), names_emacs: Seq::empty(), label: Some("Center Text"), default_focus_target: CommandFocusTarget::Default, argument_hint: Some("<bool>") })
    } else if i == 59 {
        Some(DefView { command: Command::ToggleRuler, names: seq!["toggle-ruler", "set-ruler"], names_vim: Seq::empty(), names_emacs: Seq::empty(), label: Some("Ruler"), default_focus_target: CommandFocusTarget::Default, argument_hint: None })
    } else if i == 60 {
        Some(DefView { command: Command::ToggleHighlightCurrentChar, names: seq!["toggle-highlight-current-char"], names_vim: Seq::empty(), names_emacs: Seq::empty(), label: Some("Highlight Current Character"), default_focus_target: CommandFocusTarget::Default, argument_hint: None })
    } else if i == 61 {
        Some(DefView { command: Command::About, names: seq!["about"], names_vim: Seq::empty(), names_emacs: Seq::empty(), label: Some("About"), default_focus_target: CommandFocusTarget::Default, argument_hint: None })
    } else if i == 62 {
        Some(DefView { command: Command::WordCount, names: seq!["word-count"], names_vim: Seq::empty(), names_emacs: Seq::empty(), label: Some("Word Count"), default_focus_target: CommandFocusTarget::Default, argument_hint: None })
    } else if i == 63 {
        Some(DefView { command: Command::QuerySetting, names: seq!["query", "?"], names_vim: Seq::empty(), names_emacs: Seq::empty(), label: None, default_focus_target: CommandFocusTarget::Default, argument_hint: Some("<setting>") })
    } else if i == 64 {
        Some(DefView { command: Command::InsertDate, names: seq!["date"], names_vim: Seq::empty(), names_emacs: Seq::empty(), label: None, default_focus_target: CommandFocusTarget::Default, argument_hint: None })
    } else if i == 65 {
        Some(DefView { command: Command::Uppercase, names: seq!["uppercase", "uc"], names_vim: Seq::empty(), names_emacs: seq!["upcase-region"], label: None, default_focus_target: CommandFocusTarget::Default, argument_hint: None })
    } else if i == 66 {
        Some(DefView { command: Command::Lowercase, names: seq!["lowercase", "lc"], names_vim: Seq::empty(), names_emacs: seq!["downcase-region"], label: None, default_focus_target: CommandFocusTarget::Default, argument_hint: None })
    } else if i == 67 {
        Some(DefView { command: Command::CharCode, names: seq!["char-code", "char"], names_vim: Seq::empty(), names_emacs: Seq::empty(), label: None, default_focus_target: CommandFocusTarget::Default, argument_hint: None })
    } else if i == 68 {
        Some(DefView { command: Command::Help, names: seq!["help"], names_vim: seq!["help"], names_emacs: seq!["describe-bindings"], label: None, default_focus_target: CommandFocusTarget::Default, argument_hint: Some("<command>") })
    } else {
        None
    }
}

fn ze2_def(i: usize) -> (r: Option<CommandDefinition>)
    ensures
        (match r { Some(d) => Some(d@), None => None }) == spec_ze2_def(i as int),
{
    match i {
        0 => {
            let d = CommandDefinition { command: Command::NewFile, names: vec!["new", "file-new"], names_vim: Vec::new(), names_emacs: Vec::new(), label: Some("New File"), default_focus_target: CommandFocusTarget::Default, argument_hint: None };
            assert(d.names@ =~= seq!["new", "file-new"]);
            assert(d.names_vim@ =~= Seq::empty());
            assert(d.names_emacs@ =~= Seq::empty());
            Some(d)
        },
        1 => {
            let d = CommandDefinition { command: Command::OpenFile, names: vec!["open", "file-open", "e", "edit"], names_vim: vec!["o"], names_emacs: vec!["find-file"], label: Some("Open File…"), default_focus_target: CommandFocusTarget::Default, argument_hint: Some("<path>") };
            assert(d.names@ =~= seq!["open", "file-open", "e", "edit"]);
            assert(d.names_vim@ =~= seq!["o"]);
            assert(d.names_emacs@ =~= seq!["find-file"]);
            Some(d)
        },
        2 => {
            let d = CommandDefinition { command: Command::SaveAndCloseFileAndExitIfLast, names: vec!["file"], names_vim: vec!["wq"], names_emacs: vec!["save-buffers-kill-emacs"], label: None, default_focus_target: CommandFocusTarget::Default, argument_hint: Some("<path>") };
            assert(d.names@ =~= seq!["file"]);
            assert(d.names_vim@ =~= seq!["wq"]);
            assert(d.names_emacs@ =~= seq!["save-buffers-kill-emacs"]);
            Some(d)
        },
        3 => {
            let d = CommandDefinition { command: Command::Save, names: vec!["save", "file-save"], names_vim: vec!["w"], names_emacs: vec!["save-buffer"], label: Some("Save"), default_focus_target: CommandFocusTarget::Default, argument_hint: Some("<path>") };
            assert(d.names@ =~= seq!["save", "file-save"]);
            assert(d.names_vim@ =~= seq!["w"]);
            assert(d.names_emacs@ =~= seq!["save-buffer"]);
            Some(d)
        },
        4 => {
            let d = CommandDefinition { command: Command::SaveAs, names: vec!["save-as", "file-save-as"], names_vim: Vec::new(), names_emacs: Vec::new(), label: Some("Save As…"), default_focus_target: CommandFocusTarget::Default, argument_hint: None };
            assert(d.names@ =~= seq!["save-as", "file-save-as"]);
            assert(d.names_vim@ =~= Seq::empty());
            assert(d.names_emacs@ =~= Seq::empty());
            Some(d)
        },
        5 => {
            let d = CommandDefinition { command: Command::Preferences, names: vec!["preferences", "settings"], names_vim: Vec::new(), names_emacs: Vec::new(), label: Some("Preferences"), default_focus_target: CommandFocusTarget::Default, argument_hint: None };
            assert(d.names@ =~= seq!["preferences", "settings"]);
            assert(d.names_vim@ =~= Seq::empty());
            assert(d.names_emacs@ =~= Seq::empty());
            Some(d)
        },
        6 => {
            let d = CommandDefinition { command: Command::CloseFile, names: vec!["close", "file-close"], names_vim: vec!["q", "bd", "bdelete"], names_emacs: vec!["kill-buffer"], label: Some("Close File"), default_focus_target: CommandFocusTarget::Default, argument_hint: None };
            assert(d.names@ =~= seq!["close", "file-close"]);
            assert(d.names_vim@ =~= seq!["q", "bd", "bdelete"]);
            assert(d.names_emacs@ =~= seq!["kill-buffer"]);
            Some(d)
        },
        7 => {
            let d = CommandDefinition { command: Command::Exit, names: vec!["exit"], names_vim: vec!["q!", "qa!"], names_emacs: vec!["kill-emacs"], label: Some("Exit"), default_focus_target: CommandFocusTarget::Default, argument_hint: None };
            assert(d.names@ =~= seq!["exit"]);
            assert(d.names_vim@ =~= seq!["q!", "qa!"]);
            assert(d.names_emacs@ =~= seq!["kill-emacs"]);
            Some(d)
        },
        8 => {
            let d = CommandDefinition { command: Command::CloseFileAndExitIfLast, names: vec!["quit"], names_vim: Vec::new(), names_emacs: Vec::new(), label: None, default_focus_target: CommandFocusTarget::Default, argument_hint: None };
            assert(d.names@ =~= seq!["quit"]);
            assert(d.names_vim@ =~= Seq::empty());
            assert(d.names_emacs@ =~= Seq::empty());
            Some(d)
        },
        9 => {
            let d = CommandDefinition { command: Command::Undo, names: vec!["undo"], names_vim: vec!["u"], names_emacs: Vec::new(), label: Some("Undo"), default_focus_target: CommandFocusTarget::Default, argument_hint: None };
            assert(d.names@ =~= seq!["undo"]);
            assert(d.names_vim@ =~= seq!["u"]);
            assert(d.names_emacs@ =~= Seq::empty());
            Some(d)
        },
        10 => {
            let d = CommandDefinition { command: Command::Redo, names: vec!["redo"], names_vim: Vec::new(), names_emacs: vec!["undo-redo"], label: Some("Redo"), default_focus_target: CommandFocusTarget::Default, argument_hint: None };
            assert(d.names@ =~= seq!["redo"]);
            assert(d.names_vim@ =~= Seq::empty());
            assert(d.names_emacs@ =~= seq!["undo-redo"]);
            Some(d)
        },
        11 => {
            let d = CommandDefinition { command: Command::Cut, names: vec!["cut"], names_vim: vec!["delete"], names_emacs: vec!["kill-region"], label: Some("Cut"), default_focus_target: CommandFocusTarget::Default, argument_hint: None };
            assert(d.names@ =~= seq!["cut"]);
            assert(d.names_vim@ =~= seq!["delete"]);
            assert(d.names_emacs@ =~= seq!["kill-region"]);
            Some(d)
        },
        12 => {
            let d = CommandDefinition { command: Command::Copy, names: vec!["copy"], names_vim: vec!["yank"], names_emacs: vec!["kill-ring-save"], label: Some("Copy"), default_focus_target: CommandFocusTarget::Default, argument_hint: None };
            assert(d.names@ =~= seq!["copy"]);
            assert(d.names_vim@ =~= seq!["yank"]);
            assert(d.names_emacs@ =~= seq!["kill-ring-save"]);
            Some(d)
        },
        13 => {
            let d = CommandDefinition { command: Command::Paste, names: vec!["paste"], names_vim: vec!["put"], names_emacs: vec!["clipboard-yank"], label: Some("Paste"), default_focus_target: CommandFocusTarget::Default, argument_hint: None };
            assert(d.names@ =~= seq!["paste"]);
            assert(d.names_vim@ =~= seq!["put"]);
            assert(d.names_emacs@ =~= seq!["clipboard-yank"]);
            Some(d)
        },
        14 => {
            let d = CommandDefinition { command: Command::SelectAll, names: vec!["select-all"], names_vim: Vec::new(), names_emacs: vec!["mark-whole-buffer"], label: Some("Select All"), default_focus_target: CommandFocusTarget::Default, argument_hint: None };
            assert(d.names@ =~= seq!["select-all"]);
            assert(d.names_vim@ =~= Seq::empty());
            assert(d.names_emacs@ =~= seq!["mark-whole-buffer"]);
            Some(d)
        },
        15 => {
            let d = CommandDefinition { command: Command::SelectLine, names: vec!["select-line", "line"], names_vim: Vec::new(), names_emacs: Vec::new(), label: None, default_focus_target: CommandFocusTarget::Default, argument_hint: None };
            assert(d.names@ =~= seq!["select-line", "line"]);
            assert(d.names_vim@ =~= Seq::empty());
            assert(d.names_emacs@ =~= Seq::empty());
            Some(d)
        },
        16 => {
            let d = CommandDefinition { command: Command::InsertText, names: vec!["insert"], names_vim: Vec::new(), names_emacs: Vec::new(), label: None, default_focus_target: CommandFocusTarget::Default, argument_hint: Some("<text>") };
            assert(d.names@ =~= seq!["insert"]);
            assert(d.names_vim@ =~= Seq::empty());
            assert(d.names_emacs@ =~= Seq::empty());
            Some(d)
        },
        17 => {
            let d = CommandDefinition { command: Command::InsertLine, names: vec!["insert-line", "il"], names_vim: Vec::new(), names_emacs: vec!["open-line"], label: None, default_focus_target: CommandFocusTarget::Default, argument_hint: None };
            assert(d.names@ =~= seq!["insert-line", "il"]);
            assert(d.names_vim@ =~= Seq::empty());
            assert(d.names_emacs@ =~= seq!["open-line"]);
            Some(d)
        },
        18 => {
            let d = CommandDefinition { command: Command::SplitLine, names: vec!["split-line", "split", "sp"], names_vim: Vec::new(), names_emacs: Vec::new(), label: None, default_focus_target: CommandFocusTarget::Default, argument_hint: None };
            assert(d.names@ =~= seq!["split-line", "split", "sp"]);
            assert(d.names_vim@ =~= Seq::empty());
            assert(d.names_emacs@ =~= Seq::empty());
            Some(d)
        },
        19 => {
            let d = CommandDefinition { command: Command::JoinLine, names: vec!["join-line", "join", "jo"], names_vim: vec!["join"], names_emacs: Vec::new(), label: None, default_focus_target: CommandFocusTarget::Default, argument_hint: None };
            assert(d.names@ =~= seq!["join-line", "join", "jo"]);
            assert(d.names_vim@ =~= seq!["join"]);
            assert(d.names_emacs@ =~= Seq::empty());
            Some(d)
        },
        20 => {
            let d = CommandDefinition { command: Command::FirstNonblank, names: vec!["first-nonblank", "fn"], names_vim: Vec::new(), names_emacs: vec!["back-to-indentation"], label: None, default_focus_target: CommandFocusTarget::Default, argument_hint: None };
            assert(d.names@ =~= seq!["first-nonblank", "fn"]);
            assert(d.names_vim@ =~= Seq::empty());
            assert(d.names_emacs@ =~= seq!["back-to-indentation"]);
            Some(d)
        },
        21 => {
            let d = CommandDefinition { command: Command::BeginWord, names: vec!["begin-word", "wb"], names_vim: Vec::new(), names_emacs: vec!["backward-word"], label: None, default_focus_target: CommandFocusTarget::Default, argument_hint: None };
            assert(d.names@ =~= seq!["begin-word", "wb"]);
            assert(d.names_vim@ =~= Seq::empty());
            assert(d.names_emacs@ =~= seq!["backward-word"]);
            Some(d)
        },
        22 => {
            let d = CommandDefinition { command: Command::EndWord, names: vec!["end-word", "we"], names_vim: Vec::new(), names_emacs: vec!["forward-word"], label: None, default_focus_target: CommandFocusTarget::Default, argument_hint: None };
            assert(d.names@ =~= seq!["end-word", "we"]);
            assert(d.names_vim@ =~= Seq::empty());
            assert(d.names_emacs@ =~= seq!["forward-word"]);
            Some(d)
        },
        23 => {
            let d = CommandDefinition { command: Command::TabWord, names: vec!["tab-word", "tw"], names_vim: Vec::new(), names_emacs: Vec::new(), label: None, default_focus_target: CommandFocusTarget::Default, argument_hint: None };
            assert(d.names@ =~= seq!["tab-word", "tw"]);
            assert(d.names_vim@ =~= Seq::empty());
            assert(d.names_emacs@ =~= Seq::empty());
            Some(d)
        },
        24 => {
            let d = CommandDefinition { command: Command::BacktabWord, names: vec!["backtab-word", "bw"], names_vim: Vec::new(), names_emacs: Vec::new(), label: None, default_focus_target: CommandFocusTarget::Default, argument_hint: None };
            assert(d.names@ =~= seq!["backtab-word", "bw"]);
            assert(d.names_vim@ =~= Seq::empty());
            assert(d.names_emacs@ =~= Seq::empty());
            Some(d)
        },
        25 => {
            let d = CommandDefinition { command: Command::MarkLine, names: vec!["mark-line", "ml"], names_vim: Vec::new(), names_emacs: Vec::new(), label: None, default_focus_target: CommandFocusTarget::Default, argument_hint: None };
            assert(d.names@ =~= seq!["mark-line", "ml"]);
            assert(d.names_vim@ =~= Seq::empty());
            assert(d.names_emacs@ =~= Seq::empty());
            Some(d)
        },
        26 => {
            let d = CommandDefinition { command: Command::MarkChar, names: vec!["mark-char", "mc"], names_vim: Vec::new(), names_emacs: Vec::new(), label: None, default_focus_target: CommandFocusTarget::Default, argument_hint: None };
            assert(d.names@ =~= seq!["mark-char", "mc"]);
            assert(d.names_vim@ =~= Seq::empty());
            assert(d.names_emacs@ =~= Seq::empty());
            Some(d)
        },
        27 => {
            let d = CommandDefinition { command: Command::MarkBlock, names: vec!["mark-block", "mb"], names_vim: Vec::new(), names_emacs: Vec::new(), label: None, default_focus_target: CommandFocusTarget::Default, argument_hint: None };
            assert(d.names@ =~= seq!["mark-block", "mb"]);
            assert(d.names_vim@ =~= Seq::empty());
            assert(d.names_emacs@ =~= Seq::empty());
            Some(d)
        },
        28 => {
            let d = CommandDefinition { command: Command::Unmark, names: vec!["unmark", "um"], names_vim: Vec::new(), names_emacs: Vec::new(), label: None, default_focus_target: CommandFocusTarget::Default, argument_hint: None };
            assert(d.names@ =~= seq!["unmark", "um"]);
            assert(d.names_vim@ =~= Seq::empty());
            assert(d.names_emacs@ =~= Seq::empty());
            Some(d)
        },
        29 => {
            let d = CommandDefinition { command: Command::CopyMark, names: vec!["copy-mark", "cm"], names_vim: Vec::new(), names_emacs: Vec::new(), label: None, default_focus_target: CommandFocusTarget::Default, argument_hint: None };
            assert(d.names@ =~= seq!["copy-mark", "cm"]);
            assert(d.names_vim@ =~= Seq::empty());
            assert(d.names_emacs@ =~= Seq::empty());
            Some(d)
        },
        30 => {
            let d = CommandDefinition { command: Command::MoveMark, names: vec!["move-mark", "mm"], names_vim: Vec::new(), names_emacs: Vec::new(), label: None, default_focus_target: CommandFocusTarget::Default, argument_hint: None };
            assert(d.names@ =~= seq!["move-mark", "mm"]);
            assert(d.names_vim@ =~= Seq::empty());
            assert(d.names_emacs@ =~= Seq::empty());
            Some(d)
        },
        31 => {
            let d = CommandDefinition { command: Command::DeleteMark, names: vec!["delete-mark", "dm"], names_vim: Vec::new(), names_emacs: Vec::new(), label: None, default_focus_target: CommandFocusTarget::Default, argument_hint: None };
            assert(d.names@ =~= seq!["delete-mark", "dm"]);
            assert(d.names_vim@ =~= Seq::empty());
            assert(d.names_emacs@ =~= Seq::empty());
            Some(d)
        },
        32 => {
            let d = CommandDefinition { command: Command::FillMark, names: vec!["fill-mark", "fm"], names_vim: Vec::new(), names_emacs: Vec::new(), label: None, default_focus_target: CommandFocusTarget::Default, argument_hint: Some("<char>") };
            assert(d.names@ =~= seq!["fill-mark", "fm"]);
            assert(d.names_vim@ =~= Seq::empty());
            assert(d.names_emacs@ =~= Seq::empty());
            Some(d)
        },
        33 => {
            let d = CommandDefinition { command: Command::OverlayBlock, names: vec!["overlay-block", "ob"], names_vim: Vec::new(), names_emacs: Vec::new(), label: None, default_focus_target: CommandFocusTarget::Default, argument_hint: None };
            assert(d.names@ =~= seq!["overlay-block", "ob"]);
            assert(d.names_vim@ =~= Seq::empty());
            assert(d.names_emacs@ =~= Seq::empty());
            Some(d)
        },
        34 => {
            let d = CommandDefinition { command: Command::ShiftLeft, names: vec!["shift-left", "sl"], names_vim: Vec::new(), names_emacs: Vec::new(), label: None, default_focus_target: CommandFocusTarget::Default, argument_hint: None };
            assert(d.names@ =~= seq!["shift-left", "sl"]);
            assert(d.names_vim@ =~= Seq::empty());
            assert(d.names_emacs@ =~= Seq::empty());
            Some(d)
        },
        35 => {
            let d = CommandDefinition { command: Command::ShiftRight, names: vec!["shift-right", "sr"], names_vim: Vec::new(), names_emacs: Vec::new(), label: None, default_focus_target: CommandFocusTarget::Default, argument_hint: None };
            assert(d.names@ =~= seq!["shift-right", "sr"]);
            assert(d.names_vim@ =~= Seq::empty());
            assert(d.names_emacs@ =~= Seq::empty());
            Some(d)
        },
        36 => {
            let d = CommandDefinition { command: Command::CopyToCmd, names: vec!["copy-to-command", "ct"], names_vim: Vec::new(), names_emacs: Vec::new(), label: None, default_focus_target: CommandFocusTarget::Default, argument_hint: None };
            assert(d.names@ =~= seq!["copy-to-command", "ct"]);
            assert(d.names_vim@ =~= Seq::empty());
            assert(d.names_emacs@ =~= Seq::empty());
            Some(d)
        },
        37 => {
            let d = CommandDefinition { command: Command::CopyFromCmd, names: vec!["copy-from-command", "cf"], names_vim: Vec::new(), names_emacs: Vec::new(), label: None, default_focus_target: CommandFocusTarget::Default, argument_hint: None };
            assert(d.names@ =~= seq!["copy-from-command", "cf"]);
            assert(d.names_vim@ =~= Seq::empty());
            assert(d.names_emacs@ =~= Seq::empty());
            Some(d)
        },
        38 => {
            let d = CommandDefinition { command: Command::Find, names: vec!["find", "search"], names_vim: Vec::new(), names_emacs: Vec::new(), label: Some("Find"), default_focus_target: CommandFocusTarget::Default, argument_hint: Some("<text>") };
            assert(d.names@ =~= seq!["find", "search"]);
            assert(d.names_vim@ =~= Seq::empty());
            assert(d.names_emacs@ =~= Seq::empty());
            Some(d)
        },
        39 => {
            let d = CommandDefinition { command: Command::Replace, names: vec!["replace"], names_vim: Vec::new(), names_emacs: Vec::new(), label: Some("Replace"), default_focus_target: CommandFocusTarget::Default, argument_hint: Some("<text> <replacement>") };
            assert(d.names@ =~= seq!["replace"]);
            assert(d.names_vim@ =~= Seq::empty());
            assert(d.names_emacs@ =~= Seq::empty());
            Some(d)
        },
        40 => {
            let d = CommandDefinition { command: Command::FocusStatusbar, names: vec!["statusbar", "focus-statusbar"], names_vim: Vec::new(), names_emacs: Vec::new(), label: Some("Focus Statusbar"), default_focus_target: CommandFocusTarget::StatusBar, argument_hint: None };
            assert(d.names@ =~= seq!["statusbar", "focus-statusbar"]);
            assert(d.names_vim@ =~= Seq::empty());
            assert(d.names_emacs@ =~= Seq::empty());
            Some(d)
        },
        41 => {
            let d = CommandDefinition { command: Command::GoToFile, names: vec!["go-to-file", "file-list"], names_vim: Vec::new(), names_emacs: Vec::new(), label: Some("Go to File…"), default_focus_target: CommandFocusTarget::Default, argument_hint: Some("<path>") };
            assert(d.names@ =~= seq!["go-to-file", "file-list"]);
            assert(d.names_vim@ =~= Seq::empty());
            assert(d.names_emacs@ =~= Seq::empty());
            Some(d)
        },
        42 => {
            let d = CommandDefinition { command: Command::Goto, names: vec!["goto", "go-to-line", "go-to-line-column"], names_vim: Vec::new(), names_emacs: Vec::new(), label: Some("Go to Line:Column…"), default_focus_target: CommandFocusTarget::Default, argument_hint: Some("<line>[:<column>]") };
            assert(d.names@ =~= seq!["goto", "go-to-line", "go-to-line-column"]);
            assert(d.names_vim@ =~= Seq::empty());
            assert(d.names_emacs@ =~= Seq::empty());
            Some(d)
        },
        43 => {
            let d = CommandDefinition { command: Command::Menu, names: vec!["menu"], names_vim: Vec::new(), names_emacs: Vec::new(), label: None, default_focus_target: CommandFocusTarget::Default, argument_hint: None };
            assert(d.names@ =~= seq!["menu"]);
            assert(d.names_vim@ =~= Seq::empty());
            assert(d.names_emacs@ =~= Seq::empty());
            Some(d)
        },
        44 => {
            let d = CommandDefinition { command: Command::SetEncoding, names: vec!["set-encoding", "encoding"], names_vim: vec!["set-fileencoding", "set-fenc"], names_emacs: vec!["set-buffer-file-coding-system"], label: None, default_focus_target: CommandFocusTarget::Default, argument_hint: Some("<encoding>") };
            assert(d.names@ =~= seq!["set-encoding", "encoding"]);
            assert(d.names_vim@ =~= seq!["set-fileencoding", "set-fenc"]);
            assert(d.names_emacs@ =~= seq!["set-buffer-file-coding-system"]);
            Some(d)
        },
        45 => {
            let d = CommandDefinition { command: Command::ReopenEncoding, names: vec!["reopen-encoding"], names_vim: vec!["edit-encoding"], names_emacs: vec!["revert-buffer-with-coding-system"], label: None, default_focus_target: CommandFocusTarget::Default, argument_hint: Some("<encoding>") };
            assert(d.names@ =~= seq!["reopen-encoding"]);
            assert(d.names_vim@ =~= seq!["edit-encoding"]);
            assert(d.names_emacs@ =~= seq!["revert-buffer-with-coding-system"]);
            Some(d)
        },
        46 => {
            let d = CommandDefinition { command: Command::SetLineBreak, names: vec!["set-line-break", "set-line-break-char", "set-newline", "newline"], names_vim: vec!["set-fileformat", "set-ff"], names_emacs: vec!["set-buffer-file-eol-type"], label: None, default_focus_target: CommandFocusTarget::Default, argument_hint: Some("LF|CRLF") };
            assert(d.names@ =~= seq!["set-line-break", "set-line-break-char", "set-newline", "newline"]);
            assert(d.names_vim@ =~= seq!["set-fileformat", "set-ff"]);
            assert(d.names_emacs@ =~= seq!["set-buffer-file-eol-type"]);
            Some(d)
        },
        47 => {
            let d = CommandDefinition { command: Command::SetWordWrapColumn, names: vec!["set-word-wrap-column", "set-wrap-column", "right-margin", "rg"], names_vim: vec!["set-textwidth"], names_emacs: vec!["set-fill-column"], label: None, default_focus_target: CommandFocusTarget::Default, argument_hint: Some("<column>") };
            assert(d.names@ =~= seq!["set-word-wrap-column", "set-wrap-column", "right-margin", "rg"]);
            assert(d.names_vim@ =~= seq!["set-textwidth"]);
            assert(d.names_emacs@ =~= seq!["set-fill-column"]);
            Some(d)
        },
        48 => {
            let d = CommandDefinition { command: Command::SetMargins, names: vec!["set-margins", "margins"], names_vim: Vec::new(), names_emacs: Vec::new(), label: None, default_focus_target: CommandFocusTarget::Default, argument_hint: Some("<left> <right> <paragraph>") };
            assert(d.names@ =~= seq!["set-margins", "margins"]);
            assert(d.names_vim@ =~= Seq::empty());
            assert(d.names_emacs@ =~= Seq::empty());
            Some(d)
        },
        49 => {
            let d = CommandDefinition { command: Command::SetTabs, names: vec!["set-tabs", "tabs"], names_vim: vec!["set-tabstop"], names_emacs: Vec::new(), label: None, default_focus_target: CommandFocusTarget::Default, argument_hint: Some("<width>") };
            assert(d.names@ =~= seq!["set-tabs", "tabs"]);
            assert(d.names_vim@ =~= seq!["set-tabstop"]);
            assert(d.names_emacs@ =~= Seq::empty());
            Some(d)
        },
        50 => {
            let d = CommandDefinition { command: Command::SetHighlightCurrentChar, names: vec!["set-highlight-current-char"], names_vim: Vec::new(), names_emacs: Vec::new(), label: None, default_focus_target: CommandFocusTarget::Default, argument_hint: Some("<bool>") };
            assert(d.names@ =~= seq!["set-highlight-current-char"]);
            assert(d.names_vim@ =~= Seq::empty());
            assert(d.names_emacs@ =~= Seq::empty());
            Some(d)
        },
        51 => {
            let d = CommandDefinition { command: Command::SetEditorColor, names: vec!["set-editor-color"], names_vim: Vec::new(), names_emacs: Vec::new(), label: None, default_focus_target: CommandFocusTarget::Default, argument_hint: Some("original|white-on-blue") };
            assert(d.names@ =~= seq!["set-editor-color"]);
            assert(d.names_vim@ =~= Seq::empty());
            assert(d.names_emacs@ =~= Seq::empty());
            Some(d)
        },
        52 => {
            let d = CommandDefinition { command: Command::SetEofStyle, names: vec!["set-eof-style"], names_vim: Vec::new(), names_emacs: Vec::new(), label: None, default_focus_target: CommandFocusTarget::Default, argument_hint: Some("original|classic|ks3|hidden") };
            assert(d.names@ =~= seq!["set-eof-style"]);
            assert(d.names_vim@ =~= Seq::empty());
            assert(d.names_emacs@ =~= Seq::empty());
            Some(d)
        },
        53 => {
            let d = CommandDefinition { command: Command::EnableVimCommands, names: vec!["set-vim-commands-enabled"], names_vim: Vec::new(), names_emacs: Vec::new(), label: None, default_focus_target: CommandFocusTarget::Default, argument_hint: Some("<bool>") };
            assert(d.names@ =~= seq!["set-vim-commands-enabled"]);
            assert(d.names_vim@ =~= Seq::empty());
            assert(d.names_emacs@ =~= Seq::empty());
            Some(d)
        },
        54 => {
            let d = CommandDefinition { command: Command::EnableEmacsCommands, names: vec!["set-emacs-commands-enabled"], names_vim: Vec::new(), names_emacs: Vec::new(), label: None, default_focus_target: CommandFocusTarget::Default, argument_hint: Some("<bool>") };
            assert(d.names@ =~= seq!["set-emacs-commands-enabled"]);
            assert(d.names_vim@ =~= Seq::empty());
            assert(d.names_emacs@ =~= Seq::empty());
            Some(d)
        },
        55 => {
            let d = CommandDefinition { command: Command::SetBinding, names: vec!["set-binding"], names_vim: Vec::new(), names_emacs: Vec::new(), label: None, default_focus_target: CommandFocusTarget::Default, argument_hint: Some("original|ghostty") };
            assert(d.names@ =~= seq!["set-binding"]);
            assert(d.names_vim@ =~= Seq::empty());
            assert(d.names_emacs@ =~= Seq::empty());
            Some(d)
        },
        56 => {
            let d = CommandDefinition { command: Command::WordWrap, names: vec!["word-wrap", "wrap"], names_vim: vec!["set-wrap"], names_emacs: vec!["toggle-truncate-lines", "visual-line-mode"], label: Some("Word Wrap"), default_focus_target: CommandFocusTarget::Default, argument_hint: Some("<bool>") };
            assert(d.names@ =~= seq!["word-wrap", "wrap"]);
            assert(d.names_vim@ =~= seq!["set-wrap"]);
            assert(d.names_emacs@ =~= seq!["toggle-truncate-lines", "visual-line-mode"]);
            Some(d)
        },
        57 => {
            let d = CommandDefinition { command: Command::Reflow, names: vec!["reflow", "rf"], names_vim: Vec::new(), names_emacs: Vec::new(), label: None, default_focus_target: CommandFocusTarget::Default, argument_hint: None };
            assert(d.names@ =~= seq!["reflow", "rf"]);
            assert(d.names_vim@ =~= Seq::empty());
            assert(d.names_emacs@ =~= Seq::empty());
            Some(d)
        },
        58 => {
            let d = CommandDefinition { command: Command::CenterText, names: vec!["set-center-text", "toggle-center-text", "center-text"], names_vim: Vec::new(), names_emacs: Vec::new(), label: Some("Center Text"), default_focus_target: CommandFocusTarget::Default, argument_hint: Some("<bool>") };
            assert(d.names@ =~= seq!["set-center-text", "toggle-center-text", "center-text"]);
            assert(d.names_vim@ =~= Seq::empty());
            assert(d.names_emacs@ =~= Seq::empty());
            Some(d)
        },
        59 => {
            let d = CommandDefinition { command: Command::ToggleRuler, names: vec!["toggle-ruler", "set-ruler"], names_vim: Vec::new(), names_emacs: Vec::new(), label: Some("Ruler"), default_focus_target: CommandFocusTarget::Default, argument_hint: None };
            assert(d.names@ =~= seq!["toggle-ruler", "set-ruler"]);
            assert(d.names_vim@ =~= Seq::empty());
            assert(d.names_emacs@ =~= Seq::empty());
            Some(d)
        },
        60 => {
            let d = CommandDefinition { command: Command::ToggleHighlightCurrentChar, names: vec!["toggle-highlight-current-char"], names_vim: Vec::new(), names_emacs: Vec::new(), label: Some("Highlight Current Character"), default_focus_target: CommandFocusTarget::Default, argument_hint: None };
            assert(d.names@ =~= seq!["toggle-highlight-current-char"]);
            assert(d.names_vim@ =~= Seq::empty());
            assert(d.names_emacs@ =~= Seq::empty());
            Some(d)
        },
        61 => {
            let d = CommandDefinition { command: Command::About, names: vec!["about"], names_vim: Vec::new(), names_emacs: Vec::new(), label: Some("About"), default_focus_target: CommandFocusTarget::Default, argument_hint: None };
            assert(d.names@ =~= seq!["about"]);
            assert(d.names_vim@ =~= Seq::empty());
            assert(d.names_emacs@ =~= Seq::empty());
            Some(d)
        },
        62 => {
            let d = CommandDefinition { command: Command::WordCount, names: vec!["word-count"], names_vim: Vec::new(), names_emacs: Vec::new(), label: Some("Word Count"), default_focus_target: CommandFocusTarget::Default, argument_hint: None };
            assert(d.names@ =~= seq!["word-count"]);
            assert(d.names_vim@ =~= Seq::empty());
            assert(d.names_emacs@ =~= Seq::empty());
            Some(d)
        },
        63 => {
            let d = CommandDefinition { command: Command::QuerySetting, names: vec!["query", "?"], names_vim: Vec::new(), names_emacs: Vec::new(), label: None, default_focus_target: CommandFocusTarget::Default, argument_hint: Some("<setting>") };
            assert(d.names@ =~= seq!["query", "?"]);
            assert(d.names_vim@ =~= Seq::empty());
            assert(d.names_emacs@ =~= Seq::empty());
            Some(d)
        },
        64 => {
            let d = CommandDefinition { command: Command::InsertDate, names: vec!["date"], names_vim: Vec::new(), names_emacs: Vec::new(), label: None, default_focus_target: CommandFocusTarget::Default, argument_hint: None };
            assert(d.names@ =~= seq!["date"]);
            assert(d.names_vim@ =~= Seq::empty());
            assert(d.names_emacs@ =~= Seq::empty());
            Some(d)
        },
        65 => {
            let d = CommandDefinition { command: Command::Uppercase, names: vec!["uppercase", "uc"], names_vim: Vec::new(), names_emacs: vec!["upcase-region"], label: None, default_focus_target: CommandFocusTarget::Default, argument_hint: None };
            assert(d.names@ =~= seq!["uppercase", "uc"]);
            assert(d.names_vim@ =~= Seq::empty());
            assert(d.names_emacs@ =~= seq!["upcase-region"]);
            Some(d)
        },
        66 => {
            let d = CommandDefinition { command: Command::Lowercase, names: vec!["lowercase", "lc"], names_vim: Vec::new(), names_emacs: vec!["downcase-region"], label: None, default_focus_target: CommandFocusTarget::Default, argument_hint: None };
            assert(d.names@ =~= seq!["lowercase", "lc"]);
            assert(d.names_vim@ =~= Seq::empty());
            assert(d.names_emacs@ =~= seq!["downcase-region"]);
            Some(d)
        },
        67 => {
            let d = CommandDefinition { command: Command::CharCode, names: vec!["char-code", "char"], names_vim: Vec::new(), names_emacs: Vec::new(), label: None, default_focus_target: CommandFocusTarget::Default, argument_hint: None };
            assert(d.names@ =~= seq!["char-code", "char"]);
            assert(d.names_vim@ =~= Seq::empty());
            assert(d.names_emacs@ =~= Seq::empty());
            Some(d)
        },
        68 => {
            let d = CommandDefinition { command: Command::Help, names: vec!["help"], names_vim: vec!["help"], names_emacs: vec!["describe-bindings"], label: None, default_focus_target: CommandFocusTarget::Default, argument_hint: Some("<command>") };
            assert(d.names@ =~= seq!["help"]);
            assert(d.names_vim@ =~= seq!["help"]);
            assert(d.names_emacs@ =~= seq!["describe-bindings"]);
            Some(d)
        },
        _ => None,
    }
}

/// Number of definitions in a table.
pub open spec fn spec_table_len(set: CommandSet) -> int {
    match set {
        CommandSet::Edit => spec_edit_len(),
        CommandSet::Ze2 => spec_ze2_len(),
    }
}

/// Definition `i` of a table; `None` past its end.
pub open spec fn spec_def(set: CommandSet, i: int) -> Option<DefView> {
    match set {
        CommandSet::Edit => spec_edit_def(i),
        CommandSet::Ze2 => spec_ze2_def(i),
    }
}

pub proof fn lemma_def_in_range(set: CommandSet, i: int)
    ensures
        (spec_def(set, i) is Some) <==> (0 <= i < spec_table_len(set)),
{
}

/// Definition `i` of a table; `None` past its end.
pub fn definition_at(set: CommandSet, i: usize) -> (r: Option<CommandDefinition>)
    ensures
        (match r { Some(d) => Some(d@), None => None }) == spec_def(set, i as int),
{
    match set {
        CommandSet::Edit => edit_def(i),
        CommandSet::Ze2 => ze2_def(i),
    }
}

/// All definitions of a table, in lookup order.
pub fn command_definitions(set: CommandSet) -> (r: Vec<CommandDefinition>)
    ensures
        r@.len() == spec_table_len(set),
        forall|i: int| 0 <= i < r@.len() ==> spec_def(set, i) == Some(#[trigger] r@[i]@),
{
    let mut r: Vec<CommandDefinition> = Vec::new();
    let mut i: usize = 0;
    loop
        invariant
            r@.len() == i,
            i <= spec_table_len(set),
            forall|k: int| 0 <= k < r@.len() ==> spec_def(set, k) == Some(#[trigger] r@[k]@),
        ensures
            r@.len() == spec_table_len(set),
            forall|k: int| 0 <= k < r@.len() ==> spec_def(set, k) == Some(#[trigger] r@[k]@),
        decreases spec_table_len(set) - i,
    {
        proof {
            lemma_def_in_range(set, i as int);
        }
        match definition_at(set, i) {
            Some(d) => {
                r.push(d);
                i += 1;
            },
            None => break,
        }
    }
    r
}

} // verus!
