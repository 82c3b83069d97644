use ze2::commands::definition::{Command, CommandArgs, CommandFocusTarget, CommandInvocation};
use ze2::commands::complete::{
    autocomplete_command_suggestions_with_modes, autocomplete_commands,
    autocomplete_commands_with_modes, CommandAliasSource,
};
use ze2::commands::parse::{command_from_text, command_from_text_with_modes};

#[test]
fn command_text_accepts_common_aliases() {
    assert!(matches!(
        command_from_text("save as"),
        Some(CommandInvocation { command: Command::SaveAs, args: CommandArgs { argument: None, .. } })
    ));
    assert!(matches!(
        command_from_text("select-all"),
        Some(CommandInvocation { command: Command::SelectAll, args: CommandArgs { argument: None, .. } })
    ));
    assert!(matches!(
        command_from_text("Go to Line:Column..."),
        Some(CommandInvocation { command: Command::Goto, args: CommandArgs { argument: None, .. } })
    ));
    assert!(matches!(
        command_from_text("e"),
        Some(CommandInvocation { command: Command::OpenFile, args: CommandArgs { argument: None, .. } })
    ));
    assert!(matches!(
        command_from_text("edit"),
        Some(CommandInvocation { command: Command::OpenFile, args: CommandArgs { argument: None, .. } })
    ));
    assert!(matches!(
        command_from_text("file"),
        Some(CommandInvocation {
            command: Command::SaveAndCloseFileAndExitIfLast,
            args: CommandArgs { argument: None, .. },
        })
    ));
    assert!(matches!(
        command_from_text("quit"),
        Some(CommandInvocation {
            command: Command::CloseFileAndExitIfLast,
            args: CommandArgs { argument: None, .. },
            ..
        })
    ));
    assert!(matches!(
        command_from_text("focus-statusbar"),
        Some(CommandInvocation {
            command: Command::FocusStatusbar,
            args: CommandArgs { argument: None, focus_target: CommandFocusTarget::StatusBar },
        })
    ));
    assert!(matches!(
        command_from_text("statusbar"),
        Some(CommandInvocation {
            command: Command::FocusStatusbar,
            args: CommandArgs { argument: None, focus_target: CommandFocusTarget::StatusBar },
        })
    ));
    assert!(matches!(
        command_from_text("u"),
        Some(CommandInvocation { command: Command::Undo, args: CommandArgs { argument: None, .. } })
    ));
    assert!(matches!(
        command_from_text("undo-redo"),
        Some(CommandInvocation { command: Command::Redo, args: CommandArgs { argument: None, .. } })
    ));
    assert!(matches!(
        command_from_text("delete"),
        Some(CommandInvocation { command: Command::Cut, args: CommandArgs { argument: None, .. } })
    ));
    assert!(matches!(
        command_from_text("kill-region"),
        Some(CommandInvocation { command: Command::Cut, args: CommandArgs { argument: None, .. } })
    ));
    assert!(matches!(
        command_from_text("yank"),
        Some(CommandInvocation { command: Command::Copy, args: CommandArgs { argument: None, .. } })
    ));
    assert!(matches!(
        command_from_text("put"),
        Some(CommandInvocation { command: Command::Paste, args: CommandArgs { argument: None, .. } })
    ));
    assert!(matches!(
        command_from_text("mark-whole-buffer"),
        Some(CommandInvocation { command: Command::SelectAll, args: CommandArgs { argument: None, .. } })
    ));
    assert!(matches!(
        command_from_text("set-wrap"),
        Some(CommandInvocation { command: Command::WordWrap, args: CommandArgs { argument: None, .. } })
    ));
    assert!(matches!(
        command_from_text("toggle-truncate-lines"),
        Some(CommandInvocation { command: Command::WordWrap, args: CommandArgs { argument: None, .. } })
    ));
    assert!(matches!(
        command_from_text("set-vim-commands-enabled"),
        Some(CommandInvocation {
            command: Command::EnableVimCommands,
            args: CommandArgs { argument: None, .. },
        })
    ));
    assert!(matches!(
        command_from_text("set-emacs-commands-enabled"),
        Some(CommandInvocation {
            command: Command::EnableEmacsCommands,
            args: CommandArgs { argument: None, .. },
        })
    ));
}

#[test]
fn command_text_preserves_argument_tail() {
    let Some(CommandInvocation {
        command: Command::OpenFile,
        args: CommandArgs { argument: Some(argument), .. },
    }) = command_from_text("open path with spaces.txt")
    else {
        panic!("open command did not parse");
    };

    assert!(argument == b"path with spaces.txt".to_vec());
}

#[test]
fn command_text_accepts_parameterized_commands() {
    for (text, expected_command, expected_argument) in [
        ("find needle", Command::Find, "needle"),
        ("replace old new value", Command::Replace, "old new value"),
        ("go-to-file src/main.rs", Command::GoToFile, "src/main.rs"),
        ("go-to-line 42", Command::Goto, "42"),
        ("word-wrap false", Command::WordWrap, "false"),
        ("set-wrap true", Command::WordWrap, "true"),
        ("visual-line-mode false", Command::WordWrap, "false"),
        ("set-textwidth 80", Command::SetWordWrapColumn, "80"),
        ("set-fill-column 80", Command::SetWordWrapColumn, "80"),
        ("set-vim-commands-enabled false", Command::EnableVimCommands, "false"),
        ("set-emacs-commands-enabled true", Command::EnableEmacsCommands, "true"),
        ("set-highlight-current-char true", Command::SetHighlightCurrentChar, "true"),
        ("set-editor-color white-on-blue", Command::SetEditorColor, "white-on-blue"),
    ] {
        let Some(CommandInvocation {
            command,
            args: CommandArgs { argument: Some(argument), focus_target },
        }) = command_from_text(text)
        else {
            panic!("command did not parse: {text}");
        };

        assert!(command == expected_command);
        assert!(argument == expected_argument.as_bytes().to_vec());
        assert!(focus_target == CommandFocusTarget::Default);
    }
}

#[test]
fn command_text_accepts_commandbar_shorthands() {
    for (text, expected_command, expected_argument, expected_focus_target) in [
        ("42", Command::Goto, "42", CommandFocusTarget::Default),
        (" 42 ", Command::Goto, "42", CommandFocusTarget::Default),
        ("/needle", Command::Find, "needle", CommandFocusTarget::SearchPanel),
        ("/needle with spaces", Command::Find, "needle with spaces", CommandFocusTarget::SearchPanel),
        (" / needle ", Command::Find, "needle", CommandFocusTarget::SearchPanel),
        ("s/old/new", Command::Replace, "old new", CommandFocusTarget::SearchPanel),
        ("s/old/new value", Command::Replace, "old new value", CommandFocusTarget::SearchPanel),
    ] {
        let Some(CommandInvocation {
            command,
            args: CommandArgs { argument: Some(argument), focus_target },
        }) = command_from_text(text)
        else {
            panic!("command shorthand did not parse: {text}");
        };

        assert!(command == expected_command);
        assert!(argument == expected_argument.as_bytes().to_vec());
        assert!(focus_target == expected_focus_target);
    }

    assert!(command_from_text("/").is_none());
    assert!(command_from_text("s//new").is_none());
}

#[test]
fn command_text_respects_vim_emacs_mode_toggles() {
    assert!(matches!(
        command_from_text_with_modes("undo", false, false),
        Some(CommandInvocation { command: Command::Undo, args: CommandArgs { argument: None, .. } })
    ));
    assert!(command_from_text_with_modes("u", false, false).is_none());
    assert!(command_from_text_with_modes("undo-redo", false, false).is_none());
    assert!(command_from_text_with_modes("u", true, false).is_some());
    assert!(command_from_text_with_modes("undo-redo", false, true).is_some());

    let no_modes = autocomplete_commands_with_modes("set", false, false);
    assert!(!no_modes.iter().any(|name| *name == "set-wrap"));
    assert!(!no_modes.iter().any(|name| *name == "set-fill-column"));

    let vim_only = autocomplete_commands_with_modes("set", true, false);
    assert!(vim_only.iter().any(|name| *name == "set-wrap"));

    let emacs_only = autocomplete_commands_with_modes("set", false, true);
    assert!(emacs_only.iter().any(|name| *name == "set-fill-column"));
}

#[test]
fn autocomplete_suggestions_annotate_non_standard_aliases() {
    let suggestions_e = autocomplete_command_suggestions_with_modes("e", true, true);
    assert!(suggestions_e
        .iter()
        .any(|s| s.name == "edit" && s.display_text() == b"edit <path>".to_vec()));

    let suggestions_o = autocomplete_command_suggestions_with_modes("o", true, true);
    assert!(suggestions_o
        .iter()
        .any(|s| s.name == "o" && s.display_text() == b"o <path> [vim]".to_vec()));
}

#[test]
fn autocomplete_is_sorted_unique_and_capped() {
    let all = autocomplete_commands("s");
    assert!(all.len() <= 10);
    for pair in all.windows(2) {
        assert!(pair[0] < pair[1]);
    }
    assert!(autocomplete_commands("").is_empty());
    assert!(autocomplete_commands("  -- ").is_empty());
    assert!(autocomplete_commands("zzzz-no-such-command").is_empty());
}

#[test]
fn autocomplete_prefers_the_standard_alias_source() {
    // "delete" is a vim alias only; its suggestion carries the vim tag.
    let s = autocomplete_command_suggestions_with_modes("delete", true, true);
    assert!(s.iter().any(|x| x.name == "delete" && x.source == CommandAliasSource::Vim));
    assert!(autocomplete_command_suggestions_with_modes("delete", false, true)
        .iter()
        .all(|x| x.name != "delete"));
}
