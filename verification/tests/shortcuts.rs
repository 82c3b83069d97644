use ze2::commands::definition::{Command, CommandArgs, CommandFocusTarget, CommandInvocation};
use ze2::commands::shortcuts::{
    command_invocation_from_shortcut, commandbar_shortcut_from_key,
    should_handle_command_shortcut_before_editor, text_from_insert_shortcut,
};
use ze2::input::{kbmod, vk};

#[test]
fn insert_shortcuts_map_to_text_invocations() {
    for (key, expected) in [
        (kbmod::ALT | vk::COMMA, "，"),
        (kbmod::ALT | vk::PERIOD, "。"),
        (kbmod::ALT | vk::DELETE, "。"),
        (kbmod::ALT | vk::SEMICOLON, "；"),
        (kbmod::ALT | vk::COLON, "："),
        (kbmod::ALT | vk::APOSTROPHE, "、"),
        (kbmod::ALT | vk::LBRACKET, "「"),
        (kbmod::ALT | vk::RBRACKET, "」"),
        (kbmod::ALT | vk::LBRACE, "『"),
        (kbmod::ALT | vk::RBRACE, "』"),
        (kbmod::ALT | vk::N1, "！"),
        (kbmod::ALT | vk::EXCLAMATION, "！"),
    ] {
        let Some(CommandInvocation {
            command: Command::InsertText,
            args: CommandArgs { argument: Some(text), .. },
        }) = command_invocation_from_shortcut(key)
        else {
            panic!("insert shortcut did not parse");
        };

        assert!(text == expected.as_bytes().to_vec());
    }
}

#[test]
fn ctrl_shortcuts_run_commands_without_arguments() {
    for (key, expected) in [
        (kbmod::CTRL | vk::N, Command::NewFile),
        (kbmod::CTRL | vk::O, Command::OpenFile),
        (kbmod::CTRL | vk::S, Command::Save),
        (kbmod::CTRL_SHIFT | vk::S, Command::SaveAs),
        (kbmod::CTRL | vk::W, Command::CloseFile),
        (kbmod::CTRL | vk::P, Command::GoToFile),
        (kbmod::CTRL | vk::Q, Command::Exit),
        (kbmod::CTRL | vk::G, Command::Goto),
        (kbmod::CTRL | vk::F, Command::Find),
        (kbmod::CTRL | vk::R, Command::Replace),
        (kbmod::CTRL | vk::L, Command::SelectLine),
    ] {
        let inv = command_invocation_from_shortcut(key).unwrap();
        assert!(inv.command == expected);
        assert!(inv.args.argument.is_none());
        assert!(inv.args.focus_target == CommandFocusTarget::Default);
    }
    assert!(command_invocation_from_shortcut(vk::A).is_none());
    assert!(command_invocation_from_shortcut(kbmod::CTRL | vk::Z).is_none());
    assert_eq!(text_from_insert_shortcut(kbmod::ALT_SHIFT | vk::SEMICOLON), Some("："));
    assert_eq!(text_from_insert_shortcut(kbmod::CTRL | vk::COMMA), None);
}

#[test]
fn function_keys_prefill_the_command_bar() {
    assert_eq!(commandbar_shortcut_from_key(vk::F2).unwrap().text, "save ");
    assert_eq!(commandbar_shortcut_from_key(vk::F3).unwrap().text, "file ");
    assert_eq!(commandbar_shortcut_from_key(vk::F4).unwrap().text, "quit ");
    assert!(commandbar_shortcut_from_key(vk::F5).is_none());
    assert!(should_handle_command_shortcut_before_editor(Command::InsertText));
    assert!(!should_handle_command_shortcut_before_editor(Command::Save));
}
