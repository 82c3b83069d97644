use ze2::commandbar::CommandBar;
use ze2::tui::KeyInput;
use ze2::commands::complete::{CommandAliasSource, CommandAutocompleteSuggestion};
use ze2::commands::definition::{Command, CommandSet};
use ze2::editor::{write_terminal_title, TitleStatus};
use ze2::input::{kbmod, vk};

fn bar() -> CommandBar {
    CommandBar {
        active: false,
        focus: false,
        input: Vec::new(),
        error: Vec::new(),
        autocomplete_index: None,
        include_vim_commands: true,
        include_emacs_commands: true,
        wants_editor_focus: false,
    }
}

fn key(k: u32) -> KeyInput {
    KeyInput { keyboard: Some(k), text: None, consumed: false }
}

fn suggestion(name: &'static str) -> CommandAutocompleteSuggestion {
    CommandAutocompleteSuggestion { name, source: CommandAliasSource::Standard, argument_hint: None }
}

#[test]
fn typed_letters_match_their_key() {
    let typed = KeyInput { keyboard: None, text: Some(b"a".to_vec()), consumed: false };
    assert!(typed.matches_shortcut(vk::A));
    assert!(!typed.matches_shortcut(kbmod::CTRL | vk::A));
    let upper = KeyInput { keyboard: None, text: Some(b"A".to_vec()), consumed: false };
    assert!(upper.matches_shortcut(vk::A));
    let two = KeyInput { keyboard: None, text: Some(b"ab".to_vec()), consumed: false };
    assert!(!two.matches_shortcut(vk::A));
    let mut down = key(vk::DOWN);
    assert!(down.consume_shortcut(vk::DOWN));
    assert!(!down.consume_shortcut(vk::DOWN));
    assert_eq!(down.keyboard_input(), None);
}

#[test]
fn escape_closes_an_open_bar_and_focuses_a_closed_one() {
    let mut b = bar();
    b.active = true;
    b.focus = true;
    b.error = b"oops".to_vec();
    let mut input = key(vk::ESCAPE);
    assert!(b.handle_input_before_editor(&mut input, false, false).is_none());
    assert!(input.consumed);
    assert!(!b.active && !b.focus && b.error.is_empty() && b.wants_editor_focus);

    let mut b = bar();
    let mut input = key(vk::ESCAPE);
    assert!(b.handle_input_before_editor(&mut input, false, false).is_none());
    assert!(input.consumed && b.focus && !b.active);

    // A pending dialog keeps the key for itself.
    let mut b = bar();
    let mut input = key(vk::ESCAPE);
    assert!(b.handle_input_before_editor(&mut input, false, true).is_none());
    assert!(!input.consumed && !b.focus);
}

#[test]
fn function_keys_open_the_bar_with_their_text() {
    let mut b = bar();
    b.error = b"old".to_vec();
    let mut input = key(vk::F2);
    assert!(b.handle_input_before_editor(&mut input, false, false).is_none());
    assert_eq!(b.input, b"save ".to_vec());
    assert!(b.active && b.focus && b.error.is_empty());
    // Not while the search bar is shown.
    let mut b = bar();
    let mut input = key(vk::F3);
    assert!(b.handle_input_before_editor(&mut input, true, false).is_none());
    assert!(!input.consumed && !b.active && b.input.is_empty());
}

#[test]
fn text_shortcuts_run_before_the_editor() {
    let mut b = bar();
    let mut input = key(kbmod::ALT | vk::COMMA);
    let r = b.handle_input_before_editor(&mut input, false, false).unwrap();
    assert_eq!(r.command, Command::InsertText);
    assert!(!input.consumed);
    // Not while the bar is open, and not for other shortcuts.
    let mut b = bar();
    b.active = true;
    let mut input = key(kbmod::ALT | vk::COMMA);
    assert!(b.handle_input_before_editor(&mut input, false, false).is_none());
    let mut b = bar();
    let mut input = key(kbmod::CTRL | vk::S);
    assert!(b.handle_input_before_editor(&mut input, false, false).is_none());
}

#[test]
fn arrows_walk_the_suggestions() {
    let list = [suggestion("save"), suggestion("save-as"), suggestion("select-all")];
    let mut b = bar();
    b.active = true;
    let mut input = key(vk::DOWN);
    assert!(!b.navigate_suggestions(&mut input, true, &list));
    assert_eq!(b.autocomplete_index, Some(1));
    let mut input = key(vk::DOWN);
    b.navigate_suggestions(&mut input, true, &list);
    assert_eq!(b.autocomplete_index, Some(2));
    // Down stops at the last one.
    let mut input = key(vk::DOWN);
    b.navigate_suggestions(&mut input, true, &list);
    assert_eq!(b.autocomplete_index, Some(2));
    let mut input = key(vk::UP);
    b.navigate_suggestions(&mut input, true, &list);
    assert_eq!(b.autocomplete_index, Some(1));
    // Tab takes the selected one.
    let mut input = key(vk::TAB);
    b.navigate_suggestions(&mut input, true, &list);
    assert_eq!(b.input, b"save-as".to_vec());
    assert_eq!(b.autocomplete_index, None);
    // Tab without a selection takes the first one; Return submits.
    let mut input = key(vk::TAB);
    b.navigate_suggestions(&mut input, true, &list);
    assert_eq!(b.input, b"save".to_vec());
    let mut input = key(vk::RETURN);
    assert!(b.navigate_suggestions(&mut input, true, &list));
    // Any other key clears the selection.
    b.autocomplete_index = Some(2);
    let mut input = key(vk::A);
    b.navigate_suggestions(&mut input, true, &list);
    assert_eq!(b.autocomplete_index, None);
    assert!(!input.consumed);
}

#[test]
fn up_without_suggestions_closes_the_bar() {
    let mut b = bar();
    b.active = true;
    b.error = b"x".to_vec();
    b.autocomplete_index = Some(3);
    let mut input = key(vk::UP);
    assert!(!b.navigate_suggestions(&mut input, true, &[]));
    assert!(input.consumed);
    assert!(!b.active && b.error.is_empty() && b.wants_editor_focus);
    assert_eq!(b.autocomplete_index, None);
}

#[test]
fn escape_in_the_bar_returns_to_the_editor() {
    let mut b = bar();
    b.active = true;
    b.focus = true;
    let mut input = key(vk::ESCAPE);
    assert!(b.escape(&mut input, true, false));
    assert!(!b.active && b.focus && b.wants_editor_focus && input.consumed);
    let mut input = key(vk::ESCAPE);
    assert!(!b.escape(&mut input, false, false));
}

#[test]
fn macros_run_their_bracketed_commands() {
    let r = ze2::commandbar::command_macro_from_text(CommandSet::Ze2, b"  [save] [about]  ", true, true).unwrap();
    assert_eq!(r.len(), 2);
    assert_eq!(r[0].command, Command::Save);
    assert_eq!(r[1].command, Command::About);
    assert!(ze2::commandbar::command_macro_from_text(CommandSet::Ze2, b"save", true, true).is_none());
    assert!(ze2::commandbar::command_macro_from_text(CommandSet::Ze2, b"[save", true, true).is_none());
    assert!(ze2::commandbar::command_macro_from_text(CommandSet::Ze2, b"[save] x", true, true).is_none());
    assert!(ze2::commandbar::command_macro_from_text(CommandSet::Ze2, b"[no-such-thing]", true, true).is_none());
}

#[test]
fn submitting_runs_commands_or_reports_unknown_ones() {
    let mut b = bar();
    b.active = true;
    b.input = b" [save][about] ".to_vec();
    let r = b.submit(CommandSet::Ze2, b"unknown");
    assert_eq!(r.len(), 2);
    assert!(!b.active && b.input.is_empty() && b.wants_editor_focus);

    let mut b = bar();
    b.active = true;
    b.input = b"about".to_vec();
    let r = b.submit(CommandSet::Ze2, b"unknown");
    assert_eq!(r.len(), 1);
    assert_eq!(r[0].command, Command::About);

    let mut b = bar();
    b.active = true;
    b.input = b"no-such-thing".to_vec();
    assert!(b.submit(CommandSet::Ze2, b"unknown").is_empty());
    assert!(b.active && b.input.is_empty());
    assert_eq!(b.error, b"unknown".to_vec());

    let mut b = bar();
    b.active = true;
    b.input = b"   ".to_vec();
    assert!(b.submit(CommandSet::Ze2, b"unknown").is_empty());
    assert_eq!(b.input, b"   ".to_vec());
    assert!(b.error.is_empty());
}

#[test]
fn terminal_title_names_the_file_once() {
    let mut out = Vec::new();
    let mut shown = TitleStatus { filename: Vec::new(), dirty: false };
    write_terminal_title(&mut out, &mut shown, b"a\x07b.txt", true);
    let mut expected = b"\x1b]0;".to_vec();
    expected.extend_from_slice("● ".as_bytes());
    expected.extend_from_slice(b"a_b.txt - ze2\x1b\\");
    assert_eq!(out, expected);
    // The same title again writes nothing.
    write_terminal_title(&mut out, &mut shown, b"a\x07b.txt", true);
    assert_eq!(out, expected);
    let mut out = Vec::new();
    write_terminal_title(&mut out, &mut shown, b"", false);
    assert_eq!(out, b"\x1b]0;ze2\x1b\\".to_vec());
}
