use ze2::input::{kbmod, vk};
use ze2::textarea::{textarea_key_action, TextareaAction};

#[test]
fn editing_keys_map_to_buffer_operations() {
    let r = textarea_key_action(kbmod::CTRL | vk::A, false, false, false);
    assert_eq!(r.action, TextareaAction::SelectAll);
    assert!(r.make_cursor_visible && r.change_preferred_column);
    assert_eq!(textarea_key_action(kbmod::SHIFT | vk::TAB, false, false, false).action, TextareaAction::Indent { outdent: true });
    assert_eq!(textarea_key_action(vk::TAB, true, false, false).action, TextareaAction::Ignore);
    assert_eq!(textarea_key_action(kbmod::CTRL | vk::BACK, false, false, false).action, TextareaAction::DeleteLine);
    assert_eq!(textarea_key_action(kbmod::ALT | vk::Z, false, false, false).action, TextareaAction::ToggleWordWrap);
    assert_eq!(textarea_key_action(kbmod::CTRL_SHIFT | vk::Z, false, false, false).action, TextareaAction::Redo);
    assert_eq!(textarea_key_action(kbmod::ALT | vk::DELETE, false, false, false).action, TextareaAction::Ignore);
}

#[test]
fn movement_keys_keep_or_take_the_column() {
    let r = textarea_key_action(vk::DOWN, false, false, false);
    assert_eq!(r.action, TextareaAction::Vertical { down: true });
    assert!(r.make_cursor_visible && !r.change_preferred_column);
    let r = textarea_key_action(kbmod::CTRL | vk::UP, false, false, false);
    assert_eq!(r.action, TextareaAction::Scroll { down: false });
    assert!(!r.make_cursor_visible);
    assert_eq!(textarea_key_action(vk::UP, true, false, false).action, TextareaAction::Ignore);
    let r = textarea_key_action(kbmod::CTRL | kbmod::SHIFT | vk::LEFT, false, false, false);
    assert_eq!(r.action, TextareaAction::Horizontal { right: false, word: true, select: true });
    assert!(r.change_preferred_column);
    // On macOS words go by Alt, and Alt+F moves a word right.
    assert_eq!(
        textarea_key_action(kbmod::ALT | vk::RIGHT, false, false, true).action,
        TextareaAction::Horizontal { right: true, word: true, select: false }
    );
    assert_eq!(
        textarea_key_action(kbmod::ALT | vk::F, false, false, true).action,
        TextareaAction::Horizontal { right: true, word: true, select: false }
    );
    assert_eq!(textarea_key_action(kbmod::ALT | vk::F, false, false, false).action, TextareaAction::Ignore);
}

#[test]
fn escape_clears_a_selection_first() {
    assert_eq!(textarea_key_action(vk::ESCAPE, true, true, false).action, TextareaAction::ClearSelection);
    assert_eq!(textarea_key_action(vk::ESCAPE, true, false, false).action, TextareaAction::Ignore);
    let r = textarea_key_action(vk::ESCAPE, false, false, false);
    assert_eq!(r.action, TextareaAction::Nothing);
    assert!(!r.make_cursor_visible);
    let r = textarea_key_action(vk::RETURN, false, false, false);
    assert_eq!(r.action, TextareaAction::InsertNewline);
    assert!(r.change_preferred_column);
}
