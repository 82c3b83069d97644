use ze2::closing::{close_choice, handle_wants_exit, wants_close_step, CloseAction, CloseChoice, CloseState};
use ze2::documents::DocumentManager;
use ze2::input::vk;
use ze2::tui::KeyInput;

fn state() -> CloseState {
    CloseState {
        wants_close: true,
        wants_exit: false,
        wants_exit_after_close: false,
        wants_exit_after_save: false,
        wants_close_after_save: false,
        wants_save_as: false,
        exit: false,
    }
}

fn docs(dirty: &[bool]) -> DocumentManager {
    let mut m = DocumentManager::new();
    for &d in dirty {
        m.add_untitled();
        m.active_mut().unwrap().dirty = d;
    }
    m
}

#[test]
fn clean_documents_close_at_once() {
    let mut s = CloseState { wants_exit_after_close: true, ..state() };
    let mut d = docs(&[false]);
    assert_eq!(wants_close_step(&mut s, &mut d, None), CloseAction::Nothing);
    assert_eq!(d.len(), 0);
    assert!(!s.wants_close && s.exit);
    // Without a document nothing is wanted any more.
    let mut s = CloseState { wants_exit_after_close: true, ..state() };
    let mut d = docs(&[]);
    assert_eq!(wants_close_step(&mut s, &mut d, None), CloseAction::Nothing);
    assert!(!s.wants_close && !s.wants_exit_after_close && !s.exit);
}

#[test]
fn changed_documents_ask_first() {
    let mut s = state();
    let mut d = docs(&[true]);
    assert_eq!(wants_close_step(&mut s, &mut d, None), CloseAction::Ask);
    assert_eq!(d.len(), 1);
    assert_eq!(wants_close_step(&mut s, &mut d, Some(CloseChoice::Discard)), CloseAction::Nothing);
    assert_eq!(d.len(), 0);
    // Cancel gives up closing and exiting.
    let mut s = CloseState { wants_exit: true, ..state() };
    let mut d = docs(&[true]);
    assert_eq!(wants_close_step(&mut s, &mut d, Some(CloseChoice::Cancel)), CloseAction::Nothing);
    assert!(!s.wants_close && !s.wants_exit && d.len() == 1);
    // Saving a document without a path asks for one and exits afterwards.
    let mut s = CloseState { wants_exit: true, ..state() };
    assert_eq!(wants_close_step(&mut s, &mut d, Some(CloseChoice::Save)), CloseAction::Nothing);
    assert!(s.wants_save_as && s.wants_exit_after_save && !s.wants_exit && !s.wants_close);
}

#[test]
fn dialog_keys_and_buttons_choose() {
    let mut input = KeyInput { keyboard: Some(vk::N), text: None, consumed: false };
    assert_eq!(close_choice(true, false, false, &mut input, true, false), Some(CloseChoice::Discard));
    assert!(input.consumed);
    let mut input = KeyInput { keyboard: None, text: None, consumed: false };
    assert_eq!(close_choice(true, false, false, &mut input, true, false), Some(CloseChoice::Save));
    assert_eq!(close_choice(true, false, false, &mut input, true, true), Some(CloseChoice::Cancel));
    assert_eq!(close_choice(false, false, false, &mut input, true, false), None);
}

#[test]
fn exiting_closes_down_to_the_first_changed_document() {
    let mut s = state();
    s.wants_close = false;
    let mut d = docs(&[false, true, false, false]);
    handle_wants_exit(&mut s, &mut d);
    assert_eq!(d.len(), 2);
    assert!(s.wants_close && !s.exit);
    let mut s = state();
    let mut d = docs(&[false, false]);
    handle_wants_exit(&mut s, &mut d);
    assert_eq!(d.len(), 0);
    assert!(s.exit);
}
