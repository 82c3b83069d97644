use ze2::commands::definition::Command;
use ze2::editor::SearchAction;
use ze2::input::{kbmod, vk};
use ze2::menu::{view_menu_checked, view_menu_items, view_menu_keys, view_menu_select, ViewMenuItem, ViewMenuOutcome, ViewState};
use ze2::scrollarea::{textarea_carry_state, TextareaState};
use ze2::helpers::Point;
use ze2::search::{search_focus, search_panel_step, SearchFrame, SearchKind, SearchOptions};
use ze2::settings::EditorColor;
use ze2::tui::KeyInput;

fn frame() -> SearchFrame {
    SearchFrame {
        contains_focus: true,
        needle_edited: false,
        needle_focused: false,
        replacement_focused: false,
        match_case_toggled: false,
        whole_word_toggled: false,
        use_regex_toggled: false,
        replace_all_pressed: false,
        close_pressed: false,
    }
}

fn options() -> SearchOptions {
    SearchOptions { match_case: false, whole_word: false, use_regex: false }
}

fn key(k: u32) -> KeyInput {
    KeyInput { keyboard: Some(k), text: None, consumed: false }
}

#[test]
fn search_bar_keys() {
    let mut kind = SearchKind::Replace;
    let mut o = options();
    let mut input = key(vk::RETURN);
    let f = SearchFrame { needle_focused: true, ..frame() };
    assert_eq!(search_panel_step(&mut kind, &mut o, &mut input, f), Some(SearchAction::Search));
    let mut input = key(kbmod::CTRL_ALT | vk::RETURN);
    let f = SearchFrame { replacement_focused: true, ..frame() };
    assert_eq!(search_panel_step(&mut kind, &mut o, &mut input, f), Some(SearchAction::ReplaceAll));
    let mut input = key(vk::RETURN);
    assert_eq!(search_panel_step(&mut kind, &mut o, &mut input, f), Some(SearchAction::Replace));
    // Escape hides the bar, and nothing runs.
    let mut input = key(vk::ESCAPE);
    assert_eq!(search_panel_step(&mut kind, &mut o, &mut input, f), None);
    assert_eq!(kind, SearchKind::Hidden);
}

#[test]
fn search_options_search_again() {
    let mut kind = SearchKind::Search;
    let mut o = options();
    let mut input = KeyInput { keyboard: None, text: None, consumed: false };
    let f = SearchFrame { match_case_toggled: true, ..frame() };
    assert_eq!(search_panel_step(&mut kind, &mut o, &mut input, f), Some(SearchAction::Search));
    assert!(o.match_case);
    // Replace All needs a replace bar.
    let f = SearchFrame { replace_all_pressed: true, close_pressed: true, ..frame() };
    assert_eq!(search_panel_step(&mut kind, &mut o, &mut input, f), None);
    assert_eq!(kind, SearchKind::Hidden);
    let mut kind = SearchKind::Replace;
    let f = SearchFrame { replace_all_pressed: true, ..frame() };
    assert_eq!(search_panel_step(&mut kind, &mut o, &mut input, f), Some(SearchAction::ReplaceAll));
}

#[test]
fn search_focus_goes_to_the_fields() {
    let mut wants = true;
    assert_eq!(search_focus(&mut wants, SearchKind::Replace, true), SearchKind::Replace);
    assert!(!wants);
    let mut wants = true;
    assert_eq!(search_focus(&mut wants, SearchKind::Replace, false), SearchKind::Search);
    assert_eq!(search_focus(&mut wants, SearchKind::Replace, true), SearchKind::Hidden);
}

#[test]
fn view_menu_items_check_and_act() {
    let items = view_menu_items();
    assert_eq!(items.len(), 9);
    assert_eq!(view_menu_keys(ViewMenuItem::WordWrap), ('W', kbmod::ALT | vk::Z));
    let mut s = ViewState {
        word_wrap: true,
        word_wrap_column: 80,
        ruler: false,
        center_text: false,
        highlight_current_char: false,
        editor_color: EditorColor::Original,
    };
    assert!(view_menu_checked(ViewMenuItem::WordWrap80, &s));
    assert!(!view_menu_checked(ViewMenuItem::WordWrap60, &s));
    assert!(matches!(view_menu_select(ViewMenuItem::Ruler, &mut s), ViewMenuOutcome::SaveRuler(true)));
    assert!(s.ruler);
    match view_menu_select(ViewMenuItem::WordWrap60, &mut s) {
        ViewMenuOutcome::Run(i) => {
            assert_eq!(i.command, Command::SetWordWrapColumn);
            assert_eq!(i.args.argument, Some(b"60".to_vec()));
        },
        _ => panic!("the column item runs a command"),
    }
    assert!(matches!(
        view_menu_select(ViewMenuItem::ColorWhiteOnBlue, &mut s),
        ViewMenuOutcome::SaveEditorColor(EditorColor::WhiteOnBlue)
    ));
    assert!(view_menu_checked(ViewMenuItem::ColorWhiteOnBlue, &s));
}

#[test]
fn text_areas_carry_their_state() {
    let prev = TextareaState {
        scroll_offset: Point { x: 3, y: 40 },
        scroll_offset_y_drag_start: isize::MIN,
        scroll_offset_x_max: 12,
        thumb_height: 2,
        preferred_column: 7,
        single_line: false,
        has_focus: false,
    };
    let (s, w) = textarea_carry_state(Some(prev), false, true, 80);
    assert_eq!(s.scroll_offset, Point { x: 3, y: 40 });
    assert_eq!(s.preferred_column, 7);
    assert!(s.has_focus);
    assert_eq!(w, Some(79));
    let (_, w) = textarea_carry_state(Some(prev), true, false, 80);
    assert_eq!(w, Some(80));
    let (s, w) = textarea_carry_state(None, false, false, 80);
    assert_eq!(s.scroll_offset, Point { x: 0, y: 0 });
    assert_eq!(w, None);
}
