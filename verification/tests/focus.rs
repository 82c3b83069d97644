use ze2::focus::{table_focus_target, FocusItem};

fn item(id: u64, focusable: bool) -> FocusItem {
    FocusItem { id, focusable }
}

#[test]
fn arrow_keys_move_between_focusable_cells() {
    let row = [item(1, true), item(2, false), item(3, true), item(4, true), item(5, false)];
    assert_eq!(table_focus_target(&row, 3, true), Some(3));
    assert_eq!(table_focus_target(&row, 3, false), Some(0));
    // Past the last focusable cell the focus wraps to the first child.
    assert_eq!(table_focus_target(&row, 4, true), Some(0));
    // Before the first one it wraps to the last child, focusable or not.
    assert_eq!(table_focus_target(&row, 1, false), Some(4));
    // The focused id must be among the children.
    assert_eq!(table_focus_target(&row, 9, true), None);
    assert_eq!(table_focus_target(&[], 1, true), None);
}

use ze2::focus::{list_item_end, list_selection, move_focus, pop_focusable_node, tab_target, FocusFlags, FocusNode, ROOT_ID};
use ze2::input::vk;
use ze2::node_map::NodeMap;
use ze2::tui::{KeyInput, ListSelection};

fn fnode(id: u64, focusable: bool, focus_void: bool, children: Vec<FocusNode>) -> FocusNode {
    FocusNode { id, focusable, focus_void, children }
}

fn sample_well() -> FocusNode {
    fnode(
        0,
        false,
        false,
        vec![
            fnode(1, true, false, vec![]),
            fnode(2, false, true, vec![fnode(3, true, false, vec![])]),
            fnode(4, false, false, vec![fnode(5, true, false, vec![]), fnode(6, true, false, vec![])]),
        ],
    )
}

#[test]
fn tab_moves_to_the_next_focusable_node() {
    let well = sample_well();
    // Tab skips the focus void and its focusable child.
    assert_eq!(tab_target(&well, &vec![0], true), vec![2, 0]);
    assert_eq!(tab_target(&well, &vec![2, 0], true), vec![2, 1]);
    // From the last one it wraps around to the first.
    assert_eq!(tab_target(&well, &vec![2, 1], true), vec![0]);
}

#[test]
fn shift_tab_visits_children_last_to_first() {
    let well = sample_well();
    assert_eq!(tab_target(&well, &vec![2, 0], false), vec![0]);
    assert_eq!(tab_target(&well, &vec![0], false), vec![2, 1]);
    assert_eq!(tab_target(&well, &vec![2, 1], false), vec![2, 0]);
}

#[test]
fn tab_stays_without_another_focusable_node() {
    let well = fnode(0, false, false, vec![fnode(1, true, false, vec![]), fnode(2, false, false, vec![])]);
    assert_eq!(tab_target(&well, &vec![0], true), vec![0]);
    assert_eq!(tab_target(&well, &vec![0], false), vec![0]);
}

#[test]
fn tab_leaves_a_focus_void_from_the_void() {
    let well = sample_well();
    // The focus sits inside the void: navigation starts at the void itself.
    assert_eq!(move_focus(&well, &vec![1, 0], true), vec![2, 0]);
    assert_eq!(move_focus(&well, &vec![1, 0], false), vec![0]);
    // Outside a void it starts at the focused node.
    assert_eq!(move_focus(&well, &vec![2, 0], true), vec![2, 1]);
}

#[test]
fn tab_keeps_the_focus_without_a_target() {
    let well = fnode(0, false, false, vec![fnode(1, false, true, vec![fnode(2, true, false, vec![])])]);
    assert_eq!(move_focus(&well, &vec![0, 0], true), vec![0, 0]);
    assert_eq!(move_focus(&well, &vec![], false), Vec::<usize>::new());
}

fn flags(focusable: bool, focus_void: bool) -> FocusFlags {
    FocusFlags { focusable, focus_void }
}

#[test]
fn focus_path_keeps_existing_focusable_nodes() {
    let ids = [10, 20, 30, 40];
    let map = NodeMap::new(&ids);
    let f = [flags(true, false), flags(false, false), flags(true, false), flags(true, true)];
    // Node 99 is gone: the path ends at the last focusable node before it.
    let mut path = vec![10, 20, 30, 99, 40];
    assert!(pop_focusable_node(&mut path, &map, &f, 0));
    assert_eq!(path, vec![10, 20, 30]);
    // Nothing changes where every node exists and the last is focusable.
    let mut path = vec![10, 30];
    assert!(!pop_focusable_node(&mut path, &map, &f, 0));
    assert_eq!(path, vec![10, 30]);
    // Escape moves up one level, and not into a focus void.
    let mut path = vec![10, 20, 30];
    assert!(pop_focusable_node(&mut path, &map, &f, 1));
    assert_eq!(path, vec![10]);
    let mut path = vec![10, 40, 30];
    assert!(pop_focusable_node(&mut path, &map, &f, 1));
    assert_eq!(path, vec![10]);
    // Without a focusable node the root takes the focus.
    let mut path = vec![20];
    assert!(pop_focusable_node(&mut path, &map, &f, 0));
    assert_eq!(path, vec![ROOT_ID]);
}

fn keyed(k: u32) -> KeyInput {
    KeyInput { keyboard: Some(k), text: None, consumed: false }
}

#[test]
fn list_keys_move_the_selection() {
    let mut input = keyed(vk::DOWN);
    assert_eq!(list_selection(5, Some(4), true, &mut input, Some(3)), Some(0));
    assert!(input.consumed);
    let mut input = keyed(vk::UP);
    assert_eq!(list_selection(5, Some(0), true, &mut input, Some(3)), Some(4));
    let mut input = keyed(vk::NEXT);
    assert_eq!(list_selection(5, Some(1), true, &mut input, Some(3)), Some(3));
    let mut input = keyed(vk::NEXT);
    assert_eq!(list_selection(5, Some(3), true, &mut input, Some(3)), Some(4));
    let mut input = keyed(vk::PRIOR);
    assert_eq!(list_selection(5, Some(1), true, &mut input, Some(3)), Some(0));
    let mut input = keyed(vk::END);
    assert_eq!(list_selection(5, Some(1), true, &mut input, Some(3)), Some(4));
    // Other keys, an unfocused list or a fresh one keep the selection.
    let mut input = keyed(vk::A);
    assert_eq!(list_selection(5, Some(2), true, &mut input, Some(3)), Some(2));
    assert!(!input.consumed);
    let mut input = keyed(vk::DOWN);
    assert_eq!(list_selection(5, Some(2), false, &mut input, Some(3)), Some(2));
    let mut input = keyed(vk::DOWN);
    assert_eq!(list_selection(5, None, true, &mut input, Some(3)), Some(0));
    assert!(!input.consumed);
    let mut input = keyed(vk::DOWN);
    assert_eq!(list_selection(0, None, true, &mut input, Some(3)), None);
}

#[test]
fn list_items_take_the_selection_and_activate() {
    // A focused item becomes the selection.
    let mut selected = 7;
    let mut input = KeyInput { keyboard: None, text: None, consumed: false };
    assert_eq!(list_item_end(&mut selected, 9, false, true, &mut input, false), (ListSelection::Selected, true));
    assert_eq!(selected, 9);
    // Return on the selected, focused item activates it.
    let mut input = keyed(vk::RETURN);
    assert_eq!(list_item_end(&mut selected, 9, false, true, &mut input, false), (ListSelection::Activated, true));
    assert!(input.consumed);
    // The first item picked while nothing is selected takes the selection.
    let mut selected = 0;
    let mut input = KeyInput { keyboard: None, text: None, consumed: false };
    assert_eq!(list_item_end(&mut selected, 3, true, false, &mut input, false), (ListSelection::Selected, true));
    assert_eq!(list_item_end(&mut selected, 4, true, false, &mut input, false), (ListSelection::Unchanged, false));
    assert_eq!(selected, 3);
}

#[test]
fn buttons_activate_on_click_return_or_space() {
    let mut input = keyed(vk::SPACE);
    assert!(input.button_activated(false, true));
    assert!(input.consumed);
    assert!(!input.button_activated(true, true));
    let mut input = KeyInput { keyboard: None, text: None, consumed: false };
    assert!(input.button_activated(true, true));
    let mut input = keyed(vk::RETURN);
    assert!(!input.button_activated(false, false));
    assert!(!input.consumed);
}
