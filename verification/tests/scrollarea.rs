use ze2::helpers::{Point, Rect};
use ze2::input::{vk, InputMouseState};
use ze2::scrollarea::{textarea_clamp_scroll, textarea_cursor_scroll, drag_scroll_speed, scroll_to_focused, scrollarea_input, ScrollChainNode, ScrollInput, ScrollState};

fn state() -> ScrollState {
    ScrollState { scroll_offset: Point { x: 0, y: 5 }, drag_start_y: isize::MIN, thumb_height: 2 }
}

fn quiet() -> ScrollInput {
    ScrollInput {
        scroll_delta: Point { x: 0, y: 0 },
        hovered: false,
        mouse_state: InputMouseState::Idle,
        mouse_is_drag: false,
        mouse_down_position: Point { x: 0, y: 0 },
        mouse_position: Point { x: 0, y: 0 },
        focused: false,
        keyboard: None,
    }
}

const INNER: Rect = Rect { left: 0, top: 0, right: 10, bottom: 10 };

#[test]
fn wheel_scrolls_a_hovered_area() {
    let mut sc = state();
    let input = ScrollInput { scroll_delta: Point { x: 1, y: 3 }, hovered: true, ..quiet() };
    assert!(scrollarea_input(&mut sc, None, false, &input, INNER, 10, 30));
    assert_eq!(sc.scroll_offset, Point { x: 1, y: 8 });
    // Not when the mouse is elsewhere, nor when the input is taken.
    let mut sc = state();
    let input = ScrollInput { scroll_delta: Point { x: 0, y: 3 }, ..quiet() };
    assert!(!scrollarea_input(&mut sc, None, false, &input, INNER, 10, 30));
    assert_eq!(sc.scroll_offset, Point { x: 0, y: 5 });
    let input = ScrollInput { scroll_delta: Point { x: 0, y: 3 }, hovered: true, ..quiet() };
    assert!(scrollarea_input(&mut sc, None, true, &input, INNER, 10, 30));
    assert_eq!(sc.scroll_offset, Point { x: 0, y: 5 });
}

#[test]
fn dragging_the_thumb_scales_the_movement() {
    let mut sc = state();
    let input = ScrollInput {
        mouse_state: InputMouseState::Left,
        mouse_is_drag: true,
        mouse_down_position: Point { x: 10, y: 2 },
        mouse_position: Point { x: 10, y: 6 },
        ..quiet()
    };
    // 4 rows on a track of 10 less the thumb's 2, over 20 rows that do not fit.
    assert!(scrollarea_input(&mut sc, None, false, &input, INNER, 10, 30));
    assert_eq!(sc.scroll_offset.y, 15);
    assert_eq!(sc.drag_start_y, 5);
    // Upward, rounding toward zero: -3 * 20 / 8 = -7.
    let input = ScrollInput { mouse_position: Point { x: 10, y: -1 }, ..input };
    assert!(scrollarea_input(&mut sc, None, false, &input, INNER, 10, 30));
    assert_eq!(sc.scroll_offset.y, -2);
    let release = ScrollInput { mouse_state: InputMouseState::Release, ..quiet() };
    assert!(!scrollarea_input(&mut sc, None, false, &release, INNER, 10, 30));
    assert_eq!(sc.drag_start_y, isize::MIN);
    // A drag that began elsewhere does nothing.
    let mut sc = state();
    let elsewhere = ScrollInput { mouse_down_position: Point { x: 3, y: 2 }, ..input };
    assert!(!scrollarea_input(&mut sc, None, false, &elsewhere, INNER, 10, 30));
    assert_eq!(sc, state());
}

#[test]
fn keys_scroll_a_focused_area() {
    let key = |k| ScrollInput { focused: true, keyboard: Some(k), ..quiet() };
    let mut sc = state();
    assert!(scrollarea_input(&mut sc, None, false, &key(vk::PRIOR), INNER, 10, 30));
    assert_eq!(sc.scroll_offset.y, -5);
    assert!(scrollarea_input(&mut sc, None, false, &key(vk::NEXT), INNER, 10, 30));
    assert_eq!(sc.scroll_offset.y, 5);
    assert!(scrollarea_input(&mut sc, None, false, &key(vk::END), INNER, 10, 30));
    assert_eq!(sc.scroll_offset.y, isize::MAX);
    assert!(scrollarea_input(&mut sc, None, false, &key(vk::HOME), INNER, 10, 30));
    assert_eq!(sc.scroll_offset.y, 0);
    assert!(!scrollarea_input(&mut sc, None, false, &key(vk::A), INNER, 10, 30));
}

#[test]
fn a_fresh_area_takes_over_the_last_state() {
    let mut sc = ScrollState { scroll_offset: Point { x: isize::MIN, y: isize::MIN }, drag_start_y: 0, thumb_height: 0 };
    assert!(!scrollarea_input(&mut sc, Some(state()), false, &quiet(), INNER, 10, 30));
    assert_eq!(sc, state());
}

#[test]
fn drag_scroll_speeds_grow_toward_the_edges() {
    assert_eq!(drag_scroll_speed(0, 20, 10), 0);
    assert_eq!(drag_scroll_speed(0, 20, 2), -1);
    assert_eq!(drag_scroll_speed(0, 20, 1), -3);
    assert_eq!(drag_scroll_speed(0, 20, 0), -9);
    assert_eq!(drag_scroll_speed(0, 20, -5), -9);
    assert_eq!(drag_scroll_speed(0, 20, 17), 1);
    assert_eq!(drag_scroll_speed(0, 20, 19), 9);
    // A small area has smaller zones.
    assert_eq!(drag_scroll_speed(0, 2, 0), -1);
    assert_eq!(drag_scroll_speed(0, 1, 0), 0);
}

fn rect(top: isize, bottom: isize) -> Rect {
    Rect { left: 0, top, right: 10, bottom }
}

#[test]
fn scroll_areas_reveal_the_focused_node() {
    let mut chain = vec![
        ScrollChainNode { scroll_offset_y: None, inner: rect(50, 52), outer: rect(50, 52) },
        ScrollChainNode { scroll_offset_y: Some(0), inner: rect(0, 20), outer: rect(0, 20) },
        ScrollChainNode { scroll_offset_y: None, inner: rect(0, 40), outer: rect(0, 40) },
        ScrollChainNode { scroll_offset_y: Some(5), inner: rect(10, 15), outer: rect(10, 30) },
    ];
    scroll_to_focused(&mut chain);
    // The inner area scrolls the node's bottom into view ...
    assert_eq!(chain[1].scroll_offset_y, Some(32));
    // ... and the outer one the inner area's.
    assert_eq!(chain[3].scroll_offset_y, Some(10));
    assert_eq!(chain[0].scroll_offset_y, None);
    // A node already in view keeps the offset; a negative one counts as 0.
    let mut chain = vec![
        ScrollChainNode { scroll_offset_y: None, inner: rect(3, 4), outer: rect(3, 4) },
        ScrollChainNode { scroll_offset_y: Some(-4), inner: rect(0, 20), outer: rect(0, 20) },
    ];
    scroll_to_focused(&mut chain);
    assert_eq!(chain[1].scroll_offset_y, Some(0));
}

#[test]
fn text_areas_follow_the_cursor() {
    // Room of 10 columns to the left of the cursor, and to the right within the text's width.
    let p = textarea_cursor_scroll(Point { x: 50, y: 0 }, Point { x: 45, y: 0 }, 80, 20);
    assert_eq!(p.x, 35);
    let p = textarea_cursor_scroll(Point { x: 0, y: 0 }, Point { x: 100, y: 0 }, 80, 20);
    assert_eq!(p.x, 30);
    // The cursor's line comes into view at the top or the bottom.
    let p = textarea_cursor_scroll(Point { x: 0, y: 10 }, Point { x: 20, y: 4 }, 80, 20);
    assert_eq!(p.y, 4);
    let p = textarea_cursor_scroll(Point { x: 0, y: 10 }, Point { x: 20, y: 40 }, 80, 20);
    assert_eq!(p, Point { x: 0, y: 21 });
}

#[test]
fn text_area_offsets_stay_in_range() {
    let p = textarea_clamp_scroll(Point { x: 90, y: 70 }, 60, 30, 50, false);
    assert_eq!(p, Point { x: 50, y: 49 });
    let p = textarea_clamp_scroll(Point { x: -5, y: -2 }, 60, 30, 50, false);
    assert_eq!(p, Point { x: 0, y: 0 });
    let p = textarea_clamp_scroll(Point { x: 20, y: 3 }, 60, 30, 50, true);
    assert_eq!(p, Point { x: 0, y: 3 });
}
