use ze2::helpers::{Point, Rect};
use ze2::input::InputMouseState;
use ze2::scrollarea::TextareaState;
use ze2::textarea_mouse::{textarea_mouse_step, TextareaMouse, TextareaMouseAction};

fn area() -> TextareaState {
    TextareaState {
        scroll_offset: Point { x: 0, y: 10 },
        scroll_offset_y_drag_start: isize::MIN,
        scroll_offset_x_max: 0,
        thumb_height: 2,
        preferred_column: 0,
        single_line: false,
        has_focus: true,
    }
}

fn inner() -> Rect {
    Rect { left: 0, top: 0, right: 20, bottom: 10 }
}

fn press(state: InputMouseState, x: isize, y: isize) -> TextareaMouse {
    TextareaMouse {
        scroll_delta: Point { x: 0, y: 0 },
        hovered: true,
        mouse_state: state,
        mouse_is_drag: false,
        mouse_position: Point { x, y },
        mouse_down_position: Point { x, y },
        click: 1,
        shift: false,
    }
}

#[test]
fn wheel_scrolls_the_text_area() {
    let mut m = press(InputMouseState::Scroll, 5, 5);
    m.scroll_delta = Point { x: 0, y: 3 };
    let r = textarea_mouse_step(area(), m, inner(), 4, 100, false);
    assert!(r.consumed);
    assert_eq!(r.state.scroll_offset, Point { x: 0, y: 13 });
    assert_eq!(r.action, TextareaMouseAction::Nothing);
}

#[test]
fn click_moves_the_cursor_under_the_mouse() {
    let r = textarea_mouse_step(area(), press(InputMouseState::Left, 9, 2), inner(), 4, 100, false);
    assert!(r.consumed && r.make_cursor_visible && r.take_preferred_column);
    // The margin (4) is left of the text; the text is scrolled down by 10 lines.
    assert_eq!(r.action, TextareaMouseAction::MoveTo(Point { x: 5, y: 12 }));
    let mut m = press(InputMouseState::Left, 9, 2);
    m.shift = true;
    let r = textarea_mouse_step(area(), m, inner(), 4, 100, false);
    assert_eq!(r.action, TextareaMouseAction::SelectTo(Point { x: 5, y: 12 }));
}

#[test]
fn multi_clicks_select_word_line_and_all() {
    let mut m = press(InputMouseState::Left, 9, 2);
    m.click = 2;
    assert_eq!(textarea_mouse_step(area(), m, inner(), 4, 100, false).action, TextareaMouseAction::SelectWord);
    m.click = 3;
    assert_eq!(textarea_mouse_step(area(), m, inner(), 4, 100, false).action, TextareaMouseAction::SelectLine);
    m.click = 4;
    assert_eq!(textarea_mouse_step(area(), m, inner(), 4, 100, false).action, TextareaMouseAction::SelectAll);
    m.click = 5;
    let r = textarea_mouse_step(area(), m, inner(), 4, 100, false);
    assert_eq!(r.action, TextareaMouseAction::Nothing);
    assert!(r.consumed);
}

#[test]
fn right_press_on_the_text_is_left_alone() {
    let r = textarea_mouse_step(area(), press(InputMouseState::Right, 9, 2), inner(), 4, 100, false);
    assert!(!r.consumed && !r.to_keyboard);
    assert_eq!(r.action, TextareaMouseAction::Nothing);
}

#[test]
fn dragging_below_the_text_selects_and_scrolls_down() {
    let mut m = press(InputMouseState::Left, 9, 2);
    m.mouse_is_drag = true;
    m.mouse_position = Point { x: 9, y: 12 };
    let r = textarea_mouse_step(area(), m, inner(), 4, 100, false);
    assert_eq!(r.action, TextareaMouseAction::SelectTo(Point { x: 5, y: 22 }));
    assert!(r.take_preferred_column && r.fast_repeat && r.consumed);
    // Three lines below the bottom edge's zone: the fastest speed.
    assert_eq!(r.state.scroll_offset, Point { x: 0, y: 19 });
    m.mouse_position = Point { x: 9, y: 5 };
    let r = textarea_mouse_step(area(), m, inner(), 4, 100, false);
    assert_eq!(r.state.scroll_offset, Point { x: 0, y: 10 });
    assert!(!r.fast_repeat);
}

#[test]
fn dragging_the_thumb_scrolls_through_the_lines() {
    let mut m = press(InputMouseState::Left, 19, 1);
    m.mouse_is_drag = true;
    m.mouse_position = Point { x: 19, y: 3 };
    // 2 rows of 8 (10 less the thumb's 2) over 100 lines less one.
    let r = textarea_mouse_step(area(), m, inner(), 4, 100, false);
    assert!(r.consumed);
    assert_eq!(r.state.scroll_offset_y_drag_start, 10);
    assert_eq!(r.state.scroll_offset.y, 10 + 2 * 99 / 8);
    let r2 = textarea_mouse_step(r.state, press(InputMouseState::Release, 19, 1), inner(), 4, 100, false);
    assert_eq!(r2.state.scroll_offset_y_drag_start, isize::MIN);
    assert_eq!(r2.state.scroll_offset.y, 10 + 2 * 99 / 8);
}

#[test]
fn without_focus_or_after_others_nothing_happens() {
    let mut s = area();
    s.has_focus = false;
    let r = textarea_mouse_step(s, press(InputMouseState::Left, 9, 2), inner(), 4, 100, false);
    assert!(!r.consumed && !r.to_keyboard);
    let r = textarea_mouse_step(area(), press(InputMouseState::Idle, 9, 2), inner(), 4, 100, false);
    assert!(!r.consumed && r.to_keyboard);
    let r = textarea_mouse_step(area(), press(InputMouseState::Left, 9, 2), inner(), 4, 100, true);
    assert!(!r.consumed && !r.to_keyboard);
    assert_eq!(r.state, area());
}

#[test]
fn thumb_dragged_back_returns_to_where_the_drag_began() {
    let mut m = press(InputMouseState::Left, 19, 1);
    m.mouse_is_drag = true;
    m.mouse_position = Point { x: 19, y: 7 };
    let first = textarea_mouse_step(area(), m, inner(), 4, 100, false);
    assert_eq!(first.state.scroll_offset.y, 10 + 6 * 99 / 8);
    m.mouse_position = m.mouse_down_position;
    let second = textarea_mouse_step(first.state, m, inner(), 4, 100, false);
    assert_eq!(second.state.scroll_offset.y, 10);
}
