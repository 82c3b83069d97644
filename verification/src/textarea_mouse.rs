//! What the mouse does in a text area or an input line: the wheel scrolls
//! it; a press places the cursor, or selects a word, a line or everything on
//! a double, triple or quadruple click; a drag extends the selection and
//! scrolls while the mouse is near or past the edges; and dragging the
//! scrollbar's thumb scrolls through the text.

use vstd::prelude::*;
use crate::helpers::{CoordType, Point, Rect};
use crate::input::InputMouseState;
use crate::scrollarea::{
    div_trunc, div_trunc_i64, drag_scroll_speed, drag_zone, fits, fits64, spec_drag_scroll_speed, TextareaState,
};

verus! {

/// The mouse input of a frame as a text area sees it.
#[derive(Clone, Copy, Debug, PartialEq, Eq, Structural)]
pub struct TextareaMouse {
    /// The mouse wheel's scroll.
    pub scroll_delta: Point,
    /// The mouse was over the text area last frame.
    pub hovered: bool,
    pub mouse_state: InputMouseState,
    pub mouse_is_drag: bool,
    pub mouse_position: Point,
    pub mouse_down_position: Point,
    /// 0, or which click this is (1 for a click, 2 for a double-click, ...).
    pub click: CoordType,
    /// Shift is held.
    pub shift: bool,
}

/// What the mouse does to the text buffer.
#[derive(Clone, Copy, Debug, PartialEq, Eq, Structural)]
pub enum TextareaMouseAction {
    Nothing,
    /// Move the cursor to a position in the laid-out text.
    MoveTo(Point),
    /// Extend the selection to a position in the laid-out text.
    SelectTo(Point),
    SelectWord,
    SelectLine,
    SelectAll,
}

/// The outcome of a frame's mouse input in a text area.
#[derive(Clone, Copy, Debug, PartialEq, Eq, Structural)]
pub struct TextareaMouseStep {
    pub state: TextareaState,
    pub action: TextareaMouseAction,
    /// After the action, the column kept for moving up and down becomes the
    /// cursor's.
    pub take_preferred_column: bool,
    /// After the action, the cursor is brought into view.
    pub make_cursor_visible: bool,
    /// The input is consumed.
    pub consumed: bool,
    /// The mouse input was not the text area's: its keyboard input is
    /// looked at next.
    pub to_keyboard: bool,
    /// Scrolling by dragging goes on: the next input is awaited for a short
    /// while only.
    pub fast_repeat: bool,
}

/// Where the text is shown: the inner rectangle less the line number margin
/// on the left and, in a text area, the scrollbar's column on the right.
pub open spec fn text_rect(inner: Rect, margin: int, single_line: bool) -> Rect {
    Rect {
        left: (inner.left + margin) as isize,
        top: inner.top,
        right: (inner.right - if single_line { 0int } else { 1int }) as isize,
        bottom: inner.bottom,
    }
}

/// The scrollbar's track: right of the text, down the inner rectangle.
pub open spec fn track_rect(inner: Rect, margin: int, single_line: bool) -> Rect {
    Rect { left: text_rect(inner, margin, single_line).right, top: inner.top, right: inner.right, bottom: inner.bottom }
}

/// The position in the laid-out text under the mouse.
pub open spec fn text_pos(s: TextareaState, m: TextareaMouse, inner: Rect, margin: int) -> Point {
    Point {
        x: (m.mouse_position.x - inner.left - margin + s.scroll_offset.x) as isize,
        y: (m.mouse_position.y - inner.top + s.scroll_offset.y) as isize,
    }
}

/// The vertical offset a drag of the thumb started from.
pub open spec fn thumb_drag_start(s: TextareaState) -> int {
    if s.scroll_offset_y_drag_start == isize::MIN {
        s.scroll_offset.y as int
    } else {
        s.scroll_offset_y_drag_start as int
    }
}

/// The vertical offset while dragging the thumb: the start offset plus the
/// mouse's movement scaled from the track (less the thumb) to the lines
/// (`line_count`) less one, which may be scrolled past. Unchanged where
/// there is a single line.
pub open spec fn thumb_dragged_offset(s: TextareaState, m: TextareaMouse, inner: Rect, line_count: int) -> int {
    let scrollable = line_count - 1;
    if scrollable > 0 {
        thumb_drag_start(s) + div_trunc(
            (m.mouse_position.y - m.mouse_down_position.y) * scrollable,
            (inner.bottom - inner.top) - s.thumb_height,
        )
    } else {
        s.scroll_offset.y as int
    }
}

/// The drag scroll speed along `min..max` can be computed (else it would
/// overflow or fail).
pub open spec fn speed_fits(min: int, max: int, mouse: int) -> bool {
    &&& max - min >= -1
    &&& fits(max - min)
    &&& fits(min + drag_zone(min, max))
    &&& fits(max - drag_zone(min, max) - 1)
    &&& fits(mouse - (min + drag_zone(min, max)))
    &&& fits(mouse - (max - drag_zone(min, max) - 1))
}

/// The arithmetic of a frame's mouse input stays in range (else it would
/// overflow, divide by zero or fail).
pub open spec fn textarea_mouse_fits(s: TextareaState, m: TextareaMouse, inner: Rect, margin: int, line_count: int) -> bool {
    if m.scroll_delta != (Point { x: 0, y: 0 }) && m.hovered {
        fits(s.scroll_offset.x + m.scroll_delta.x) && fits(s.scroll_offset.y + m.scroll_delta.y)
    } else if m.mouse_state != InputMouseState::Idle && s.has_focus {
        let text = text_rect(inner, margin, s.single_line);
        let track = track_rect(inner, margin, s.single_line);
        &&& fits(inner.left + margin)
        &&& fits(inner.right - 1)
        &&& fits(m.mouse_position.x - inner.left)
        &&& fits(m.mouse_position.x - inner.left - margin)
        &&& fits(m.mouse_position.x - inner.left - margin + s.scroll_offset.x)
        &&& fits(m.mouse_position.y - inner.top)
        &&& fits(m.mouse_position.y - inner.top + s.scroll_offset.y)
        &&& (text.spec_contains(m.mouse_down_position) && m.mouse_is_drag) ==> {
            &&& fits(inner.bottom - inner.top)
            &&& inner.bottom - inner.top >= 2 ==> {
                &&& speed_fits(text.left as int, text.right as int, m.mouse_position.x as int)
                &&& speed_fits(text.top as int, text.bottom as int, m.mouse_position.y as int)
                &&& fits(s.scroll_offset.x + spec_drag_scroll_speed(text.left as int, text.right as int, m.mouse_position.x as int))
                &&& fits(s.scroll_offset.y + spec_drag_scroll_speed(text.top as int, text.bottom as int, m.mouse_position.y as int))
            }
        }
        &&& (!text.spec_contains(m.mouse_down_position) && track.spec_contains(m.mouse_down_position)
            && m.mouse_state != InputMouseState::Release && m.mouse_is_drag) ==> {
            let scrollable = line_count - 1;
            let dy = m.mouse_position.y - m.mouse_down_position.y;
            let trackable = (inner.bottom - inner.top) - s.thumb_height;
            &&& fits(scrollable)
            &&& scrollable > 0 ==> {
                &&& fits(inner.bottom - inner.top)
                &&& fits(trackable)
                &&& trackable != 0
                &&& fits(dy)
                &&& fits64(dy * scrollable)
                &&& !(dy * scrollable == i64::MIN && trackable == -1)
                &&& fits(div_trunc(dy * scrollable, trackable))
                &&& fits(thumb_dragged_offset(s, m, inner, line_count))
            }
        }
    } else {
        true
    }
}

/// A step that does nothing.
pub open spec fn unmoved(s: TextareaState) -> TextareaMouseStep {
    TextareaMouseStep {
        state: s,
        action: TextareaMouseAction::Nothing,
        take_preferred_column: false,
        make_cursor_visible: false,
        consumed: false,
        to_keyboard: false,
        fast_repeat: false,
    }
}

/// A frame's mouse input in a text area with state `s`, inner rectangle
/// `inner` as last laid out, line number margin `margin` and `line_count`
/// lines as laid out:
/// - input already consumed (`input_consumed`) is left alone;
/// - the wheel over the area scrolls it by its delta;
/// - else, while a button is down, released or scrolling and the area has
///   the focus, the input is consumed and: where the press was on the text,
///   a drag extends the selection to the mouse and scrolls by
///   [`spec_drag_scroll_speed`] along each axis (in an area two or more
///   lines high); a quadruple, triple or double click selects everything,
///   the line or the word; a left press moves the cursor to the mouse, or
///   with Shift extends the selection to it; another button is left alone
///   (not consumed). Where the press was on the scrollbar's track, a release
///   ends a drag of the thumb and a drag scrolls by [`thumb_dragged_offset`];
/// - else the keyboard input is looked at, where the area has the focus.
pub open spec fn spec_textarea_mouse(
    s: TextareaState,
    m: TextareaMouse,
    inner: Rect,
    margin: int,
    line_count: int,
    input_consumed: bool,
) -> TextareaMouseStep {
    let idle = unmoved(s);
    if input_consumed {
        idle
    } else if m.scroll_delta != (Point { x: 0, y: 0 }) && m.hovered {
        TextareaMouseStep {
            state: TextareaState {
                scroll_offset: Point {
                    x: (s.scroll_offset.x + m.scroll_delta.x) as isize,
                    y: (s.scroll_offset.y + m.scroll_delta.y) as isize,
                },
                ..s
            },
            consumed: true,
            ..idle
        }
    } else if m.mouse_state != InputMouseState::Idle && s.has_focus {
        let text = text_rect(inner, margin, s.single_line);
        let track = track_rect(inner, margin, s.single_line);
        let pos = text_pos(s, m, inner, margin);
        let done = TextareaMouseStep { consumed: true, ..idle };
        if text.spec_contains(m.mouse_down_position) {
            if m.mouse_is_drag {
                let tall = inner.bottom - inner.top >= 2;
                let dx = if tall { spec_drag_scroll_speed(text.left as int, text.right as int, m.mouse_position.x as int) } else { 0 };
                let dy = if tall { spec_drag_scroll_speed(text.top as int, text.bottom as int, m.mouse_position.y as int) } else { 0 };
                TextareaMouseStep {
                    state: TextareaState {
                        scroll_offset: Point { x: (s.scroll_offset.x + dx) as isize, y: (s.scroll_offset.y + dy) as isize },
                        ..s
                    },
                    action: TextareaMouseAction::SelectTo(pos),
                    take_preferred_column: true,
                    fast_repeat: dx != 0 || dy != 0,
                    ..done
                }
            } else if m.click >= 5 {
                done
            } else if m.click == 4 {
                TextareaMouseStep { action: TextareaMouseAction::SelectAll, ..done }
            } else if m.click == 3 {
                TextareaMouseStep { action: TextareaMouseAction::SelectLine, ..done }
            } else if m.click == 2 {
                TextareaMouseStep { action: TextareaMouseAction::SelectWord, ..done }
            } else if m.mouse_state == InputMouseState::Left {
                TextareaMouseStep {
                    action: if m.shift { TextareaMouseAction::SelectTo(pos) } else { TextareaMouseAction::MoveTo(pos) },
                    take_preferred_column: true,
                    make_cursor_visible: true,
                    ..done
                }
            } else {
                idle
            }
        } else if track.spec_contains(m.mouse_down_position) {
            if m.mouse_state == InputMouseState::Release {
                TextareaMouseStep { state: TextareaState { scroll_offset_y_drag_start: isize::MIN, ..s }, ..done }
            } else if m.mouse_is_drag {
                TextareaMouseStep {
                    state: TextareaState {
                        scroll_offset: Point {
                            x: s.scroll_offset.x,
                            y: thumb_dragged_offset(s, m, inner, line_count) as isize,
                        },
                        scroll_offset_y_drag_start: thumb_drag_start(s) as isize,
                        ..s
                    },
                    ..done
                }
            } else {
                done
            }
        } else {
            done
        }
    } else {
        TextareaMouseStep { to_keyboard: s.has_focus, ..idle }
    }
}

/// Dragging the scrollbar's thumb and then back to where it was pressed
/// scrolls back to the offset the drag started from, however far the first
/// drag went (where there is more than one line; else nothing scrolls).
pub proof fn lemma_thumb_drag_back(
    s: TextareaState,
    m: TextareaMouse,
    inner: Rect,
    margin: int,
    line_count: int,
)
    requires
        s.has_focus,
        m.mouse_state == InputMouseState::Left,
        m.mouse_is_drag,
        !(m.scroll_delta != (Point { x: 0, y: 0 }) && m.hovered),
        !text_rect(inner, margin, s.single_line).spec_contains(m.mouse_down_position),
        track_rect(inner, margin, s.single_line).spec_contains(m.mouse_down_position),
        line_count > 1 ==> (inner.bottom - inner.top) - s.thumb_height != 0,
        thumb_drag_start(s) != isize::MIN,
    ensures
        ({
            let first = spec_textarea_mouse(s, m, inner, margin, line_count, false);
            let back = TextareaMouse { mouse_position: m.mouse_down_position, ..m };
            let second = spec_textarea_mouse(first.state, back, inner, margin, line_count, false);
            &&& second.consumed
            &&& second.state.scroll_offset.y == if line_count > 1 {
                thumb_drag_start(s)
            } else {
                s.scroll_offset.y as int
            }
        }),
{
    let first = spec_textarea_mouse(s, m, inner, margin, line_count, false);
    let back = TextareaMouse { mouse_position: m.mouse_down_position, ..m };
    if line_count > 1 {
        assert(div_trunc(0, (inner.bottom - inner.top) - s.thumb_height) == 0) by (nonlinear_arith)
            requires
                (inner.bottom - inner.top) - s.thumb_height != 0,
        {
        }
    }
    assert(back.mouse_position.y - back.mouse_down_position.y == 0);
    assert(0 * (line_count - 1) == 0) by (nonlinear_arith);
    assert(first.state.thumb_height == s.thumb_height);
    assert(first.state.scroll_offset_y_drag_start as int == thumb_drag_start(s));
    assert(thumb_drag_start(first.state) == thumb_drag_start(s));
    assert(thumb_dragged_offset(first.state, back, inner, line_count) == if line_count > 1 {
        thumb_drag_start(s)
    } else {
        first.state.scroll_offset.y as int
    });
}

/// The offset while dragging the thumb (see [`thumb_dragged_offset`]).
fn thumb_drag_offset(s: &TextareaState, m: &TextareaMouse, inner: Rect, line_count: CoordType) -> (r: CoordType)
    requires
        fits(line_count - 1),
        line_count - 1 > 0 ==> {
            let dy = m.mouse_position.y - m.mouse_down_position.y;
            let trackable = (inner.bottom - inner.top) - s.thumb_height;
            &&& fits(inner.bottom - inner.top)
            &&& fits(trackable)
            &&& trackable != 0
            &&& fits(dy)
            &&& fits64(dy * (line_count - 1))
            &&& !(dy * (line_count - 1) == i64::MIN && trackable == -1)
            &&& fits(div_trunc(dy * (line_count - 1), trackable))
            &&& fits(thumb_dragged_offset(*s, *m, inner, line_count as int))
        },
    ensures
        r == thumb_dragged_offset(*s, *m, inner, line_count as int),
{
    let scrollable = line_count - 1;
    if scrollable > 0 {
        let start: CoordType = if s.scroll_offset_y_drag_start == CoordType::MIN {
            s.scroll_offset.y
        } else {
            s.scroll_offset_y_drag_start
        };
        let trackable = (inner.bottom - inner.top) - s.thumb_height;
        let dy = m.mouse_position.y - m.mouse_down_position.y;
        let product: i64 = dy as i64 * scrollable as i64;
        let q = div_trunc_i64(product, trackable as i64);
        start + q as CoordType
    } else {
        s.scroll_offset.y
    }
}

/// Applies a frame's mouse input to a text area (see [`spec_textarea_mouse`]).
pub fn textarea_mouse_step(
    s: TextareaState,
    m: TextareaMouse,
    inner: Rect,
    margin: CoordType,
    line_count: CoordType,
    input_consumed: bool,
) -> (r: TextareaMouseStep)
    requires
        !input_consumed ==> textarea_mouse_fits(s, m, inner, margin as int, line_count as int),
    ensures
        r == spec_textarea_mouse(s, m, inner, margin as int, line_count as int, input_consumed),
{
    let idle = TextareaMouseStep {
        state: s,
        action: TextareaMouseAction::Nothing,
        take_preferred_column: false,
        make_cursor_visible: false,
        consumed: false,
        to_keyboard: false,
        fast_repeat: false,
    };
    if input_consumed {
        return idle;
    }
    if m.scroll_delta != (Point { x: 0, y: 0 }) && m.hovered {
        let mut state = s;
        state.scroll_offset.x = s.scroll_offset.x + m.scroll_delta.x;
        state.scroll_offset.y = s.scroll_offset.y + m.scroll_delta.y;
        return TextareaMouseStep { state, consumed: true, ..idle };
    }
    if m.mouse_state == InputMouseState::Idle || !s.has_focus {
        return TextareaMouseStep { to_keyboard: s.has_focus, ..idle };
    }
    let bar: CoordType = if s.single_line { 0 } else { 1 };
    let text = Rect { left: inner.left + margin, top: inner.top, right: inner.right - bar, bottom: inner.bottom };
    let track = Rect { left: text.right, top: inner.top, right: inner.right, bottom: inner.bottom };
    let pos = Point {
        x: m.mouse_position.x - inner.left - margin + s.scroll_offset.x,
        y: m.mouse_position.y - inner.top + s.scroll_offset.y,
    };
    let done = TextareaMouseStep { consumed: true, ..idle };
    if text.contains(m.mouse_down_position) {
        if m.mouse_is_drag {
            let height = inner.bottom - inner.top;
            let mut dx: CoordType = 0;
            let mut dy: CoordType = 0;
            if height >= 2 {
                dx = drag_scroll_speed(text.left, text.right, m.mouse_position.x);
                dy = drag_scroll_speed(text.top, text.bottom, m.mouse_position.y);
            }
            let mut state = s;
            state.scroll_offset.x = s.scroll_offset.x + dx;
            state.scroll_offset.y = s.scroll_offset.y + dy;
            TextareaMouseStep {
                state,
                action: TextareaMouseAction::SelectTo(pos),
                take_preferred_column: true,
                fast_repeat: dx != 0 || dy != 0,
                ..done
            }
        } else if m.click >= 5 {
            done
        } else if m.click == 4 {
            TextareaMouseStep { action: TextareaMouseAction::SelectAll, ..done }
        } else if m.click == 3 {
            TextareaMouseStep { action: TextareaMouseAction::SelectLine, ..done }
        } else if m.click == 2 {
            TextareaMouseStep { action: TextareaMouseAction::SelectWord, ..done }
        } else {
            match m.mouse_state {
                InputMouseState::Left => TextareaMouseStep {
                    action: if m.shift { TextareaMouseAction::SelectTo(pos) } else { TextareaMouseAction::MoveTo(pos) },
                    take_preferred_column: true,
                    make_cursor_visible: true,
                    ..done
                },
                _ => idle,
            }
        }
    } else if track.contains(m.mouse_down_position) {
        match m.mouse_state {
            InputMouseState::Release => {
                let mut state = s;
                state.scroll_offset_y_drag_start = CoordType::MIN;
                TextareaMouseStep { state, ..done }
            },
            _ => {
                if m.mouse_is_drag {
                    let y = thumb_drag_offset(&s, &m, inner, line_count);
                    let mut state = s;
                    if s.scroll_offset_y_drag_start == CoordType::MIN {
                        state.scroll_offset_y_drag_start = s.scroll_offset.y;
                    }
                    state.scroll_offset.y = y;
                    TextareaMouseStep { state, ..done }
                } else {
                    done
                }
            },
        }
    } else {
        done
    }
}

} // verus!
