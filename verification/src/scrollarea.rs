//! Scrolling: a scroll area by the mouse wheel over it, by dragging its
//! scrollbar's thumb, and by Page Up, Page Down, Home and End while it holds
//! the focus; scroll areas around the focused node so that it shows; and a
//! text area's offset, which follows its cursor, stays in range, and moves
//! while a selection is dragged past its edges.

use vstd::prelude::*;
use crate::helpers::{CoordType, Point, Rect};
use crate::input::{vk, InputKey, InputMouseState};

verus! {

pub open spec fn abs(a: int) -> int {
    if a < 0 {
        -a
    } else {
        a
    }
}

/// Integer division rounding toward zero, as Rust's `/` on signed integers.
pub open spec fn div_trunc(a: int, b: int) -> int {
    let q = abs(a) / abs(b);
    if (a < 0) != (b < 0) {
        -q
    } else {
        q
    }
}

/// `a / b` on `i64`.
pub(crate) fn div_trunc_i64(a: i64, b: i64) -> (r: i64)
    requires
        b != 0,
        !(a == i64::MIN && b == -1),
    ensures
        r == div_trunc(a as int, b as int),
{
    let ua: u64 = if a < 0 { (0i128 - a as i128) as u64 } else { a as u64 };
    let ub: u64 = if b < 0 { (0i128 - b as i128) as u64 } else { b as u64 };
    let q: u64 = ua / ub;
    assert(q <= ua) by (nonlinear_arith)
        requires
            ub >= 1,
            q == ua / ub,
    ;
    if (a < 0) != (b < 0) {
        (0i128 - q as i128) as i64
    } else {
        assert(ub == 1 ==> q == ua) by (nonlinear_arith)
            requires
                q == ua / ub,
        ;
        assert(ub >= 2 ==> q <= ua / 2) by (nonlinear_arith)
            requires
                q == ua / ub,
        ;
        q as i64
    }
}


/// What a scroll area keeps between frames.
#[derive(Clone, Copy, Debug, PartialEq, Eq, Structural)]
pub struct ScrollState {
    pub scroll_offset: Point,
    /// The vertical offset when the current drag of the thumb began;
    /// `CoordType::MIN` while there is none.
    pub drag_start_y: CoordType,
    /// The height of the scrollbar's thumb, as last laid out.
    pub thumb_height: CoordType,
}

/// The input of a frame as a scroll area sees it.
#[derive(Clone, Copy, Debug, PartialEq, Eq, Structural)]
pub struct ScrollInput {
    /// The mouse wheel's scroll.
    pub scroll_delta: Point,
    /// The mouse was over the area, or something in it, last frame.
    pub hovered: bool,
    pub mouse_state: InputMouseState,
    pub mouse_is_drag: bool,
    pub mouse_down_position: Point,
    pub mouse_position: Point,
    /// The area, or something in it, holds the focus.
    pub focused: bool,
    pub keyboard: Option<InputKey>,
}

pub open spec fn fits(v: int) -> bool {
    isize::MIN <= v <= isize::MAX
}

pub open spec fn fits64(v: int) -> bool {
    i64::MIN <= v <= i64::MAX
}

/// The wheel scrolls an area the mouse is over.
pub open spec fn wheel(input: ScrollInput) -> bool {
    input.scroll_delta != Point { x: 0, y: 0 } && input.hovered
}

/// The left button was pressed on the scrollbar's track: the column right of
/// the area's inner rectangle.
pub open spec fn on_track(input: ScrollInput, inner: Rect) -> bool {
    input.mouse_down_position.x == inner.right && inner.top <= input.mouse_down_position.y < inner.bottom
}

/// The thumb is being dragged.
pub open spec fn dragging(input: ScrollInput, inner: Rect) -> bool {
    input.mouse_state == InputMouseState::Left && input.mouse_is_drag && on_track(input, inner)
}

/// The offset a drag started from.
pub open spec fn drag_start(sc: ScrollState) -> int {
    if sc.drag_start_y == isize::MIN {
        sc.scroll_offset.y as int
    } else {
        sc.drag_start_y as int
    }
}

/// The vertical offset while dragging the thumb: the start offset plus the
/// mouse's movement scaled from the track (less the thumb) to the part of
/// the content that does not fit (`content_height` less the track's height).
/// Unchanged where all the content fits.
pub open spec fn dragged_offset(sc: ScrollState, input: ScrollInput, inner: Rect, content_height: int) -> int {
    let track = inner.bottom - inner.top;
    let scrollable = content_height - track;
    if scrollable > 0 {
        drag_start(sc) + div_trunc(
            (input.mouse_position.y - input.mouse_down_position.y) * scrollable,
            track - sc.thumb_height,
        )
    } else {
        sc.scroll_offset.y as int
    }
}

/// The arithmetic of the frame's input stays in range (else it would overflow).
pub open spec fn scroll_fits(sc: ScrollState, input: ScrollInput, inner: Rect, page: int, content_height: int) -> bool {
    if wheel(input) {
        fits(sc.scroll_offset.x + input.scroll_delta.x) && fits(sc.scroll_offset.y + input.scroll_delta.y)
    } else if input.mouse_state != InputMouseState::Idle {
        dragging(input, inner) ==> {
            let track = inner.bottom - inner.top;
            let scrollable = content_height - track;
            let dy = input.mouse_position.y - input.mouse_down_position.y;
            &&& fits(track)
            &&& fits(scrollable)
            &&& scrollable > 0 ==> {
                &&& fits(track - sc.thumb_height)
                &&& track - sc.thumb_height != 0
                &&& fits(dy)
                &&& fits64(dy * scrollable)
                &&& !(dy * scrollable == i64::MIN && track - sc.thumb_height == -1)
                &&& fits(div_trunc(dy * scrollable, track - sc.thumb_height))
                &&& fits(dragged_offset(sc, input, inner, content_height))
            }
        }
    } else if input.focused && input.keyboard is Some {
        &&& input.keyboard == Some(vk::PRIOR) ==> fits(sc.scroll_offset.y - page)
        &&& input.keyboard == Some(vk::NEXT) ==> fits(sc.scroll_offset.y + page)
    } else {
        true
    }
}

/// A scroll area's state after the frame's unconsumed input, and whether it
/// consumed it: the wheel over the area scrolls by its delta; dragging the
/// thumb scrolls by [`dragged_offset`], and releasing the button ends the
/// drag; with the focus, Page Up and Page Down scroll by the visible height
/// (`page`), Home to the top and End to the bottom.
pub open spec fn spec_scroll(sc: ScrollState, input: ScrollInput, inner: Rect, page: int, content_height: int) -> (
    ScrollState,
    bool,
) {
    if wheel(input) {
        (
            ScrollState {
                scroll_offset: Point {
                    x: (sc.scroll_offset.x + input.scroll_delta.x) as isize,
                    y: (sc.scroll_offset.y + input.scroll_delta.y) as isize,
                },
                ..sc
            },
            true,
        )
    } else if input.mouse_state != InputMouseState::Idle {
        if dragging(input, inner) {
            (
                ScrollState {
                    scroll_offset: Point {
                        x: sc.scroll_offset.x,
                        y: dragged_offset(sc, input, inner, content_height) as isize,
                    },
                    drag_start_y: drag_start(sc) as isize,
                    thumb_height: sc.thumb_height,
                },
                true,
            )
        } else if input.mouse_state == InputMouseState::Release {
            (ScrollState { drag_start_y: isize::MIN, ..sc }, false)
        } else {
            (sc, false)
        }
    } else if input.focused && input.keyboard is Some {
        let k = input.keyboard->Some_0;
        let y = sc.scroll_offset.y;
        if k == vk::PRIOR {
            (ScrollState { scroll_offset: Point { x: sc.scroll_offset.x, y: (y - page) as isize }, ..sc }, true)
        } else if k == vk::NEXT {
            (ScrollState { scroll_offset: Point { x: sc.scroll_offset.x, y: (y + page) as isize }, ..sc }, true)
        } else if k == vk::END {
            (ScrollState { scroll_offset: Point { x: sc.scroll_offset.x, y: isize::MAX }, ..sc }, true)
        } else if k == vk::HOME {
            (ScrollState { scroll_offset: Point { x: sc.scroll_offset.x, y: 0 }, ..sc }, true)
        } else {
            (sc, false)
        }
    } else {
        (sc, false)
    }
}

/// The state a frame starts from: last frame's where the offset was never set.
pub open spec fn carried(sc: ScrollState, prev: Option<ScrollState>) -> ScrollState {
    match prev {
        Some(p) => if sc.scroll_offset == (Point { x: isize::MIN, y: isize::MIN }) {
            p
        } else {
            sc
        },
        None => sc,
    }
}

/// The offset while dragging the thumb (see [`dragged_offset`]).
fn drag_offset(sc: &ScrollState, input: &ScrollInput, inner: Rect, content_height: CoordType) -> (r: CoordType)
    requires
        dragging(*input, inner),
        scroll_fits(*sc, *input, inner, 0, content_height as int),
        input.mouse_state != InputMouseState::Idle,
        !wheel(*input),
    ensures
        r == dragged_offset(*sc, *input, inner, content_height as int),
{
    let track = inner.bottom - inner.top;
    let scrollable = content_height - track;
    if scrollable > 0 {
        let start: CoordType = if sc.drag_start_y == CoordType::MIN { sc.scroll_offset.y } else { sc.drag_start_y };
        let trackable = track - sc.thumb_height;
        let dy = input.mouse_position.y - input.mouse_down_position.y;
        let product: i64 = dy as i64 * scrollable as i64;
        let q = div_trunc_i64(product, trackable as i64);
        start + q as CoordType
    } else {
        sc.scroll_offset.y
    }
}

/// Applies a frame's input to a scroll area (see [`spec_scroll`]), after
/// taking over last frame's state (`prev`) where this frame's offset was
/// never set. Nothing happens to input already consumed (`input_consumed`).
/// `inner` is the area's inner rectangle as last laid out, `page` its visible
/// height and `content_height` the height of its content. Returns whether the
/// input is consumed now.
pub fn scrollarea_input(
    sc: &mut ScrollState,
    prev: Option<ScrollState>,
    input_consumed: bool,
    input: &ScrollInput,
    inner: Rect,
    page: CoordType,
    content_height: CoordType,
) -> (consumed: bool)
    requires
        !input_consumed ==> scroll_fits(carried(*old(sc), prev), *input, inner, page as int, content_height as int),
    ensures
        input_consumed ==> *final(sc) == carried(*old(sc), prev) && consumed,
        !input_consumed ==> (*final(sc), consumed) == spec_scroll(
            carried(*old(sc), prev),
            *input,
            inner,
            page as int,
            content_height as int,
        ),
{
    if sc.scroll_offset == (Point { x: CoordType::MIN, y: CoordType::MIN }) {
        if let Some(p) = prev {
            *sc = p;
        }
    }
    if input_consumed {
        return true;
    }
    if input.scroll_delta != (Point { x: 0, y: 0 }) && input.hovered {
        sc.scroll_offset.x = sc.scroll_offset.x + input.scroll_delta.x;
        sc.scroll_offset.y = sc.scroll_offset.y + input.scroll_delta.y;
        return true;
    }
    if input.mouse_state != InputMouseState::Idle {
        match input.mouse_state {
            InputMouseState::Left => {
                if input.mouse_is_drag && input.mouse_down_position.x == inner.right
                    && inner.top <= input.mouse_down_position.y && input.mouse_down_position.y < inner.bottom {
                    proof {
                        assert(scroll_fits(*sc, *input, inner, 0, content_height as int));
                    }
                    let y = drag_offset(sc, input, inner, content_height);
                    if sc.drag_start_y == CoordType::MIN {
                        sc.drag_start_y = sc.scroll_offset.y;
                    }
                    sc.scroll_offset.y = y;
                    return true;
                }
            },
            InputMouseState::Release => {
                sc.drag_start_y = CoordType::MIN;
            },
            _ => {},
        }
        return false;
    }
    if input.focused {
        if let Some(key) = input.keyboard {
            if key == vk::PRIOR {
                sc.scroll_offset.y = sc.scroll_offset.y - page;
            } else if key == vk::NEXT {
                sc.scroll_offset.y = sc.scroll_offset.y + page;
            } else if key == vk::END {
                sc.scroll_offset.y = CoordType::MAX;
            } else if key == vk::HOME {
                sc.scroll_offset.y = 0;
            } else {
                return false;
            }
            return true;
        }
    }
    false
}


pub open spec fn clamp_i(v: int, lo: int, hi: int) -> int {
    if v < lo {
        lo
    } else if v > hi {
        hi
    } else {
        v
    }
}

/// The scroll speeds next to and beyond a text area's edges, from far above
/// the top (or left) edge to far below the bottom (or right) one.
pub open spec fn drag_speeds() -> Seq<int> {
    seq![-9int, -3, -1, 0, 1, 3, 9]
}

/// The depth of the zones inside a text area's edges along one axis
/// (`min..max`): three cells, or half the area where that is less.
pub open spec fn drag_zone(min: int, max: int) -> int {
    if div_trunc(max - min, 2) < 3 {
        div_trunc(max - min, 2)
    } else {
        3
    }
}

/// How fast a text area scrolls along one axis while a selection is dragged
/// near or past its edges (`min..max` on that axis, the mouse at `mouse`):
/// within the zones inside each edge (see [`drag_zone`]) and beyond them it
/// scrolls by 1, 3 and 9 cells toward the edge the closer the mouse gets;
/// elsewhere it does not scroll.
pub open spec fn spec_drag_scroll_speed(min: int, max: int, mouse: int) -> int {
    let zone = drag_zone(min, max);
    let delta_min = clamp_i(mouse - (min + zone), -zone, 0);
    let delta_max = clamp_i(mouse - (max - zone - 1), 0, zone);
    drag_speeds()[3 + delta_min + delta_max]
}

/// The drag scroll speed along one axis (see [`spec_drag_scroll_speed`]).
pub fn drag_scroll_speed(min: CoordType, max: CoordType, mouse: CoordType) -> (r: CoordType)
    requires
        max - min >= -1,
        fits(max - min),
        fits(min + drag_zone(min as int, max as int)),
        fits(max - drag_zone(min as int, max as int) - 1),
        fits(mouse - (min + drag_zone(min as int, max as int))),
        fits(mouse - (max - drag_zone(min as int, max as int) - 1)),
    ensures
        r == spec_drag_scroll_speed(min as int, max as int, mouse as int),
{
    let d = max - min;
    let half: CoordType = if d >= 0 { d / 2 } else { 0 };
    assert(div_trunc(d as int, 2) == half) by (nonlinear_arith)
        requires
            d >= -1,
            half == (if d >= 0 { d / 2 } else { 0 }),
    ;
    let zone: CoordType = if half < 3 { half } else { 3 };
    let scroll_min = min + zone;
    let scroll_max = max - zone - 1;
    let a = mouse - scroll_min;
    let delta_min: CoordType = if a < -zone { -zone } else if a > 0 { 0 } else { a };
    let b = mouse - scroll_max;
    let delta_max: CoordType = if b < 0 { 0 } else if b > zone { zone } else { b };
    let idx: usize = (3 + delta_min + delta_max) as usize;
    let speeds: [CoordType; 7] = [-9, -3, -1, 0, 1, 3, 9];
    assert(speeds@ =~= drag_speeds().map_values(|v: int| v as isize));
    speeds[idx]
}


/// A node on the way from the focused node up to (not including) the root or
/// the first floating node: its scroll offset where it is a scroll area, and
/// its rectangles as last laid out.
#[derive(Clone, Copy, Debug, PartialEq, Eq, Structural)]
pub struct ScrollChainNode {
    pub scroll_offset_y: Option<CoordType>,
    pub inner: Rect,
    pub outer: Rect,
}

/// The vertical offset that brings `target` into view in a scroll area with
/// the inner rectangle `inner`, from the (non-negative part of the) offset
/// `offset`: the least change that shows its top, then its bottom.
pub open spec fn reveal_offset(offset: int, inner: Rect, target: Rect) -> int {
    let o = if offset > 0 {
        offset
    } else {
        0
    };
    let up = if o < target.top - inner.top + o {
        o
    } else {
        target.top - inner.top + o
    };
    if up > target.bottom - inner.bottom + o {
        up
    } else {
        target.bottom - inner.bottom + o
    }
}

/// The rectangle that node `i` of the chain has to bring into view: the
/// focused node's, or that of the nearest scroll area below it on the chain.
pub open spec fn reveal_target(chain: Seq<ScrollChainNode>, i: int) -> Rect
    decreases i,
{
    if i <= 0 {
        chain[0].outer
    } else if chain[i - 1].scroll_offset_y is Some {
        chain[i - 1].outer
    } else {
        reveal_target(chain, i - 1)
    }
}

/// Node `i` after scrolling the focused node into view.
pub open spec fn revealed(chain: Seq<ScrollChainNode>, i: int) -> ScrollChainNode {
    match chain[i].scroll_offset_y {
        Some(off) => ScrollChainNode {
            scroll_offset_y: Some(reveal_offset(off as int, chain[i].inner, reveal_target(chain, i)) as isize),
            ..chain[i]
        },
        None => chain[i],
    }
}

/// The arithmetic of revealing stays in range at every scroll area.
pub open spec fn reveal_fits(chain: Seq<ScrollChainNode>) -> bool {
    forall|i: int|
        0 <= i < chain.len() && #[trigger] chain[i].scroll_offset_y is Some ==> {
            let off = chain[i].scroll_offset_y->Some_0;
            let o = if off > 0 {
                off as int
            } else {
                0
            };
            let t = reveal_target(chain, i);
            &&& fits(t.top - chain[i].inner.top)
            &&& fits(t.top - chain[i].inner.top + o)
            &&& fits(t.bottom - chain[i].inner.bottom)
            &&& fits(t.bottom - chain[i].inner.bottom + o)
        }
}

/// Scrolls every scroll area on the chain from the focused node (first) up
/// so that the focused node comes into view: each area reveals the focused
/// node or the nearest area below it (see [`reveal_offset`]).
pub fn scroll_to_focused(chain: &mut Vec<ScrollChainNode>)
    requires
        reveal_fits(old(chain)@),
    ensures
        final(chain)@.len() == old(chain)@.len(),
        forall|i: int| 0 <= i < old(chain)@.len() ==> final(chain)@[i] == revealed(old(chain)@, i),
{
    let ghost c = chain@;
    let n = chain.len();
    if n == 0 {
        return;
    }
    let mut target = chain[0].outer;
    let mut i: usize = 0;
    while i < n
        invariant
            n == c.len(),
            chain@.len() == n,
            i <= n,
            reveal_fits(c),
            i < n ==> target == reveal_target(c, i as int),
            forall|j: int| 0 <= j < i ==> chain@[j] == revealed(c, j),
            forall|j: int| i <= j < n ==> chain@[j] == c[j],
        decreases n - i,
    {
        let node = chain[i];
        if let Some(off) = node.scroll_offset_y {
            assert(c[i as int].scroll_offset_y is Some);
            let o: CoordType = if off > 0 { off } else { 0 };
            let a = target.top - node.inner.top + o;
            let up: CoordType = if o < a { o } else { a };
            let b = target.bottom - node.inner.bottom + o;
            let y: CoordType = if up > b { up } else { b };
            chain.set(i, ScrollChainNode { scroll_offset_y: Some(y), ..node });
            target = node.outer;
        }
        i += 1;
    }
}


pub open spec fn min_int(a: int, b: int) -> int {
    if a < b {
        a
    } else {
        b
    }
}

pub open spec fn max_int(a: int, b: int) -> int {
    if a > b {
        a
    } else {
        b
    }
}

/// A text area's scroll offset that shows its cursor (at `cursor`): at least
/// 10 columns of room on either side of it within the text's width
/// (`text_width`), and the cursor's line within the visible height
/// (`viewport_height`); the least change to the offset that does so.
pub open spec fn spec_cursor_scroll(scroll: Point, cursor: Point, text_width: int, viewport_height: int) -> Point {
    Point {
        x: max_int(min_int(scroll.x as int, cursor.x - 10), cursor.x - text_width + 10) as isize,
        y: max_int(min_int(scroll.y as int, cursor.y as int), cursor.y - viewport_height + 1) as isize,
    }
}

/// The scroll offset that makes a text area's cursor visible (see
/// [`spec_cursor_scroll`]).
pub fn textarea_cursor_scroll(scroll: Point, cursor: Point, text_width: CoordType, viewport_height: CoordType) -> (r:
    Point)
    requires
        fits(cursor.x - 10),
        fits(cursor.x - text_width),
        fits(cursor.x - text_width + 10),
        fits(cursor.y - viewport_height),
        fits(cursor.y - viewport_height + 1),
    ensures
        r == spec_cursor_scroll(scroll, cursor, text_width as int, viewport_height as int),
{
    let mut x = scroll.x;
    if cursor.x - 10 < x {
        x = cursor.x - 10;
    }
    let right = cursor.x - text_width + 10;
    if right > x {
        x = right;
    }
    let mut y = scroll.y;
    if cursor.y < y {
        y = cursor.y;
    }
    let bottom = cursor.y - viewport_height + 1;
    if bottom > y {
        y = bottom;
    }
    Point { x, y }
}

/// A text area's scroll offset kept in range: horizontally at most 10
/// columns short of the widest of the last frame's maximum (`scroll_x_max`)
/// and the cursor's column, and not below 0 (always 0 with word wrap);
/// vertically between the first and the last of its `line_count` lines.
pub open spec fn spec_clamp_scroll(scroll: Point, scroll_x_max: int, cursor_x: int, line_count: int, word_wrap: bool) -> Point {
    Point {
        x: if word_wrap {
            0
        } else {
            max_int(min_int(scroll.x as int, max_int(scroll_x_max, cursor_x) - 10), 0) as isize
        },
        y: max_int(min_int(scroll.y as int, line_count - 1), 0) as isize,
    }
}

/// A text area's scroll offset kept in range (see [`spec_clamp_scroll`]).
pub fn textarea_clamp_scroll(
    scroll: Point,
    scroll_x_max: CoordType,
    cursor_x: CoordType,
    line_count: CoordType,
    word_wrap: bool,
) -> (r: Point)
    requires
        line_count >= 1,
        fits(max_int(scroll_x_max as int, cursor_x as int) - 10),
    ensures
        r == spec_clamp_scroll(scroll, scroll_x_max as int, cursor_x as int, line_count as int, word_wrap),
{
    let widest = if scroll_x_max > cursor_x { scroll_x_max } else { cursor_x };
    let mut x = scroll.x;
    if widest - 10 < x {
        x = widest - 10;
    }
    if x < 0 {
        x = 0;
    }
    let mut y = scroll.y;
    if y > line_count - 1 {
        y = line_count - 1;
    }
    if y < 0 {
        y = 0;
    }
    if word_wrap {
        x = 0;
    }
    Point { x, y }
}


/// What a text area keeps from frame to frame, beside its text.
#[derive(Clone, Copy, Debug, PartialEq, Eq, Structural)]
pub struct TextareaState {
    pub scroll_offset: Point,
    /// The vertical offset when the current drag of the scrollbar's thumb
    /// began; `CoordType::MIN` while there is none.
    pub scroll_offset_y_drag_start: CoordType,
    /// The widest horizontal offset the text needs.
    pub scroll_offset_x_max: CoordType,
    pub thumb_height: CoordType,
    /// The column the cursor keeps to when moving up and down.
    pub preferred_column: CoordType,
    /// An input line rather than a text area.
    pub single_line: bool,
    pub has_focus: bool,
}

/// A text area's state at the start of a frame: last frame's scroll offset,
/// thumb drag, widest offset, thumb height and preferred column where it was
/// drawn last frame (`prev`), else none scrolled and nothing dragged; and the
/// width its text is laid out in, where it was drawn before: last frame's inner
/// width (`prev_inner_width`), less the scrollbar's column for a text area.
pub open spec fn spec_textarea_carry(
    prev: Option<TextareaState>,
    single_line: bool,
    has_focus: bool,
    prev_inner_width: int,
) -> (TextareaState, Option<int>) {
    match prev {
        Some(p) => (
            TextareaState { single_line, has_focus, ..p },
            Some(
                if single_line {
                    prev_inner_width
                } else {
                    prev_inner_width - 1
                },
            ),
        ),
        None => (
            TextareaState {
                scroll_offset: Point { x: 0, y: 0 },
                scroll_offset_y_drag_start: isize::MIN,
                scroll_offset_x_max: 0,
                thumb_height: 0,
                preferred_column: 0,
                single_line,
                has_focus,
            },
            None,
        ),
    }
}

/// A text area's state at the start of a frame, and the width to lay its
/// text out in (see [`spec_textarea_carry`]); a new width makes the editor
/// reflow the text and bring the cursor into view.
pub fn textarea_carry_state(
    prev: Option<TextareaState>,
    single_line: bool,
    has_focus: bool,
    prev_inner_width: CoordType,
) -> (r: (TextareaState, Option<CoordType>))
    requires
        prev is Some && !single_line ==> prev_inner_width > isize::MIN,
    ensures
        (r.0, match r.1 {
            Some(w) => Some(w as int),
            None => None,
        }) == spec_textarea_carry(prev, single_line, has_focus, prev_inner_width as int),
{
    match prev {
        Some(p) => {
            let width = if single_line { prev_inner_width } else { prev_inner_width - 1 };
            (TextareaState { single_line, has_focus, ..p }, Some(width))
        },
        None => (
            TextareaState {
                scroll_offset: Point { x: 0, y: 0 },
                scroll_offset_y_drag_start: CoordType::MIN,
                scroll_offset_x_max: 0,
                thumb_height: 0,
                preferred_column: 0,
                single_line,
                has_focus,
            },
            None,
        ),
    }
}

} // verus!
