//! Mouse tracking of the immediate-mode UI: presses, releases, drags and
//! scrolls become the frame's mouse input, and presses on the same target
//! in quick succession count up as double, triple, ... clicks.

use vstd::prelude::*;
use crate::helpers::{CoordType, Point};
use crate::input::{InputKeyMod, InputMouse, InputMouseState};

verus! {

/// The point no mouse event has.
pub open spec fn point_min() -> Point {
    Point { x: isize::MIN, y: isize::MIN }
}

/// How long (in milliseconds) after a release a press still counts towards
/// a multi-click.
pub const MULTI_CLICK_MS: u64 = 500;

/// What the mouse did, as seen by the widgets of one frame.
#[derive(Clone, Copy, Debug, PartialEq, Eq, Structural)]
pub struct MouseInput {
    /// 0, or which click this is (1 for a click, 2 for a double-click, ...).
    pub click: CoordType,
    pub modifiers: InputKeyMod,
    pub scroll_delta: Point,
    /// A left press moved the focus to the pressed target.
    pub refocus: bool,
}

/// The mouse state kept from frame to frame.
pub struct MouseTracker {
    pub state: InputMouseState,
    pub position: Point,
    pub down_position: Point,
    /// The ids of the nodes from the root to the one pressed.
    pub down_node_path: Vec<u64>,
    /// The ids of the nodes from the root to the one under the mouse.
    pub hover_node_path: Vec<u64>,
    /// The focusable node a left press went to (0: none).
    pub left_down_target: u64,
    pub click_counter: CoordType,
    pub first_click_position: Point,
    pub first_click_target: u64,
    /// When the button was last released, in milliseconds.
    pub up_timestamp: u64,
    pub is_drag: bool,
}

/// Whether `s` is one of the states that last a single frame.
pub open spec fn is_transient(s: InputMouseState) -> bool {
    s == InputMouseState::Release || s == InputMouseState::Scroll
}

impl MouseTracker {
    /// No button held, no clicks counted; `now_ms` is the current time.
    pub fn new(now_ms: u64) -> (t: MouseTracker)
        ensures
            t.state == InputMouseState::Idle,
            t.position == point_min(),
            t.down_position == point_min(),
            t.down_node_path@.len() == 0,
            t.hover_node_path@.len() == 0,
            t.left_down_target == 0,
            t.click_counter == 0,
            t.first_click_position == point_min(),
            t.first_click_target == 0,
            t.up_timestamp == now_ms,
            !t.is_drag,
    {
        MouseTracker {
            state: InputMouseState::Idle,
            position: Point { x: isize::MIN, y: isize::MIN },
            down_position: Point { x: isize::MIN, y: isize::MIN },
            down_node_path: Vec::new(),
            hover_node_path: Vec::new(),
            left_down_target: 0,
            click_counter: 0,
            first_click_position: Point { x: isize::MIN, y: isize::MIN },
            first_click_target: 0,
            up_timestamp: now_ms,
            is_drag: false,
        }
    }

    /// At the start of a frame, a release or scroll of the last frame is over:
    /// the press is forgotten and the mouse is idle again.
    pub fn begin_frame(&mut self)
        ensures
            is_transient(old(self).state) ==> {
                &&& final(self).down_position == point_min()
                &&& final(self).down_node_path@.len() == 0
                &&& final(self).left_down_target == 0
                &&& final(self).state == InputMouseState::Idle
                &&& !final(self).is_drag
                &&& final(self).position == old(self).position
                &&& final(self).hover_node_path == old(self).hover_node_path
                &&& final(self).click_counter == old(self).click_counter
                &&& final(self).first_click_position == old(self).first_click_position
                &&& final(self).first_click_target == old(self).first_click_target
                &&& final(self).up_timestamp == old(self).up_timestamp
            },
            !is_transient(old(self).state) ==> *final(self) == *old(self),
    {
        if self.state == InputMouseState::Release || self.state == InputMouseState::Scroll {
            self.down_position = Point { x: isize::MIN, y: isize::MIN };
            self.down_node_path.clear();
            self.left_down_target = 0;
            self.state = InputMouseState::Idle;
            self.is_drag = false;
        }
    }

    /// Handles a mouse event. `hover_path` leads to the node under the mouse,
    /// `target` is the focusable node under it (0: none) and `now_ms` the
    /// current time. A scroll keeps the button state; moving with the left
    /// button held is a drag; a press records where and on what it happened
    /// and, within the multi-click time on the same target and position as
    /// the first click, counts another click; a release becomes a click if
    /// the left press was on the same target and no click was counted yet.
    pub fn on_mouse(&mut self, mouse: InputMouse, hover_path: Vec<u64>, target: u64, now_ms: u64) -> (r:
        MouseInput)
        requires
            old(self).click_counter < isize::MAX,
        ensures
            ({
                let o = *old(self);
                let f = *final(self);
                let next = mouse.state;
                let scroll = mouse.scroll != Point { x: 0, y: 0 };
                let drag = o.state == InputMouseState::Left && next == InputMouseState::Left
                    && mouse.position != o.position;
                let down = o.state == InputMouseState::Idle && next != InputMouseState::Idle;
                let up = o.state != InputMouseState::Idle && next == InputMouseState::Idle;
                let press = !scroll && !drag && down;
                let release = !scroll && !drag && !down && up;
                let down_target = if next == InputMouseState::Left { target } else { 0 };
                let slow = now_ms >= o.up_timestamp && now_ms - o.up_timestamp > MULTI_CLICK_MS;
                let restart = o.first_click_target != down_target || o.first_click_position
                    != mouse.position || slow;
                &&& f.hover_node_path@ == hover_path@
                &&& f.position == mouse.position
                &&& f.state == if scroll {
                    o.state
                } else if release {
                    InputMouseState::Release
                } else {
                    next
                }
                &&& f.is_drag == (o.is_drag || (!scroll && drag))
                &&& r.modifiers == mouse.modifiers
                &&& r.scroll_delta == mouse.scroll
                &&& r.refocus == (press && next == InputMouseState::Left)
                &&& press ==> {
                    &&& f.down_node_path@ == hover_path@
                    &&& f.left_down_target == down_target
                    &&& f.down_position == mouse.position
                    &&& f.up_timestamp == o.up_timestamp
                    &&& if o.click_counter == 0 {
                        &&& r.click == 0
                        &&& f.click_counter == 0
                        &&& f.first_click_position == o.first_click_position
                        &&& f.first_click_target == o.first_click_target
                    } else if restart {
                        &&& r.click == 0
                        &&& f.click_counter == 0
                        &&& f.first_click_position == point_min()
                        &&& f.first_click_target == 0
                    } else {
                        &&& r.click == o.click_counter + 1
                        &&& f.click_counter == o.click_counter + 1
                        &&& f.first_click_position == o.first_click_position
                        &&& f.first_click_target == o.first_click_target
                    }
                }
                &&& release ==> {
                    &&& f.down_node_path == o.down_node_path
                    &&& f.left_down_target == o.left_down_target
                    &&& f.down_position == o.down_position
                    &&& f.up_timestamp == now_ms
                    &&& if o.left_down_target == 0 || o.left_down_target != target {
                        &&& r.click == 0
                        &&& f.click_counter == 0
                        &&& f.first_click_position == point_min()
                        &&& f.first_click_target == 0
                    } else if o.click_counter == 0 {
                        &&& r.click == 1
                        &&& f.click_counter == 1
                        &&& f.first_click_position == o.down_position
                        &&& f.first_click_target == target
                    } else {
                        &&& r.click == 0
                        &&& f.click_counter == o.click_counter
                        &&& f.first_click_position == o.first_click_position
                        &&& f.first_click_target == o.first_click_target
                    }
                }
                &&& !press && !release ==> {
                    &&& r.click == 0
                    &&& f.down_node_path == o.down_node_path
                    &&& f.left_down_target == o.left_down_target
                    &&& f.down_position == o.down_position
                    &&& f.up_timestamp == o.up_timestamp
                    &&& f.click_counter == o.click_counter
                    &&& f.first_click_position == o.first_click_position
                    &&& f.first_click_target == o.first_click_target
                }
            }),
    {
        let mut next_state = mouse.state;
        let next_position = mouse.position;
        let next_scroll = mouse.scroll;
        let mouse_down = self.state == InputMouseState::Idle && next_state != InputMouseState::Idle;
        let mouse_up = self.state != InputMouseState::Idle && next_state == InputMouseState::Idle;
        let is_scroll = next_scroll != Point { x: 0, y: 0 };
        let is_drag = self.state == InputMouseState::Left && next_state == InputMouseState::Left
            && next_position != self.position;
        let mut click: CoordType = 0;
        let mut refocus = false;

        self.hover_node_path = hover_path;

        if is_scroll {
            next_state = self.state;
        } else if is_drag {
            self.is_drag = true;
        } else if mouse_down {
            self.down_node_path = self.hover_node_path.clone();
            let mut down_target: u64 = 0;
            if next_state == InputMouseState::Left {
                down_target = target;
                refocus = true;
            }
            if self.click_counter != 0 {
                let slow = now_ms >= self.up_timestamp && now_ms - self.up_timestamp > MULTI_CLICK_MS;
                if self.first_click_target != down_target || self.first_click_position != next_position
                    || slow {
                    self.click_counter = 0;
                    self.first_click_position = Point { x: isize::MIN, y: isize::MIN };
                    self.first_click_target = 0;
                } else {
                    self.click_counter = self.click_counter + 1;
                    click = self.click_counter;
                }
            }
            self.left_down_target = down_target;
            self.down_position = next_position;
        } else if mouse_up {
            next_state = InputMouseState::Release;
            if self.left_down_target == 0 || self.left_down_target != target {
                self.click_counter = 0;
                self.first_click_position = Point { x: isize::MIN, y: isize::MIN };
                self.first_click_target = 0;
            } else if self.click_counter == 0 {
                self.click_counter = 1;
                self.first_click_position = self.down_position;
                self.first_click_target = target;
                click = 1;
            }
            self.up_timestamp = now_ms;
        }

        self.position = next_position;
        self.state = next_state;
        MouseInput { click, modifiers: mouse.modifiers, scroll_delta: next_scroll, refocus }
    }
}

} // verus!
