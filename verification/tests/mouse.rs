use ze2::helpers::Point;
use ze2::input::{InputMouse, InputMouseState};
use ze2::mouse::MouseTracker;

fn ev(state: InputMouseState, x: isize, y: isize) -> InputMouse {
    InputMouse { state, modifiers: 0, position: Point { x, y }, scroll: Point { x: 0, y: 0 }, drag: false }
}

#[test]
fn press_and_release_make_clicks() {
    let mut t = MouseTracker::new(0);
    let r = t.on_mouse(ev(InputMouseState::Left, 5, 5), vec![1, 7], 7, 10);
    assert_eq!(r.click, 0);
    assert!(r.refocus);
    assert_eq!(t.left_down_target, 7);
    assert_eq!(t.down_node_path, vec![1, 7]);

    let r = t.on_mouse(ev(InputMouseState::Idle, 5, 5), vec![1, 7], 7, 20);
    assert_eq!(r.click, 1);
    assert_eq!(t.state, InputMouseState::Release);
    t.begin_frame();
    assert_eq!(t.state, InputMouseState::Idle);
    assert_eq!(t.left_down_target, 0);

    // A quick second press at the same place is a double-click.
    let r = t.on_mouse(ev(InputMouseState::Left, 5, 5), vec![1, 7], 7, 100);
    assert_eq!(r.click, 2);
    let r = t.on_mouse(ev(InputMouseState::Idle, 5, 5), vec![1, 7], 7, 120);
    assert_eq!(r.click, 0);
    t.begin_frame();

    // A slow third press starts over.
    let r = t.on_mouse(ev(InputMouseState::Left, 5, 5), vec![1, 7], 7, 1000);
    assert_eq!(r.click, 0);
    assert_eq!(t.click_counter, 0);
}

#[test]
fn drags_scrolls_and_other_targets() {
    let mut t = MouseTracker::new(0);
    t.on_mouse(ev(InputMouseState::Left, 1, 1), vec![], 3, 0);
    t.on_mouse(ev(InputMouseState::Left, 2, 1), vec![], 3, 5);
    assert!(t.is_drag);
    let mut scroll = ev(InputMouseState::Idle, 2, 1);
    scroll.scroll = Point { x: 0, y: 3 };
    let r = t.on_mouse(scroll, vec![], 3, 6);
    assert_eq!(r.scroll_delta, Point { x: 0, y: 3 });
    assert_eq!(t.state, InputMouseState::Left);
    // Released over another target: no click.
    let r = t.on_mouse(ev(InputMouseState::Idle, 2, 1), vec![], 4, 7);
    assert_eq!(r.click, 0);
    assert_eq!(t.click_counter, 0);
    // A right press does not move the focus.
    t.begin_frame();
    let r = t.on_mouse(ev(InputMouseState::Right, 2, 1), vec![], 4, 8);
    assert!(!r.refocus);
    assert_eq!(t.left_down_target, 0);
}
