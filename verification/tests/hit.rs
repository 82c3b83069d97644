use ze2::helpers::{Point, Rect};
use ze2::hit::{hit_test_roots, HitNode};

fn node(id: u64, r: (isize, isize, isize, isize), focusable: bool, children: Vec<HitNode>) -> HitNode {
    HitNode {
        id,
        outer_clipped: Rect { left: r.0, top: r.1, right: r.2, bottom: r.3 },
        focusable,
        modal: false,
        children,
    }
}

fn main_root() -> HitNode {
    node(
        1,
        (0, 0, 80, 24),
        false,
        vec![node(2, (0, 0, 40, 24), true, vec![node(3, (5, 5, 10, 10), false, vec![])]), node(4, (40, 0, 80, 24), false, vec![])],
    )
}

#[test]
fn the_deepest_node_under_the_mouse_is_hit() {
    let roots = vec![main_root(), node(9, (50, 5, 60, 10), true, vec![])];
    let (h, f) = hit_test_roots(&roots, Point { x: 7, y: 7 });
    assert_eq!(h, Some(vec![1, 2, 3]));
    assert_eq!(f, Some(vec![1, 2]));
    // The topmost window wins.
    let (h, f) = hit_test_roots(&roots, Point { x: 55, y: 6 });
    assert_eq!(h, Some(vec![9]));
    assert_eq!(f, Some(vec![9]));
    let (h, f) = hit_test_roots(&roots, Point { x: 60, y: 20 });
    assert_eq!(h, Some(vec![1, 4]));
    assert_eq!(f, None);
    assert_eq!(hit_test_roots(&roots, Point { x: 90, y: 0 }), (None, None));
}

#[test]
fn a_modal_window_takes_every_click() {
    let mut modal = node(9, (50, 5, 60, 10), true, vec![]);
    modal.modal = true;
    let roots = vec![main_root(), modal];
    assert_eq!(hit_test_roots(&roots, Point { x: 7, y: 7 }), (None, None));
}
