use ze2::helpers::{Point, Rect, Size};
use ze2::layout::{LayoutContent, LayoutNode};
use ze2::tui::Position;

fn node(width: isize, height: isize, set: bool, children: Vec<LayoutNode>) -> LayoutNode {
    LayoutNode {
        position: Position::Stretch,
        padding: Rect::default(),
        bordered: false,
        content: LayoutContent::Block,
        intrinsic_size: Size { width, height },
        intrinsic_size_set: set,
        children,
        outer: Rect::default(),
        inner: Rect::default(),
        outer_clipped: Rect::default(),
        inner_clipped: Rect::default(),
    }
}

fn rect(left: isize, top: isize, right: isize, bottom: isize) -> Rect {
    Rect { left, top, right, bottom }
}

#[test]
fn blocks_stack_their_children() {
    let a = node(3, 1, true, vec![]);
    let mut b = node(5, 2, true, vec![]);
    b.bordered = true;
    b.position = Position::Center;
    let mut root = node(0, 0, false, vec![a, b]);
    root.padding = rect(1, 0, 1, 0);

    root.compute_intrinsic_size();
    assert_eq!(root.intrinsic_size, Size { width: 7, height: 5 });
    assert!(root.intrinsic_size_set);
    assert_eq!(root.intrinsic_to_outer(), Size { width: 9, height: 5 });

    root.layout_root(rect(0, 0, 20, 10));
    assert_eq!(root.inner, rect(1, 0, 19, 10));
    assert_eq!(root.children[0].outer, rect(1, 0, 19, 1));
    assert_eq!(root.children[1].outer, rect(6, 1, 13, 5));
    assert_eq!(root.children[1].inner, rect(7, 2, 12, 4));
    assert_eq!(root.children[1].inner_clipped, rect(7, 2, 12, 4));
}

#[test]
fn a_preset_size_is_kept() {
    let mut root = node(42, 7, true, vec![node(3, 1, true, vec![])]);
    root.compute_intrinsic_size();
    assert_eq!(root.intrinsic_size, Size { width: 42, height: 7 });
}

#[test]
fn tables_put_cells_in_columns() {
    let row1 = node(0, 0, false, vec![node(2, 1, true, vec![]), node(4, 1, true, vec![])]);
    let row2 = node(0, 0, false, vec![node(3, 2, true, vec![])]);
    let mut table = node(0, 0, false, vec![row1, row2]);
    table.content = LayoutContent::Table { columns: Vec::new(), cell_gap: Size { width: 1, height: 0 } };

    table.compute_intrinsic_size();
    match &table.content {
        LayoutContent::Table { columns, .. } => assert_eq!(columns, &vec![3, 4]),
        _ => panic!("not a table"),
    }
    assert_eq!(table.children[0].intrinsic_size, Size { width: 8, height: 1 });
    assert_eq!(table.children[1].intrinsic_size, Size { width: 8, height: 2 });
    assert_eq!(table.intrinsic_size, Size { width: 8, height: 3 });

    table.layout_root(rect(0, 0, 20, 10));
    assert_eq!(table.children[0].outer, rect(0, 0, 20, 1));
    assert_eq!(table.children[0].children[0].outer, rect(0, 0, 3, 1));
    assert_eq!(table.children[0].children[1].outer, rect(4, 0, 8, 1));
    assert_eq!(table.children[1].outer, rect(0, 1, 20, 3));
    assert_eq!(table.children[1].children[0].outer, rect(0, 1, 3, 3));
}

#[test]
fn scroll_areas_clamp_the_offset() {
    let content = node(10, 30, true, vec![]);
    let mut area = node(0, 0, false, vec![content]);
    area.content = LayoutContent::Scrollarea { scroll_offset: Point { x: 3, y: 100 } };

    area.layout_root(rect(0, 0, 10, 5));
    assert_eq!(area.inner, rect(0, 0, 9, 5));
    match &area.content {
        LayoutContent::Scrollarea { scroll_offset } => assert_eq!(*scroll_offset, Point { x: 0, y: 25 }),
        _ => panic!("not a scroll area"),
    }
    assert_eq!(area.children[0].outer, rect(0, -25, 9, 5));
    assert_eq!(area.children[0].outer_clipped, rect(0, 0, 9, 5));
}
