use ze2::helpers::{Point, Rect};
use ze2::oklab::StraightRgba;
use ze2::render::{node_draw_ops, BoxRow, DrawOp, NodeContentView, NodeView};

fn rect(left: isize, top: isize, right: isize, bottom: isize) -> Rect {
    Rect { left, top, right, bottom }
}

fn node(content: NodeContentView) -> NodeView {
    NodeView {
        outer: rect(0, 0, 6, 4),
        outer_clipped: rect(0, 0, 6, 4),
        inner: rect(1, 1, 5, 3),
        inner_clipped: rect(1, 1, 5, 3),
        bordered: false,
        floating: false,
        reverse: false,
        bg: StraightRgba(0x112233ff),
        fg: StraightRgba(0x445566ff),
        content,
    }
}

const SCREEN: Rect = Rect { left: 0, top: 0, right: 80, bottom: 25 };
const DIM: StraightRgba = StraightRgba(0x0000007f);

#[test]
fn modal_dialog_has_border_dimmed_backdrop_and_title() {
    let mut n = node(NodeContentView::Modal { has_title: true });
    n.bordered = true;
    n.floating = true;
    let oc = n.outer_clipped;
    let ops = node_draw_ops(&n, SCREEN, DIM);
    let row = |y: isize, row: BoxRow| DrawOp::Row { y, left: 0, right: 6, row };
    assert_eq!(
        ops,
        vec![
            row(0, BoxRow::Top),
            row(1, BoxRow::Middle),
            row(2, BoxRow::Middle),
            row(3, BoxRow::Bottom),
            DrawOp::ClearAttributes(oc),
            DrawOp::BlendBg(SCREEN, DIM),
            DrawOp::BlendFg(SCREEN, DIM),
            DrawOp::BlendBg(oc, n.bg),
            DrawOp::BlendFg(oc, n.fg),
            DrawOp::Title { y: 0, left: 2, right: 5 },
        ]
    );
}

#[test]
fn floating_node_without_border_blanks_its_rows() {
    let mut n = node(NodeContentView::Other);
    n.floating = true;
    n.reverse = true;
    let oc = n.outer_clipped;
    let ops = node_draw_ops(&n, SCREEN, DIM);
    assert_eq!(ops.len(), 4 + 1 + 2 + 1);
    for y in 0..4 {
        assert_eq!(ops[y as usize], DrawOp::Row { y, left: 0, right: 6, row: BoxRow::Blank });
    }
    assert_eq!(ops[4], DrawOp::ClearAttributes(oc));
    assert_eq!(ops[7], DrawOp::Reverse(oc));
}

#[test]
fn text_area_draws_text_eof_marker_and_scrollbar() {
    let mut n = node(NodeContentView::Textarea {
        single_line: false,
        scroll_offset: Point { x: 0, y: 0 },
        line_count: 1,
        margin: 0,
    });
    n.inner = rect(0, 0, 10, 5);
    n.inner_clipped = rect(0, 0, 10, 5);
    let ops = node_draw_ops(&n, SCREEN, DIM);
    let dest = rect(0, 0, 9, 5);
    assert_eq!(
        ops[2..].to_vec(),
        vec![
            DrawOp::TextareaText { dest, scroll_offset: Point { x: 0, y: 0 } },
            DrawOp::EofMarker { y: 1, left: 0, right: 9 },
            DrawOp::Scrollbar { container: rect(0, 0, 10, 5), track: rect(9, 0, 10, 5), offset: 0, content_height: 5 },
        ]
    );
}

#[test]
fn input_line_and_clipped_nodes() {
    let n = node(NodeContentView::Textarea {
        single_line: true,
        scroll_offset: Point { x: 0, y: 0 },
        line_count: 1,
        margin: 0,
    });
    let ops = node_draw_ops(&n, SCREEN, DIM);
    assert_eq!(ops.len(), 3);
    assert_eq!(ops[2], DrawOp::TextareaText { dest: rect(1, 1, 5, 3), scroll_offset: Point { x: 0, y: 0 } });
    let mut hidden = node(NodeContentView::Text);
    hidden.outer_clipped = rect(3, 3, 3, 3);
    assert!(node_draw_ops(&hidden, SCREEN, DIM).is_empty());
    let mut no_inner = node(NodeContentView::Text);
    no_inner.inner_clipped = rect(1, 1, 1, 3);
    assert_eq!(node_draw_ops(&no_inner, SCREEN, DIM).len(), 2);
    let sa = node(NodeContentView::Scrollarea { scroll_y: 4, content_height: 20 });
    assert_eq!(
        node_draw_ops(&sa, SCREEN, DIM)[2],
        DrawOp::Scrollbar { container: rect(0, 0, 6, 4), track: rect(5, 1, 6, 3), offset: 4, content_height: 20 }
    );
}
