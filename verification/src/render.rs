//! How a node of the UI tree is drawn: the drawing operations, in order,
//! that put its border, the background of a floating node, its colors and
//! its content onto the frame. The node's children are drawn after it.

use vstd::prelude::*;
use crate::helpers::{CoordType, Point, Rect};
use crate::oklab::StraightRgba;
use crate::scrollarea::fits;

verus! {

/// A row of a box: its top, a row between, its bottom, or blank.
#[derive(Clone, Copy, Debug, PartialEq, Eq, Structural)]
pub enum BoxRow {
    /// `┌──┐`
    Top,
    /// `│  │`
    Middle,
    /// `└──┘`
    Bottom,
    /// Spaces only.
    Blank,
}

/// What a node holds, as far as drawing it goes.
#[derive(Clone, Copy, Debug, PartialEq, Eq, Structural)]
pub enum NodeContentView {
    Other,
    /// A modal dialog, with or without a title.
    Modal { has_title: bool },
    /// Styled text.
    Text,
    /// A text area or an input line: its scroll offset, its lines as laid
    /// out and the width of its line number margin.
    Textarea { single_line: bool, scroll_offset: Point, line_count: CoordType, margin: CoordType },
    /// A scroll area: its vertical offset and the height of its content.
    Scrollarea { scroll_y: CoordType, content_height: CoordType },
}

/// A node as last laid out.
#[derive(Clone, Copy, Debug, PartialEq, Eq, Structural)]
pub struct NodeView {
    pub outer: Rect,
    pub outer_clipped: Rect,
    pub inner: Rect,
    pub inner_clipped: Rect,
    pub bordered: bool,
    /// The node floats over the others.
    pub floating: bool,
    pub reverse: bool,
    pub bg: StraightRgba,
    pub fg: StraightRgba,
    pub content: NodeContentView,
}

/// A drawing operation on the frame.
#[derive(Clone, Copy, Debug, PartialEq, Eq, Structural)]
pub enum DrawOp {
    /// Write a row of a box over row `y`, from `left` to `right`.
    Row { y: CoordType, left: CoordType, right: CoordType, row: BoxRow },
    /// Take the text attributes (bold, italic, ...) off the rectangle.
    ClearAttributes(Rect),
    /// Blend a color over the background of the rectangle.
    BlendBg(Rect, StraightRgba),
    /// Blend a color over the foreground of the rectangle.
    BlendFg(Rect, StraightRgba),
    /// Swap foreground and background in the rectangle.
    Reverse(Rect),
    /// Write the dialog's title over row `y`, from `left` to `right`.
    Title { y: CoordType, left: CoordType, right: CoordType },
    /// Write the node's styled text into the rectangle.
    StyledText(Rect),
    /// Draw the text area's text into the rectangle, scrolled by the offset.
    TextareaText { dest: Rect, scroll_offset: Point },
    /// Write the end-of-file marker over row `y`, from `left` to `right`.
    EofMarker { y: CoordType, left: CoordType, right: CoordType },
    /// Draw a scrollbar on the track for content of the given height
    /// scrolled by `offset` within `container`.
    Scrollbar { container: Rect, track: Rect, offset: CoordType, content_height: CoordType },
}

/// Row `y` of the box `r` written as `row`.
pub open spec fn row_op(y: int, r: Rect, row: BoxRow) -> DrawOp {
    DrawOp::Row { y: y as isize, left: r.left, right: r.right, row }
}

/// The rows between a box's top and bottom.
pub open spec fn middle_rows(r: Rect) -> nat {
    if r.bottom - r.top >= 2 {
        (r.bottom - r.top - 2) as nat
    } else {
        0
    }
}

/// A border round `r`: its top row, the rows between, its bottom row.
pub open spec fn border_ops(r: Rect) -> Seq<DrawOp> {
    seq![row_op(r.top as int, r, BoxRow::Top)] + Seq::new(
        middle_rows(r),
        |i: int| row_op(r.top + 1 + i, r, BoxRow::Middle),
    ) + seq![row_op(r.bottom - 1, r, BoxRow::Bottom)]
}

/// Every row of `r` blanked.
pub open spec fn blank_ops(r: Rect) -> Seq<DrawOp> {
    Seq::new((r.bottom - r.top) as nat, |i: int| row_op(r.top + i, r, BoxRow::Blank))
}

/// A floating node hides what lies beneath: its rows are blanked (a border
/// does that already) and the text attributes there taken off; behind a
/// modal dialog the whole `screen` is dimmed with `dim`.
pub open spec fn float_ops(node: NodeView, screen: Rect, dim: StraightRgba) -> Seq<DrawOp> {
    let r = node.outer_clipped;
    if node.floating {
        (if node.bordered { Seq::empty() } else { blank_ops(r) }) + seq![DrawOp::ClearAttributes(r)] + (
        if node.content is Modal {
            seq![DrawOp::BlendBg(screen, dim), DrawOp::BlendFg(screen, dim)]
        } else {
            Seq::empty()
        })
    } else {
        Seq::empty()
    }
}

/// The node's colors over its rectangle, then swapped where it is reversed.
pub open spec fn paint_ops(node: NodeView) -> Seq<DrawOp> {
    let r = node.outer_clipped;
    seq![DrawOp::BlendBg(r, node.bg), DrawOp::BlendFg(r, node.fg)] + (if node.reverse {
        seq![DrawOp::Reverse(r)]
    } else {
        Seq::empty()
    })
}

/// Where a text area's text goes: the clipped inner rectangle less the
/// scrollbar's column, for a text area.
pub open spec fn textarea_dest(node: NodeView, single_line: bool) -> Rect {
    let c = node.inner_clipped;
    Rect { right: (c.right - if single_line { 0int } else { 1int }) as isize, ..c }
}

/// The end-of-file marker of a text area, on the row after its last line
/// where that row shows.
pub open spec fn eof_ops(dest: Rect, scroll: Point, line_count: int, margin: int) -> Seq<DrawOp> {
    let y = line_count - scroll.y;
    if 0 <= y < dest.bottom - dest.top {
        seq![
            DrawOp::EofMarker {
                y: (dest.top + y) as isize,
                left: (dest.left + margin - scroll.x) as isize,
                right: dest.right,
            },
        ]
    } else {
        Seq::empty()
    }
}

/// The node's content: a modal dialog's title over its top border; styled
/// text; a text area's text, and in a text area also the end-of-file marker
/// and the scrollbar in the rightmost column, for its lines and one page
/// more; a scroll area's scrollbar right of its inner rectangle.
pub open spec fn content_ops(node: NodeView) -> Seq<DrawOp> {
    match node.content {
        NodeContentView::Modal { has_title } => if has_title {
            seq![
                DrawOp::Title {
                    y: node.outer.top,
                    left: (node.outer.left + 2) as isize,
                    right: (node.outer.right - 1) as isize,
                },
            ]
        } else {
            Seq::empty()
        },
        NodeContentView::Text => seq![DrawOp::StyledText(node.inner)],
        NodeContentView::Textarea { single_line, scroll_offset, line_count, margin } => {
            let dest = textarea_dest(node, single_line);
            let c = node.inner_clipped;
            seq![DrawOp::TextareaText { dest, scroll_offset }] + if single_line {
                Seq::empty()
            } else {
                eof_ops(dest, scroll_offset, line_count as int, margin as int) + seq![
                    DrawOp::Scrollbar {
                        container: c,
                        track: Rect { left: (c.right - 1) as isize, top: c.top, right: c.right, bottom: c.bottom },
                        offset: scroll_offset.y,
                        content_height: (line_count + (node.inner.bottom - node.inner.top) - 1) as isize,
                    },
                ]
            }
        },
        NodeContentView::Scrollarea { scroll_y, content_height } => seq![
            DrawOp::Scrollbar {
                container: node.outer_clipped,
                track: Rect {
                    left: node.inner.right,
                    top: node.inner.top,
                    right: (node.inner.right + 1) as isize,
                    bottom: node.inner.bottom,
                },
                offset: scroll_y,
                content_height,
            },
        ],
        NodeContentView::Other => Seq::empty(),
    }
}

/// How `node` is drawn, on a screen `screen` where a modal dialog dims the
/// rest with `dim`: nothing where it is clipped away entirely; else its
/// border ([`border_ops`]), what hides what lies beneath a floating node
/// ([`float_ops`]), its colors ([`paint_ops`]) and, where its inner
/// rectangle is not clipped away, its content ([`content_ops`]).
pub open spec fn spec_node_draw_ops(node: NodeView, screen: Rect, dim: StraightRgba) -> Seq<DrawOp> {
    if node.outer_clipped.spec_is_empty() {
        Seq::empty()
    } else {
        (if node.bordered { border_ops(node.outer_clipped) } else { Seq::empty() }) + float_ops(node, screen, dim)
            + paint_ops(node) + if node.inner_clipped.spec_is_empty() {
            Seq::empty()
        } else {
            content_ops(node)
        }
    }
}

/// The arithmetic of drawing `node` stays in range, and a bordered node is
/// at least two columns wide (else its border would be a row of negative
/// length).
pub open spec fn draw_fits(node: NodeView) -> bool {
    let r = node.outer_clipped;
    let c = node.inner_clipped;
    !r.spec_is_empty() ==> {
        &&& fits(r.bottom - r.top)
        &&& node.bordered ==> r.right - r.left >= 2
        &&& !c.spec_is_empty() ==> match node.content {
            NodeContentView::Modal { has_title } => has_title ==> fits(node.outer.left + 2) && fits(
                node.outer.right - 1,
            ),
            NodeContentView::Textarea { single_line, scroll_offset, line_count, margin } => {
                let dest = textarea_dest(node, single_line);
                let y = line_count - scroll_offset.y;
                &&& fits(c.right - 1)
                &&& !single_line ==> {
                    &&& fits(y)
                    &&& fits(dest.bottom - dest.top)
                    &&& fits(dest.top + y)
                    &&& fits(dest.left + margin)
                    &&& fits(dest.left + margin - scroll_offset.x)
                    &&& fits(node.inner.bottom - node.inner.top)
                    &&& fits(line_count + (node.inner.bottom - node.inner.top))
                    &&& fits(line_count + (node.inner.bottom - node.inner.top) - 1)
                }
            },
            NodeContentView::Scrollarea { .. } => fits(node.inner.right + 1),
            _ => true,
        }
    }
}

/// Appends the border round `oc` (see [`border_ops`]).
fn push_border(ops: &mut Vec<DrawOp>, oc: Rect)
    requires
        !oc.spec_is_empty(),
        fits(oc.bottom - oc.top),
    ensures
        final(ops)@ == old(ops)@ + border_ops(oc),
{
    let ghost start = ops@;
    let height = oc.bottom - oc.top;
    ops.push(DrawOp::Row { y: oc.top, left: oc.left, right: oc.right, row: BoxRow::Top });
    let rows: CoordType = if height >= 2 { height - 2 } else { 0 };
    let mut i: CoordType = 0;
    while i < rows
        invariant
            0 <= i <= rows,
            rows == middle_rows(oc),
            oc.bottom - oc.top == height,
            !oc.spec_is_empty(),
            ops@ == start + seq![row_op(oc.top as int, oc, BoxRow::Top)] + Seq::new(
                i as nat,
                |k: int| row_op(oc.top + 1 + k, oc, BoxRow::Middle),
            ),
        decreases rows - i,
    {
        ops.push(DrawOp::Row { y: oc.top + 1 + i, left: oc.left, right: oc.right, row: BoxRow::Middle });
        proof {
            assert(ops@ =~= start + seq![row_op(oc.top as int, oc, BoxRow::Top)] + Seq::new(
                (i + 1) as nat,
                |k: int| row_op(oc.top + 1 + k, oc, BoxRow::Middle),
            ));
        }
        i = i + 1;
    }
    ops.push(DrawOp::Row { y: oc.bottom - 1, left: oc.left, right: oc.right, row: BoxRow::Bottom });
    assert(ops@ =~= start + border_ops(oc));
}

/// Appends every row of `oc` blanked (see [`blank_ops`]).
fn push_blank(ops: &mut Vec<DrawOp>, oc: Rect)
    requires
        !oc.spec_is_empty(),
        fits(oc.bottom - oc.top),
    ensures
        final(ops)@ == old(ops)@ + blank_ops(oc),
{
    let ghost start = ops@;
    let height = oc.bottom - oc.top;
    let mut i: CoordType = 0;
    while i < height
        invariant
            0 <= i <= height,
            oc.bottom - oc.top == height,
            ops@ == start + Seq::new(i as nat, |k: int| row_op(oc.top + k, oc, BoxRow::Blank)),
        decreases height - i,
    {
        ops.push(DrawOp::Row { y: oc.top + i, left: oc.left, right: oc.right, row: BoxRow::Blank });
        proof {
            assert(ops@ =~= start + Seq::new((i + 1) as nat, |k: int| row_op(oc.top + k, oc, BoxRow::Blank)));
        }
        i = i + 1;
    }
    assert(ops@ =~= start + blank_ops(oc));
}

/// Appends the content's operations (see [`content_ops`]).
fn push_content(ops: &mut Vec<DrawOp>, node: &NodeView)
    requires
        draw_fits(*node),
        !node.outer_clipped.spec_is_empty(),
        !node.inner_clipped.spec_is_empty(),
    ensures
        final(ops)@ == old(ops)@ + content_ops(*node),
{
    let ghost start = ops@;
    let ic = node.inner_clipped;
    match node.content {
        NodeContentView::Modal { has_title } => {
            if has_title {
                ops.push(DrawOp::Title { y: node.outer.top, left: node.outer.left + 2, right: node.outer.right - 1 });
            }
        },
        NodeContentView::Text => {
            ops.push(DrawOp::StyledText(node.inner));
        },
        NodeContentView::Textarea { single_line, scroll_offset, line_count, margin } => {
            let bar: CoordType = if single_line { 0 } else { 1 };
            let dest = Rect { left: ic.left, top: ic.top, right: ic.right - bar, bottom: ic.bottom };
            ops.push(DrawOp::TextareaText { dest, scroll_offset });
            if !single_line {
                let y = line_count - scroll_offset.y;
                if 0 <= y && y < dest.bottom - dest.top {
                    ops.push(DrawOp::EofMarker {
                        y: dest.top + y,
                        left: dest.left + margin - scroll_offset.x,
                        right: dest.right,
                    });
                }
                ops.push(DrawOp::Scrollbar {
                    container: ic,
                    track: Rect { left: ic.right - 1, top: ic.top, right: ic.right, bottom: ic.bottom },
                    offset: scroll_offset.y,
                    content_height: line_count + (node.inner.bottom - node.inner.top) - 1,
                });
            }
        },
        NodeContentView::Scrollarea { scroll_y, content_height } => {
            ops.push(DrawOp::Scrollbar {
                container: node.outer_clipped,
                track: Rect {
                    left: node.inner.right,
                    top: node.inner.top,
                    right: node.inner.right + 1,
                    bottom: node.inner.bottom,
                },
                offset: scroll_y,
                content_height,
            });
        },
        NodeContentView::Other => {},
    }
    assert(ops@ =~= start + content_ops(*node));
}

/// The drawing operations of `node` (see [`spec_node_draw_ops`]).
pub fn node_draw_ops(node: &NodeView, screen: Rect, dim: StraightRgba) -> (r: Vec<DrawOp>)
    requires
        draw_fits(*node),
    ensures
        r@ == spec_node_draw_ops(*node, screen, dim),
{
    let mut ops: Vec<DrawOp> = Vec::new();
    let oc = node.outer_clipped;
    if oc.is_empty() {
        return ops;
    }
    if node.bordered {
        push_border(&mut ops, oc);
    }
    let ghost after_border = ops@;
    if node.floating {
        if !node.bordered {
            push_blank(&mut ops, oc);
        }
        ops.push(DrawOp::ClearAttributes(oc));
        if let NodeContentView::Modal { .. } = node.content {
            ops.push(DrawOp::BlendBg(screen, dim));
            ops.push(DrawOp::BlendFg(screen, dim));
        }
    }
    assert(ops@ =~= after_border + float_ops(*node, screen, dim));
    let ghost after_float = ops@;
    ops.push(DrawOp::BlendBg(oc, node.bg));
    ops.push(DrawOp::BlendFg(oc, node.fg));
    if node.reverse {
        ops.push(DrawOp::Reverse(oc));
    }
    assert(ops@ =~= after_float + paint_ops(*node));
    if !node.inner_clipped.is_empty() {
        push_content(&mut ops, node);
    }
    assert(ops@ =~= spec_node_draw_ops(*node, screen, dim));
    ops
}

} // verus!
