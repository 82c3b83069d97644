//! Layout of the UI tree: every node's intrinsic size is computed bottom-up
//! from its children, then rectangles are handed out top-down.
//!
//! A node's outer rectangle includes its padding and border; its inner
//! rectangle excludes them. Blocks stack their children vertically, tables
//! arrange the cells of their rows in columns, and a scroll area shows its
//! content shifted by the scroll offset.

use vstd::prelude::*;
use crate::helpers::{CoordType, Point, Rect, Size, max_i, min_i};
use crate::tui::Position;

verus! {

/// What a node holds, as far as layout is concerned.
pub enum LayoutContent {
    /// Children stacked top to bottom.
    Block,
    /// Rows (the children) of cells (their children), in columns.
    Table { columns: Vec<CoordType>, cell_gap: Size },
    /// One content child, scrolled vertically.
    Scrollarea { scroll_offset: Point },
}

/// A node of the UI tree.
pub struct LayoutNode {
    pub position: Position,
    pub padding: Rect,
    pub bordered: bool,
    pub content: LayoutContent,
    /// The size without padding and border.
    pub intrinsic_size: Size,
    /// Whether `intrinsic_size` is final (set by the node's content).
    pub intrinsic_size_set: bool,
    pub children: Vec<LayoutNode>,
    /// In screen space, computed by the layout.
    pub outer: Rect,
    pub inner: Rect,
    /// The above restricted to the visible area.
    pub outer_clipped: Rect,
    pub inner_clipped: Rect,
}

/// Whether `x` fits in a `CoordType`.
pub open spec fn fits(x: int) -> bool {
    isize::MIN <= x <= isize::MAX
}

/// The border width on the left (and the border height on top and bottom).
pub open spec fn border(n: LayoutNode) -> int {
    if n.bordered {
        1
    } else {
        0
    }
}

/// The border width on the right: a scroll area keeps a column for its track.
pub open spec fn border_right(n: LayoutNode) -> int {
    if n.bordered || n.content is Scrollarea {
        1
    } else {
        0
    }
}

/// Horizontal padding and border.
pub open spec fn pad_w(n: LayoutNode) -> int {
    n.padding.left + n.padding.right + border(n) + border_right(n)
}

/// Vertical padding and border.
pub open spec fn pad_h(n: LayoutNode) -> int {
    n.padding.top + n.padding.bottom + border(n) + border(n)
}

/// Whether the sums of padding and border fit.
pub open spec fn pads_fit(n: LayoutNode) -> bool {
    &&& fits(n.padding.left + n.padding.right)
    &&& fits(n.padding.left + n.padding.right + border(n))
    &&& fits(pad_w(n))
    &&& fits(n.padding.top + n.padding.bottom)
    &&& fits(n.padding.top + n.padding.bottom + border(n))
    &&& fits(pad_h(n))
}

/// The outer size from the node's current intrinsic size.
pub open spec fn outer_size(n: LayoutNode) -> (int, int) {
    (n.intrinsic_size.width + pad_w(n), n.intrinsic_size.height + pad_h(n))
}

/// Whether computing the outer size stays within `CoordType`.
pub open spec fn outer_fits(n: LayoutNode) -> bool {
    pads_fit(n) && fits(outer_size(n).0) && fits(outer_size(n).1)
}

/// The inner rectangle for the outer rectangle `outer`.
pub open spec fn spec_outer_to_inner(n: LayoutNode, outer: Rect) -> (int, int, int, int) {
    (
        outer.left + (n.padding.left + border(n)),
        outer.top + (n.padding.top + border(n)),
        outer.right - (n.padding.right + border_right(n)),
        outer.bottom - (n.padding.bottom + border(n)),
    )
}

/// Whether computing the inner rectangle stays within `CoordType`.
pub open spec fn inner_fits(n: LayoutNode, outer: Rect) -> bool {
    let (l, t, r, b) = spec_outer_to_inner(n, outer);
    &&& fits(n.padding.left + border(n))
    &&& fits(n.padding.top + border(n))
    &&& fits(n.padding.right + border_right(n))
    &&& fits(n.padding.bottom + border(n))
    &&& fits(l) && fits(t) && fits(r) && fits(b)
}

/// The rectangle with the given edges.
pub open spec fn rect_of(e: (int, int, int, int)) -> Rect {
    Rect { left: e.0 as isize, top: e.1 as isize, right: e.2 as isize, bottom: e.3 as isize }
}

impl LayoutNode {
    /// Given the outer rectangle of this node, the inner one: without padding and border.
    pub fn outer_to_inner(&self, outer: Rect) -> (r: Rect)
        requires
            inner_fits(*self, outer),
        ensures
            r == rect_of(spec_outer_to_inner(*self, outer)),
    {
        let l: CoordType = if self.bordered {
            1
        } else {
            0
        };
        let rb: CoordType = if self.bordered || matches!(self.content, LayoutContent::Scrollarea { .. }) {
            1
        } else {
            0
        };
        Rect {
            left: outer.left + (self.padding.left + l),
            top: outer.top + (self.padding.top + l),
            right: outer.right - (self.padding.right + rb),
            bottom: outer.bottom - (self.padding.bottom + l),
        }
    }

    /// The outer size: the intrinsic size with padding and border.
    pub fn intrinsic_to_outer(&self) -> (s: Size)
        requires
            outer_fits(*self),
        ensures
            s.width == outer_size(*self).0,
            s.height == outer_size(*self).1,
    {
        let l: CoordType = if self.bordered {
            1
        } else {
            0
        };
        let r: CoordType = if self.bordered || matches!(self.content, LayoutContent::Scrollarea { .. }) {
            1
        } else {
            0
        };
        let w = self.padding.left + self.padding.right + l + r;
        let h = self.padding.top + self.padding.bottom + l + l;
        Size { width: self.intrinsic_size.width + w, height: self.intrinsic_size.height + h }
    }
}

/// `n - 1` for a count `n`, but not below zero.
pub open spec fn sat_dec(n: int) -> int {
    if n > 0 {
        n - 1
    } else {
        0
    }
}

/// The position, padding, border and rectangles, which computing sizes keeps.
pub open spec fn same_frame(a: LayoutNode, b: LayoutNode) -> bool {
    &&& a.position == b.position
    &&& a.padding == b.padding
    &&& a.bordered == b.bordered
    &&& a.outer == b.outer
    &&& a.inner == b.inner
    &&& a.outer_clipped == b.outer_clipped
    &&& a.inner_clipped == b.inner_clipped
}

/// The intrinsic size a node ends up with: what its content set, or else what
/// its children need (for a table, its rows and columns; otherwise the widest
/// child and the children's heights added up).
pub open spec fn intrinsic(n: LayoutNode) -> (int, int)
    decreases n, 1int, 0int,
{
    if n.intrinsic_size_set {
        (n.intrinsic_size.width as int, n.intrinsic_size.height as int)
    } else if n.content is Table {
        table_size(n)
    } else {
        (max_outer_w(n.children@, n.children@.len() as int), sum_outer_h(n.children@, n.children@.len() as int))
    }
}

/// The outer size a node ends up with.
pub open spec fn final_outer(n: LayoutNode) -> (int, int)
    decreases n, 2int, 0int,
{
    (intrinsic(n).0 + pad_w(n), intrinsic(n).1 + pad_h(n))
}

/// The widest of the first `k` nodes' final outer widths, and at least 0.
pub open spec fn max_outer_w(s: Seq<LayoutNode>, k: int) -> int
    decreases s, 0int, k,
{
    if k <= 0 || k > s.len() {
        0
    } else {
        max_i(max_outer_w(s, k - 1), final_outer(s[k - 1]).0)
    }
}

/// The tallest of the first `k` nodes' final outer heights, and at least 0.
pub open spec fn max_outer_h(s: Seq<LayoutNode>, k: int) -> int
    decreases s, 0int, k,
{
    if k <= 0 || k > s.len() {
        0
    } else {
        max_i(max_outer_h(s, k - 1), final_outer(s[k - 1]).1)
    }
}

/// The first `k` nodes' final outer heights added up.
pub open spec fn sum_outer_h(s: Seq<LayoutNode>, k: int) -> int
    decreases s, 0int, k,
{
    if k <= 0 || k > s.len() {
        0
    } else {
        sum_outer_h(s, k - 1) + final_outer(s[k - 1]).1
    }
}

/// Column `c`'s width after the first `k` rows: its width so far (`init`)
/// widened to each of their cells in that column.
pub open spec fn col_width(rows: Seq<LayoutNode>, k: int, c: int, init: int) -> int
    decreases rows, 0int, k,
{
    if k <= 0 || k > rows.len() {
        init
    } else {
        let acc = col_width(rows, k - 1, c, init);
        if 0 <= c < rows[k - 1].children@.len() {
            max_i(acc, final_outer(rows[k - 1].children@[c]).0)
        } else {
            acc
        }
    }
}

/// The number of columns: at least as many as before, and as many as the
/// row with the most cells among the first `k`.
pub open spec fn col_count(rows: Seq<LayoutNode>, k: int, init: int) -> int
    decreases k,
{
    if k <= 0 || k > rows.len() {
        init
    } else {
        max_i(col_count(rows, k - 1, init), rows[k - 1].children@.len() as int)
    }
}

/// The width a column starts from: its old width, or 0 for a new column.
pub open spec fn col_init(columns: Seq<CoordType>, c: int) -> int {
    if 0 <= c < columns.len() {
        columns[c] as int
    } else {
        0
    }
}

/// The table's column widths after its cells were measured.
pub open spec fn table_columns(n: LayoutNode) -> Seq<int> {
    let rows = n.children@;
    let cols = n.content->columns@;
    Seq::new(
        col_count(rows, rows.len() as int, cols.len() as int) as nat,
        |c: int| col_width(rows, rows.len() as int, c, col_init(cols, c)),
    )
}

/// The first `c` column widths added up.
pub open spec fn sum_cols(rows: Seq<LayoutNode>, cols: Seq<CoordType>, c: int) -> int
    decreases rows, 1int, c,
{
    if c <= 0 {
        0
    } else {
        sum_cols(rows, cols, c - 1) + col_width(rows, rows.len() as int, c - 1, col_init(cols, c - 1))
    }
}

/// The inner width of every row: the columns and the gaps between them.
pub open spec fn row_width(n: LayoutNode) -> int
    decreases n, 0int, 1int,
{
    let rows = n.children@;
    let cols = n.content->columns@;
    let count = col_count(rows, rows.len() as int, cols.len() as int);
    sum_cols(rows, cols, count) + n.content->cell_gap.width * sat_dec(count)
}

/// The heights of the first `k` rows, each its tallest cell plus its own
/// padding and border, added up.
pub open spec fn sum_row_h(rows: Seq<LayoutNode>, k: int) -> int
    decreases rows, 0int, k,
{
    if k <= 0 || k > rows.len() {
        0
    } else {
        sum_row_h(rows, k - 1) + max_outer_h(rows[k - 1].children@, rows[k - 1].children@.len() as int)
            + pad_h(rows[k - 1])
    }
}

/// The widest of the first `k` rows, given their inner width, and at least 0.
pub open spec fn max_row_w(rows: Seq<LayoutNode>, k: int, width: int) -> int
    decreases k,
{
    if k <= 0 || k > rows.len() {
        0
    } else {
        max_i(max_row_w(rows, k - 1, width), width + pad_w(rows[k - 1]))
    }
}

/// A table's size: its widest row, and its rows' heights with the gaps between them.
pub open spec fn table_size(n: LayoutNode) -> (int, int)
    decreases n, 0int, 2int,
{
    let rows = n.children@;
    (
        max_row_w(rows, rows.len() as int, row_width(n)),
        sum_row_h(rows, rows.len() as int) + n.content->cell_gap.height * sat_dec(rows.len() as int),
    )
}

/// Whether a child's final outer size can be computed within `CoordType`.
pub open spec fn child_fits(c: LayoutNode) -> bool {
    &&& pads_fit(c)
    &&& fits(final_outer(c).0)
    &&& fits(final_outer(c).1)
}

/// Whether measuring a table stays within `CoordType` at this level.
pub open spec fn table_fits(n: LayoutNode) -> bool {
    let rows = n.children@;
    let cols = n.content->columns@;
    let count = col_count(rows, rows.len() as int, cols.len() as int);
    let gap = n.content->cell_gap;
    &&& fits(sat_dec(count))
    &&& fits(sat_dec(rows.len() as int))
    &&& forall|c: int| 0 <= c <= count ==> fits(#[trigger] sum_cols(rows, cols, c))
    &&& fits(gap.width * sat_dec(count))
    &&& fits(row_width(n))
    &&& forall|r: int|
        0 <= r < rows.len() ==> {
            &&& pads_fit(#[trigger] rows[r])
            &&& fits(row_width(n) + pad_w(rows[r]))
            &&& fits(max_outer_h(rows[r].children@, rows[r].children@.len() as int) + pad_h(rows[r]))
        }
    &&& forall|k: int| 0 <= k <= rows.len() ==> fits(#[trigger] sum_row_h(rows, k))
    &&& fits(gap.height * sat_dec(rows.len() as int))
    &&& fits(sum_row_h(rows, rows.len() as int) + gap.height * sat_dec(rows.len() as int))
}

/// Whether computing the sizes of the subtree at `n` stays within `CoordType`.
pub open spec fn size_fits(n: LayoutNode) -> bool
    decreases n,
{
    if n.content is Table {
        &&& forall|r: int, c: int|
            0 <= r < n.children@.len() && 0 <= c < n.children@[r].children@.len() ==> {
                &&& size_fits(#[trigger] n.children@[r].children@[c])
                &&& child_fits(n.children@[r].children@[c])
            }
        &&& table_fits(n)
    } else {
        &&& forall|i: int|
            0 <= i < n.children@.len() ==> size_fits(#[trigger] n.children@[i]) && child_fits(
                n.children@[i],
            )
        &&& forall|k: int|
            0 <= k <= n.children@.len() ==> fits(#[trigger] sum_outer_h(n.children@, k))
    }
}

/// `b` is `a` with the intrinsic sizes of its subtree computed (a table's
/// rows are sized by the table, its cells by themselves).
pub open spec fn sized(a: LayoutNode, b: LayoutNode) -> bool
    decreases a,
{
    &&& same_frame(a, b)
    &&& b.intrinsic_size_set
    &&& b.intrinsic_size.width == intrinsic(a).0
    &&& b.intrinsic_size.height == intrinsic(a).1
    &&& b.children@.len() == a.children@.len()
    &&& if a.content is Table {
        &&& b.content is Table
        &&& b.content->cell_gap == a.content->cell_gap
        &&& b.content->columns@.len() == table_columns(a).len()
        &&& forall|c: int|
            0 <= c < table_columns(a).len() ==> b.content->columns@[c] == #[trigger] table_columns(a)[c]
        &&& forall|r: int|
            0 <= r < a.children@.len() ==> {
                let ra = #[trigger] a.children@[r];
                let rb = b.children@[r];
                &&& same_frame(ra, rb)
                &&& rb.content == ra.content
                &&& rb.intrinsic_size_set
                &&& rb.intrinsic_size.width == row_width(a)
                &&& rb.intrinsic_size.height == max_outer_h(ra.children@, ra.children@.len() as int)
                &&& rb.children@.len() == ra.children@.len()
                &&& forall|c: int|
                    0 <= c < ra.children@.len() ==> sized(
                        #[trigger] a.children@[r].children@[c],
                        b.children@[r].children@[c],
                    )
            }
    } else {
        &&& b.content == a.content
        &&& forall|i: int| 0 <= i < a.children@.len() ==> sized(#[trigger] a.children@[i], b.children@[i])
    }
}

/// A sized node's outer size is its final outer size.
proof fn lemma_sized_outer(a: LayoutNode, b: LayoutNode)
    requires
        sized(a, b),
    ensures
        outer_size(b) == final_outer(a),
        pad_w(b) == pad_w(a),
        pad_h(b) == pad_h(a),
        pads_fit(a) ==> pads_fit(b),
{
    if a.content is Table {
        assert(b.content is Table);
    } else {
        assert(b.content == a.content);
    }
}

/// A column no row has reached keeps its initial width.
proof fn lemma_col_width_untouched(rows: Seq<LayoutNode>, k: int, c: int, init: int, len0: int)
    requires
        0 <= k <= rows.len(),
        c >= col_count(rows, k, len0),
    ensures
        col_width(rows, k, c, init) == init,
    decreases k,
{
    if k > 0 {
        lemma_col_width_untouched(rows, k - 1, c, init, len0);
    }
}

/// The column count never shrinks.
proof fn lemma_col_count_grows(rows: Seq<LayoutNode>, k: int, len0: int)
    requires
        0 <= k <= rows.len(),
    ensures
        col_count(rows, k, len0) >= len0,
    decreases k,
{
    if k > 0 {
        lemma_col_count_grows(rows, k - 1, len0);
    }
}

impl LayoutNode {
    /// Computes the intrinsic sizes of this node's subtree, bottom-up. A size
    /// that the node's content already set stays.
    pub fn compute_intrinsic_size(&mut self)
        requires
            size_fits(*old(self)),
        ensures
            sized(*old(self), *final(self)),
        decreases *old(self), 1int,
    {
        if matches!(self.content, LayoutContent::Table { .. }) {
            self.compute_table_size();
            return;
        }
        let mut kids: Vec<LayoutNode> = Vec::new();
        std::mem::swap(&mut kids, &mut self.children);
        let ghost orig = kids@;
        let len = kids.len();
        let mut out: Vec<LayoutNode> = Vec::new();
        let mut max_width: CoordType = 0;
        let mut total_height: CoordType = 0;
        let mut i: usize = 0;
        while i < len
            invariant
                i <= len,
                orig.len() == len,
                kids@.len() == len - i,
                out@.len() == i,
                orig == old(self).children@,
                forall|k: int| 0 <= k < len - i ==> kids@[k] == orig[k + i],
                forall|k: int| 0 <= k < i ==> sized(#[trigger] orig[k], out@[k]),
                size_fits(*old(self)),
                !(old(self).content is Table),
                max_width == max_outer_w(orig, i as int),
                total_height == sum_outer_h(orig, i as int),
                same_frame(*old(self), *self),
                self.content == old(self).content,
                self.intrinsic_size == old(self).intrinsic_size,
                self.intrinsic_size_set == old(self).intrinsic_size_set,
            decreases len - i,
        {
            let mut child = kids.remove(0);
            assert(child == orig[i as int]);
            proof {
                assert(decreases_to!(*old(self) => orig[i as int]));
            }
            child.compute_intrinsic_size();
            proof {
                lemma_sized_outer(orig[i as int], child);
                assert(fits(sum_outer_h(orig, i + 1)));
            }
            let size = child.intrinsic_to_outer();
            max_width = if size.width > max_width {
                size.width
            } else {
                max_width
            };
            total_height = total_height + size.height;
            out.push(child);
            i += 1;
        }
        self.children = out;
        if !self.intrinsic_size_set {
            self.intrinsic_size = Size { width: max_width, height: total_height };
            self.intrinsic_size_set = true;
        }
    }

    /// Measures a table: every cell is sized, each column is as wide as its
    /// widest cell, each row as tall as its tallest cell and as wide as all
    /// columns with the gaps between them.
    fn compute_table_size(&mut self)
        requires
            size_fits(*old(self)),
            old(self).content is Table,
        ensures
            sized(*old(self), *final(self)),
        decreases *old(self), 0int,
    {
        let mut content = LayoutContent::Block;
        std::mem::swap(&mut content, &mut self.content);
        let (mut columns, gap) = match content {
            LayoutContent::Table { columns, cell_gap } => (columns, cell_gap),
            _ => (Vec::new(), Size { width: 0, height: 0 }),
        };
        let ghost cols0 = columns@;
        let mut rows: Vec<LayoutNode> = Vec::new();
        std::mem::swap(&mut rows, &mut self.children);
        let ghost orig = rows@;
        let ghost a = *old(self);
        let nrows = rows.len();
        let mut out: Vec<LayoutNode> = Vec::new();
        let mut r: usize = 0;
        while r < nrows
            invariant
                r <= nrows,
                orig.len() == nrows,
                rows@.len() == nrows - r,
                out@.len() == r,
                a == *old(self),
                orig == a.children@,
                cols0 == a.content->columns@,
                gap == a.content->cell_gap,
                a.content is Table,
                size_fits(a),
                forall|k: int| 0 <= k < nrows - r ==> rows@[k] == orig[k + r],
                columns@.len() == col_count(orig, r as int, cols0.len() as int),
                forall|c: int|
                    0 <= c < columns@.len() ==> columns@[c] == col_width(
                        orig,
                        r as int,
                        c,
                        col_init(cols0, c),
                    ),
                forall|k: int|
                    0 <= k < r ==> {
                        let ra = #[trigger] orig[k];
                        let rb = out@[k];
                        &&& same_frame(ra, rb)
                        &&& rb.content == ra.content
                        &&& rb.intrinsic_size.height == max_outer_h(ra.children@, ra.children@.len() as int)
                        &&& rb.children@.len() == ra.children@.len()
                        &&& forall|c: int|
                            0 <= c < ra.children@.len() ==> sized(
                                #[trigger] orig[k].children@[c],
                                out@[k].children@[c],
                            )
                    },
            decreases nrows - r,
        {
            let mut row = rows.remove(0);
            assert(row == orig[r as int]);
            let mut cells: Vec<LayoutNode> = Vec::new();
            std::mem::swap(&mut cells, &mut row.children);
            let ghost ocells = cells@;
            let ncells = cells.len();
            let mut new_cells: Vec<LayoutNode> = Vec::new();
            let mut row_height: CoordType = 0;
            proof {
                lemma_col_count_grows(orig, r as int, cols0.len() as int);
            }
            let mut c: usize = 0;
            while c < ncells
                invariant
                    c <= ncells,
                    ocells.len() == ncells,
                    ocells == orig[r as int].children@,
                    r < nrows,
                    orig.len() == nrows,
                    a == *old(self),
                    orig == a.children@,
                    cols0 == a.content->columns@,
                    a.content is Table,
                    size_fits(a),
                    cells@.len() == ncells - c,
                    new_cells@.len() == c,
                    forall|k: int| 0 <= k < ncells - c ==> cells@[k] == ocells[k + c],
                    forall|k: int| 0 <= k < c ==> sized(#[trigger] ocells[k], new_cells@[k]),
                    row_height == max_outer_h(ocells, c as int),
                    col_count(orig, r as int, cols0.len() as int) >= cols0.len(),
                    columns@.len() == max_i(col_count(orig, r as int, cols0.len() as int), c as int),
                    forall|j: int|
                        0 <= j < columns@.len() ==> columns@[j] == if j < c {
                            col_width(orig, r + 1, j, col_init(cols0, j))
                        } else {
                            col_width(orig, r as int, j, col_init(cols0, j))
                        },
                decreases ncells - c,
            {
                let mut cell = cells.remove(0);
                assert(cell == ocells[c as int]);
                assert(cell == a.children@[r as int].children@[c as int]);
                proof {
                    assert(decreases_to!(*old(self) => orig[r as int].children@[c as int]));
                }
                cell.compute_intrinsic_size();
                proof {
                    lemma_sized_outer(ocells[c as int], cell);
                }
                let size = cell.intrinsic_to_outer();
                if c >= columns.len() {
                    proof {
                        lemma_col_width_untouched(
                            orig,
                            r as int,
                            c as int,
                            col_init(cols0, c as int),
                            cols0.len() as int,
                        );
                    }
                    columns.push(0);
                }
                let w = columns[c];
                columns.set(c, if size.width > w { size.width } else { w });
                row_height = if size.height > row_height {
                    size.height
                } else {
                    row_height
                };
                new_cells.push(cell);
                c += 1;
            }
            proof {
                assert forall|j: int| 0 <= j < columns@.len() && j >= ncells implies columns@[j]
                    == col_width(orig, r + 1, j, col_init(cols0, j)) by {}
            }
            row.children = new_cells;
            row.intrinsic_size = Size { width: row.intrinsic_size.width, height: row_height };
            out.push(row);
            r += 1;
        }

        // The rows' common inner width.
        let count = columns.len();
        let mut sum: CoordType = 0;
        let mut j: usize = 0;
        while j < count
            invariant
                j <= count,
                count == columns@.len(),
                count == col_count(orig, nrows as int, cols0.len() as int),
                orig.len() == nrows,
                a == *old(self),
                orig == a.children@,
                cols0 == a.content->columns@,
                a.content is Table,
                size_fits(a),
                forall|c: int|
                    0 <= c < columns@.len() ==> columns@[c] == col_width(
                        orig,
                        nrows as int,
                        c,
                        col_init(cols0, c),
                    ),
                sum == sum_cols(orig, cols0, j as int),
            decreases count - j,
        {
            assert(fits(sum_cols(orig, cols0, j + 1)));
            sum = sum + columns[j];
            j += 1;
        }
        let gaps: CoordType = if count > 0 {
            (count - 1) as CoordType
        } else {
            0
        };
        let width = sum + gap.width * gaps;
        assert(width == row_width(a));

        // Rows get that width; the table gets its widest row and all rows' heights.
        let mut done: Vec<LayoutNode> = Vec::new();
        let mut total_width: CoordType = 0;
        let mut total_height: CoordType = 0;
        let mut k: usize = 0;
        while k < nrows
            invariant
                k <= nrows,
                orig.len() == nrows,
                out@.len() == nrows - k,
                done@.len() == k,
                a == *old(self),
                orig == a.children@,
                a.content is Table,
                size_fits(a),
                width == row_width(a),
                forall|q: int|
                    k <= q < nrows ==> {
                        let ra = #[trigger] orig[q];
                        let rb = out@[q - k];
                        &&& same_frame(ra, rb)
                        &&& rb.content == ra.content
                        &&& rb.intrinsic_size.height == max_outer_h(ra.children@, ra.children@.len() as int)
                        &&& rb.children@.len() == ra.children@.len()
                        &&& forall|c: int|
                            0 <= c < ra.children@.len() ==> sized(
                                #[trigger] orig[q].children@[c],
                                out@[q - k].children@[c],
                            )
                    },
                forall|q: int|
                    0 <= q < k ==> {
                        let ra = #[trigger] orig[q];
                        let rb = done@[q];
                        &&& same_frame(ra, rb)
                        &&& rb.content == ra.content
                        &&& rb.intrinsic_size_set
                        &&& rb.intrinsic_size.width == row_width(a)
                        &&& rb.intrinsic_size.height == max_outer_h(ra.children@, ra.children@.len() as int)
                        &&& rb.children@.len() == ra.children@.len()
                        &&& forall|c: int|
                            0 <= c < ra.children@.len() ==> sized(
                                #[trigger] orig[q].children@[c],
                                done@[q].children@[c],
                            )
                    },
                total_width == max_row_w(orig, k as int, width as int),
                total_height == sum_row_h(orig, k as int),
            decreases nrows - k,
        {
            let ghost before = out@;
            let mut row = out.remove(0);
            assert(row == before[0]);
            assert(forall|c: int|
                0 <= c < orig[k as int].children@.len() ==> sized(
                    #[trigger] orig[k as int].children@[c],
                    row.children@[c],
                ));
            row.intrinsic_size = Size { width, height: row.intrinsic_size.height };
            row.intrinsic_size_set = true;
            proof {
                assert(pads_fit(orig[k as int]));
                assert(fits(sum_row_h(orig, k + 1)));
            }
            let size = row.intrinsic_to_outer();
            total_width = if size.width > total_width {
                size.width
            } else {
                total_width
            };
            total_height = total_height + size.height;
            done.push(row);
            k += 1;
        }
        let row_gaps: CoordType = if nrows > 0 {
            (nrows - 1) as CoordType
        } else {
            0
        };
        total_height = total_height + gap.height * row_gaps;

        self.children = done;
        self.content = LayoutContent::Table { columns, cell_gap: gap };
        if !self.intrinsic_size_set {
            self.intrinsic_size = Size { width: total_width, height: total_height };
            self.intrinsic_size_set = true;
        }
    }
}

/// The first `k` nodes' current outer heights added up.
pub open spec fn sum_size_h(s: Seq<LayoutNode>, k: int) -> int
    decreases k,
{
    if k <= 0 || k > s.len() {
        0
    } else {
        sum_size_h(s, k - 1) + outer_size(s[k - 1]).1
    }
}

/// The tallest of the first `k` nodes' current outer heights, and at least 0.
pub open spec fn max_size_h(s: Seq<LayoutNode>, k: int) -> int
    decreases k,
{
    if k <= 0 || k > s.len() {
        0
    } else {
        max_i(max_size_h(s, k - 1), outer_size(s[k - 1]).1)
    }
}

/// How far below the table's top row `k` starts: the rows above it, each as
/// tall as its tallest cell, and a gap after each.
pub open spec fn row_offset(rows: Seq<LayoutNode>, k: int, gap: int) -> int
    decreases k,
{
    if k <= 0 || k > rows.len() {
        0
    } else {
        row_offset(rows, k - 1, gap) + (max_size_h(rows[k - 1].children@, rows[k - 1].children@.len() as int)
            + gap)
    }
}

/// How far right of the table's left edge column `k` starts.
pub open spec fn col_offset(cols: Seq<CoordType>, k: int, gap: int) -> int
    decreases k,
{
    if k <= 0 || k > cols.len() {
        0
    } else {
        col_offset(cols, k - 1, gap) + (cols[k - 1] + gap)
    }
}

/// Where a block puts a child whose top is at `y`: as wide as the block
/// when stretched, else as wide as the child needs, at the left, the
/// center or the right.
pub open spec fn block_outer(inner: Rect, child: LayoutNode, y: int) -> (int, int, int, int) {
    let width = inner.right - inner.left;
    let (w, h) = outer_size(child);
    let remaining = max_i(width - w, 0);
    let left = inner.left + match child.position {
        Position::Stretch | Position::Left => 0,
        Position::Center => remaining / 2,
        Position::Right => remaining,
    };
    let right = left + match child.position {
        Position::Stretch => width,
        _ => w,
    };
    (left, y, right, y + h)
}

/// `b`'s rectangles: `outer`, the inner one for it, and both clipped to `clip`.
pub open spec fn placed(b: LayoutNode, outer: Rect, clip: Rect) -> bool {
    &&& b.outer == outer
    &&& b.inner == rect_of(spec_outer_to_inner(b, outer))
    &&& b.outer_clipped == outer.spec_intersect(clip)
    &&& b.inner_clipped == b.inner.spec_intersect(clip)
}

/// The attributes and sizes that layout keeps.
pub open spec fn same_attrs(a: LayoutNode, b: LayoutNode) -> bool {
    &&& b.position == a.position
    &&& b.padding == a.padding
    &&& b.bordered == a.bordered
    &&& b.intrinsic_size == a.intrinsic_size
    &&& b.intrinsic_size_set == a.intrinsic_size_set
    &&& b.children@.len() == a.children@.len()
}

/// The offset a scroll area ends up at: its offset clamped to `0..=max`.
pub open spec fn clamp_offset(y: int, max: int) -> int {
    if y < 0 {
        0
    } else if y > max {
        max
    } else {
        y
    }
}

/// `rb` is the table row `ra` placed at `y` across the table's inner
/// rectangle `inner`, with its cells in the columns `cols` (and `gap` between
/// them) and their subtrees laid out.
#[verifier::opaque]
pub open spec fn row_laid_out(
    ra: LayoutNode,
    rb: LayoutNode,
    inner: Rect,
    y: int,
    cols: Seq<CoordType>,
    gap: int,
    clip: Rect,
) -> bool
    decreases ra,
{
    let width = inner.right - inner.left;
    &&& same_attrs(ra, rb)
    &&& rb.content == ra.content
    &&& placed(rb, rect_of((inner.left as int, y, inner.left + width, y + outer_size(ra).1)).spec_intersect(inner), clip)
    &&& forall|c: int|
        0 <= c < ra.children@.len() ==> {
            let ca = #[trigger] ra.children@[c];
            let x = inner.left + col_offset(cols, c, gap);
            &&& placed(rb.children@[c], rect_of((x, y, x + cols[c], y + outer_size(ca).1)).spec_intersect(inner), clip)
            &&& laid_out(ca, rb.children@[c], clip)
        }
}

/// `b` is `a`'s subtree laid out inside `b`'s own rectangles, with
/// everything clipped to `clip`.
#[verifier::opaque]
pub open spec fn laid_out(a: LayoutNode, b: LayoutNode, clip: Rect) -> bool
    decreases a,
{
    &&& same_attrs(a, b)
    &&& if a.children@.len() == 0 || b.inner.spec_is_empty() {
        &&& b.children@ == a.children@
        &&& b.content == a.content
    } else if a.content is Table {
        let rows = a.children@;
        let gap = a.content->cell_gap;
        &&& b.content == a.content
        &&& forall|r: int|
            0 <= r < rows.len() ==> row_laid_out(
                #[trigger] rows[r],
                b.children@[r],
                b.inner,
                b.inner.top + row_offset(rows, r, gap.height as int),
                a.content->columns@,
                gap.width as int,
                clip,
            )
    } else if a.content is Scrollarea {
        let ca = a.children@[0];
        let cb = b.children@[0];
        let sx = b.inner.right - b.inner.left;
        let sy = b.inner.bottom - b.inner.top;
        let cy = max_i(ca.intrinsic_size.height as int, sy);
        let oy = clamp_offset(a.content->scroll_offset.y as int, cy - sy);
        let top = b.inner.top - oy;
        &&& b.content == (LayoutContent::Scrollarea { scroll_offset: Point { x: 0, y: oy as isize } })
        &&& placed(cb, rect_of((b.inner.left as int, top, b.inner.left + sx, top + cy)), b.inner_clipped)
        &&& laid_out(ca, cb, cb.inner_clipped)
        &&& forall|i: int| 1 <= i < a.children@.len() ==> b.children@[i] == a.children@[i]
    } else {
        &&& b.content == a.content
        &&& forall|i: int|
            0 <= i < a.children@.len() ==> {
                &&& placed(
                    b.children@[i],
                    rect_of(
                        block_outer(b.inner, #[trigger] a.children@[i], b.inner.top + sum_size_h(a.children@, i)),
                    ).spec_intersect(b.inner),
                    clip,
                )
                &&& laid_out(a.children@[i], b.children@[i], clip)
            }
    }
}

/// Whether placing a child at the edges `e`, clipped by `bound` (if any),
/// stays within `CoordType`, and what its inner rectangle needs too.
pub open spec fn place_fits(n: LayoutNode, e: (int, int, int, int), bound: Option<Rect>) -> bool {
    let outer = match bound {
        Some(r) => rect_of(e).spec_intersect(r),
        None => rect_of(e),
    };
    &&& fits(e.0) && fits(e.1) && fits(e.2) && fits(e.3)
    &&& inner_fits(n, outer)
}

/// The inner rectangle a child gets when placed at `e`, clipped by `bound`.
pub open spec fn placed_inner(n: LayoutNode, e: (int, int, int, int), bound: Option<Rect>) -> Rect {
    let outer = match bound {
        Some(r) => rect_of(e).spec_intersect(r),
        None => rect_of(e),
    };
    rect_of(spec_outer_to_inner(n, outer))
}

/// Whether placing the table row `ra` at `y` and its cells in the columns
/// `cols` stays within `CoordType`, with a column for every cell.
#[verifier::opaque]
pub open spec fn row_fits(ra: LayoutNode, inner: Rect, y: int, cols: Seq<CoordType>, gap: int, clip: Rect) -> bool
    decreases ra,
{
    let width = inner.right - inner.left;
    &&& outer_fits(ra)
    &&& place_fits(ra, (inner.left as int, y, inner.left + width, y + outer_size(ra).1), Some(inner))
    &&& ra.children@.len() <= cols.len()
    &&& forall|c: int|
        0 <= c < ra.children@.len() ==> {
            let ca = #[trigger] ra.children@[c];
            let x = inner.left + col_offset(cols, c, gap);
            let e = (x, y, x + cols[c], y + outer_size(ca).1);
            let ci = placed_inner(ca, e, Some(inner));
            &&& outer_fits(ca)
            &&& fits(x)
            &&& place_fits(ca, e, Some(inner))
            &&& fits(cols[c] + gap)
            &&& fits(x + (cols[c] + gap))
            &&& layout_fits(ca, ci, ci.spec_intersect(clip), clip)
        }
}

/// Whether laying out `n`'s subtree inside the inner rectangle `inner`
/// (clipped: `inner_clipped`), with everything clipped to `clip`, stays
/// within `CoordType` and finds a column for every cell.
#[verifier::opaque]
pub open spec fn layout_fits(n: LayoutNode, inner: Rect, inner_clipped: Rect, clip: Rect) -> bool
    decreases n,
{
    if n.children@.len() == 0 || inner.spec_is_empty() {
        true
    } else if n.content is Table {
        let rows = n.children@;
        let gap = n.content->cell_gap;
        &&& fits(inner.right - inner.left)
        &&& forall|r: int|
            0 <= r < rows.len() ==> {
                let y = inner.top + row_offset(rows, r, gap.height as int);
                let row_h = max_size_h(rows[r].children@, rows[r].children@.len() as int);
                &&& row_fits(#[trigger] rows[r], inner, y, n.content->columns@, gap.width as int, clip)
                &&& fits(row_h + gap.height)
                &&& fits(y + (row_h + gap.height))
            }
    } else if n.content is Scrollarea {
        let ca = n.children@[0];
        let sx = inner.right - inner.left;
        let sy = inner.bottom - inner.top;
        let cy = max_i(ca.intrinsic_size.height as int, sy);
        let oy = clamp_offset(n.content->scroll_offset.y as int, cy - sy);
        let top = inner.top - oy;
        let e = (inner.left as int, top, inner.left + sx, top + cy);
        let ci = placed_inner(ca, e, None);
        &&& fits(sx)
        &&& fits(sy)
        &&& fits(cy - sy)
        &&& place_fits(ca, e, None)
        &&& layout_fits(ca, ci, ci.spec_intersect(inner_clipped), ci.spec_intersect(inner_clipped))
    } else {
        let width = inner.right - inner.left;
        &&& fits(width)
        &&& forall|i: int|
            0 <= i < n.children@.len() ==> {
                let ca = #[trigger] n.children@[i];
                let y = inner.top + sum_size_h(n.children@, i);
                let e = block_outer(inner, ca, y);
                let ci = placed_inner(ca, e, Some(inner));
                &&& outer_fits(ca)
                &&& fits(width - outer_size(ca).0)
                &&& fits(y)
                &&& place_fits(ca, e, Some(inner))
                &&& layout_fits(ca, ci, ci.spec_intersect(clip), clip)
            }
        &&& fits(inner.top + sum_size_h(n.children@, n.children@.len() as int))
    }
}

/// `a` and `b` differ at most in their own rectangles.
pub open spec fn same_but_rects(a: LayoutNode, b: LayoutNode) -> bool {
    &&& b.position == a.position
    &&& b.padding == a.padding
    &&& b.bordered == a.bordered
    &&& b.intrinsic_size == a.intrinsic_size
    &&& b.intrinsic_size_set == a.intrinsic_size_set
    &&& b.content == a.content
    &&& b.children == a.children
}

/// Neither the layout's bounds nor its outcome depend on a node's own rectangles.
proof fn lemma_rects_frame(a: LayoutNode, a2: LayoutNode, b: LayoutNode, inner: Rect, ic: Rect, clip: Rect)
    requires
        same_but_rects(a, a2),
    ensures
        layout_fits(a, inner, ic, clip) == layout_fits(a2, inner, ic, clip),
        laid_out(a, b, clip) == laid_out(a2, b, clip),
        outer_size(a) == outer_size(a2),
        outer_fits(a) == outer_fits(a2),
{
    reveal(layout_fits);
    reveal(laid_out);
}

/// What a block's layout bounds say of its `i`-th child.
proof fn lemma_block_child_fits(a: LayoutNode, clip: Rect, i: int)
    requires
        layout_fits(a, a.inner, a.inner_clipped, clip),
        a.children@.len() > 0,
        !a.inner.spec_is_empty(),
        !(a.content is Table),
        !(a.content is Scrollarea),
        0 <= i < a.children@.len(),
    ensures
        ({
            let ca = a.children@[i];
            let y = a.inner.top + sum_size_h(a.children@, i);
            let e = block_outer(a.inner, ca, y);
            &&& fits(a.inner.right - a.inner.left)
            &&& outer_fits(ca)
            &&& fits(a.inner.right - a.inner.left - outer_size(ca).0)
            &&& fits(y)
            &&& place_fits(ca, e, Some(a.inner))
            &&& layout_fits(
                ca,
                placed_inner(ca, e, Some(a.inner)),
                placed_inner(ca, e, Some(a.inner)).spec_intersect(clip),
                clip,
            )
            &&& fits(y + outer_size(ca).1)
        }),
{
    reveal(layout_fits);
    let ca = a.children@[i];
    assert(layout_fits(ca, placed_inner(ca, block_outer(a.inner, ca, a.inner.top + sum_size_h(a.children@, i)), Some(a.inner)), placed_inner(ca, block_outer(a.inner, ca, a.inner.top + sum_size_h(a.children@, i)), Some(a.inner)).spec_intersect(clip), clip));
    if i + 1 < a.children@.len() {
        let cb = a.children@[i + 1];
        assert(fits(a.inner.top + sum_size_h(a.children@, i + 1)));
    } else {
        assert(fits(a.inner.top + sum_size_h(a.children@, a.children@.len() as int)));
    }
}

impl LayoutNode {
    /// Gives this node the outer rectangle `outer`, the inner one for it, and
    /// both clipped to `clip`.
    fn place(&mut self, outer: Rect, clip: Rect)
        requires
            inner_fits(*old(self), outer),
        ensures
            placed(*final(self), outer, clip),
            same_but_rects(*old(self), *final(self)),
    {
        self.outer = outer;
        self.inner = self.outer_to_inner(outer);
        self.outer_clipped = outer.intersect(clip);
        self.inner_clipped = self.inner.intersect(clip);
    }

    /// Lays out this node's subtree inside its inner rectangle, with
    /// everything clipped to `clip`: a block stacks its children, a table
    /// puts its cells in rows and columns, and a scroll area shifts its
    /// content by its (clamped) scroll offset.
    pub fn layout_children(&mut self, clip: Rect)
        requires
            layout_fits(*old(self), old(self).inner, old(self).inner_clipped, clip),
        ensures
            laid_out(*old(self), *final(self), clip),
            final(self).outer == old(self).outer,
            final(self).inner == old(self).inner,
            final(self).outer_clipped == old(self).outer_clipped,
            final(self).inner_clipped == old(self).inner_clipped,
            same_attrs(*old(self), *final(self)),
            (final(self).content is Scrollarea) == (old(self).content is Scrollarea),
        decreases old(self).children, 1int,
    {
        if self.children.len() == 0 || self.inner.is_empty() {
            proof {
                reveal(laid_out);
            }
            return;
        }
        if matches!(self.content, LayoutContent::Table { .. }) {
            self.layout_table(clip);
        } else if matches!(self.content, LayoutContent::Scrollarea { .. }) {
            self.layout_scrollarea(clip);
        } else {
            self.layout_block(clip);
        }
    }

    /// Places a child of a block at `y` and lays out its subtree.
    fn layout_block_child(child: &mut LayoutNode, inner: Rect, y: CoordType, clip: Rect)
        requires
            fits(inner.right - inner.left),
            outer_fits(*old(child)),
            fits(inner.right - inner.left - outer_size(*old(child)).0),
            place_fits(*old(child), block_outer(inner, *old(child), y as int), Some(inner)),
            layout_fits(
                *old(child),
                placed_inner(*old(child), block_outer(inner, *old(child), y as int), Some(inner)),
                placed_inner(*old(child), block_outer(inner, *old(child), y as int), Some(inner)).spec_intersect(clip),
                clip,
            ),
        ensures
            placed(*final(child), rect_of(block_outer(inner, *old(child), y as int)).spec_intersect(inner), clip),
            laid_out(*old(child), *final(child), clip),
        decreases old(child).children, 2int,
    {
        let ghost ca = *child;
        let width = inner.right - inner.left;
        let size = child.intrinsic_to_outer();
        let remaining = if width - size.width > 0 {
            width - size.width
        } else {
            0
        };
        let left = inner.left + match child.position {
            Position::Stretch | Position::Left => 0,
            Position::Center => remaining / 2,
            Position::Right => remaining,
        };
        let right = left + match child.position {
            Position::Stretch => width,
            _ => size.width,
        };
        let outer = Rect { left, top: y, right, bottom: y + size.height }.intersect(inner);
        child.place(outer, clip);
        proof {
            lemma_rects_frame(ca, *child, *child, child.inner, child.inner_clipped, clip);
        }
        let ghost placed_child = *child;
        child.layout_children(clip);
        proof {
            lemma_rects_frame(ca, placed_child, *child, child.inner, child.inner_clipped, clip);
        }
    }

    /// Lays out a root node whose outer rectangle is `outer` (the viewport,
    /// or where a floating root was put): nothing of it is clipped beyond
    /// that rectangle.
    pub fn layout_root(&mut self, outer: Rect)
        requires
            inner_fits(*old(self), outer),
            layout_fits(
                *old(self),
                rect_of(spec_outer_to_inner(*old(self), outer)),
                rect_of(spec_outer_to_inner(*old(self), outer)),
                outer,
            ),
        ensures
            final(self).outer == outer,
            final(self).inner == rect_of(spec_outer_to_inner(*old(self), outer)),
            final(self).outer_clipped == outer,
            final(self).inner_clipped == final(self).inner,
            laid_out(*old(self), *final(self), outer),
    {
        let ghost a = *self;
        self.outer = outer;
        self.inner = self.outer_to_inner(outer);
        self.outer_clipped = outer;
        self.inner_clipped = self.inner;
        proof {
            lemma_rects_frame(a, *self, *self, self.inner, self.inner_clipped, outer);
        }
        let ghost placed = *self;
        self.layout_children(outer);
        proof {
            lemma_rects_frame(a, placed, *self, self.inner, self.inner_clipped, outer);
        }
    }

    /// Stacks the children from the top of the inner rectangle down.
    #[verifier::spinoff_prover]
    #[verifier::rlimit(60)]
    fn layout_block(&mut self, clip: Rect)
        requires
            layout_fits(*old(self), old(self).inner, old(self).inner_clipped, clip),
            old(self).children@.len() > 0,
            !old(self).inner.spec_is_empty(),
            !(old(self).content is Table),
            !(old(self).content is Scrollarea),
        ensures
            laid_out(*old(self), *final(self), clip),
            final(self).outer == old(self).outer,
            final(self).inner == old(self).inner,
            final(self).outer_clipped == old(self).outer_clipped,
            final(self).inner_clipped == old(self).inner_clipped,
            same_attrs(*old(self), *final(self)),
            (final(self).content is Scrollarea) == (old(self).content is Scrollarea),
        decreases old(self).children, 0int,
    {
        let inner = self.inner;
        let mut y = inner.top;
        let mut kids: Vec<LayoutNode> = Vec::new();
        std::mem::swap(&mut kids, &mut self.children);
        let ghost orig = kids@;
        let ghost a = *old(self);
        let len = kids.len();
        let mut out: Vec<LayoutNode> = Vec::new();
        let mut i: usize = 0;
        while i < len
            invariant
                i <= len,
                orig.len() == len,
                kids@.len() == len - i,
                out@.len() == i,
                a == *old(self),
                orig == a.children@,
                inner == a.inner,
                layout_fits(a, a.inner, a.inner_clipped, clip),
                a.children@.len() > 0,
                !a.inner.spec_is_empty(),
                !(a.content is Table),
                !(a.content is Scrollarea),
                forall|k: int| 0 <= k < len - i ==> kids@[k] == orig[k + i],
                y == inner.top + sum_size_h(orig, i as int),
                forall|k: int|
                    0 <= k < i ==> {
                        &&& placed(
                            out@[k],
                            rect_of(
                                block_outer(inner, #[trigger] orig[k], inner.top + sum_size_h(orig, k)),
                            ).spec_intersect(inner),
                            clip,
                        )
                        &&& laid_out(orig[k], out@[k], clip)
                    },
                self.outer == a.outer,
                self.inner == a.inner,
                self.outer_clipped == a.outer_clipped,
                self.inner_clipped == a.inner_clipped,
                self.position == a.position,
                self.padding == a.padding,
                self.bordered == a.bordered,
                self.intrinsic_size == a.intrinsic_size,
                self.intrinsic_size_set == a.intrinsic_size_set,
                self.content == a.content,
            decreases len - i,
        {
            let mut child = kids.remove(0);
            assert(child == orig[i as int]);
            proof {
                assert(decreases_to!(old(self).children => orig[i as int].children));
            }
            proof {
                lemma_block_child_fits(a, clip, i as int);
            }
            let h = child.intrinsic_to_outer().height;
            Self::layout_block_child(&mut child, inner, y, clip);
            y = y + h;
            out.push(child);
            i += 1;
        }
        self.children = out;
        proof {
            reveal(laid_out);
        }
    }

    /// Shows the content child (the first) shifted up by the scroll offset,
    /// clamped so that the content's end is not scrolled past; the content is
    /// clipped to the scroll area.
    #[verifier::spinoff_prover]
    fn layout_scrollarea(&mut self, clip: Rect)
        requires
            layout_fits(*old(self), old(self).inner, old(self).inner_clipped, clip),
            old(self).children@.len() > 0,
            !old(self).inner.spec_is_empty(),
            old(self).content is Scrollarea,
        ensures
            laid_out(*old(self), *final(self), clip),
            final(self).outer == old(self).outer,
            final(self).inner == old(self).inner,
            final(self).outer_clipped == old(self).outer_clipped,
            final(self).inner_clipped == old(self).inner_clipped,
            same_attrs(*old(self), *final(self)),
            (final(self).content is Scrollarea) == (old(self).content is Scrollarea),
        decreases old(self).children, 0int,
    {
        proof {
            reveal(layout_fits);
            reveal(laid_out);
        }
        let inner = self.inner;
        let ic = self.inner_clipped;
        let sx = inner.right - inner.left;
        let sy = inner.bottom - inner.top;
        let offset_y = match &self.content {
            LayoutContent::Scrollarea { scroll_offset } => scroll_offset.y,
            _ => 0,
        };
        let mut kids: Vec<LayoutNode> = Vec::new();
        std::mem::swap(&mut kids, &mut self.children);
        let ghost orig = kids@;
        let mut content = kids.remove(0);
        assert(content == orig[0]);
        let cy = if content.intrinsic_size.height >= sy {
            content.intrinsic_size.height
        } else {
            sy
        };
        let max = cy - sy;
        let oy = if offset_y < 0 {
            0
        } else if offset_y > max {
            max
        } else {
            offset_y
        };
        self.content = LayoutContent::Scrollarea { scroll_offset: Point { x: 0, y: oy } };
        let top = inner.top - oy;
        let outer = Rect { left: inner.left, top, right: inner.left + sx, bottom: top + cy };
        let ghost ca = content;
        content.place(outer, ic);
        proof {
            assert(decreases_to!(old(self).children => orig[0].children));
            lemma_rects_frame(ca, content, content, content.inner, content.inner_clipped, content.inner_clipped);
        }
        let ghost placed_content = content;
        let cclip = content.inner_clipped;
        content.layout_children(cclip);
        proof {
            lemma_rects_frame(ca, placed_content, content, content.inner, content.inner_clipped, cclip);
        }
        kids.insert(0, content);
        self.children = kids;
        proof {
            assert(self.children@.len() == orig.len());
            assert forall|i: int| 1 <= i < orig.len() implies self.children@[i] == orig[i] by {}
        }
    }

    /// Places a cell of a table at `x`, `y` in a column `w` wide and lays out
    /// its subtree.
    fn layout_table_cell(cell: &mut LayoutNode, inner: Rect, x: CoordType, y: CoordType, w: CoordType, clip: Rect)
        requires
            outer_fits(*old(cell)),
            place_fits(*old(cell), (x as int, y as int, x + w, y + outer_size(*old(cell)).1), Some(inner)),
            layout_fits(
                *old(cell),
                placed_inner(*old(cell), (x as int, y as int, x + w, y + outer_size(*old(cell)).1), Some(inner)),
                placed_inner(*old(cell), (x as int, y as int, x + w, y + outer_size(*old(cell)).1), Some(inner)).spec_intersect(clip),
                clip,
            ),
        ensures
            placed(
                *final(cell),
                rect_of((x as int, y as int, x + w, y + outer_size(*old(cell)).1)).spec_intersect(inner),
                clip,
            ),
            laid_out(*old(cell), *final(cell), clip),
        decreases old(cell).children, 2int,
    {
        let ghost ca = *cell;
        let size = cell.intrinsic_to_outer();
        let outer = Rect { left: x, top: y, right: x + w, bottom: y + size.height }.intersect(inner);
        cell.place(outer, clip);
        proof {
            lemma_rects_frame(ca, *cell, *cell, cell.inner, cell.inner_clipped, clip);
        }
        let ghost placed_cell = *cell;
        cell.layout_children(clip);
        proof {
            lemma_rects_frame(ca, placed_cell, *cell, cell.inner, cell.inner_clipped, clip);
        }
    }

    /// Puts the cells of each row in the table's columns, rows from the top
    /// down with the gap between them.
    #[verifier::spinoff_prover]
    #[verifier::rlimit(60)]
    fn layout_table(&mut self, clip: Rect)
        requires
            layout_fits(*old(self), old(self).inner, old(self).inner_clipped, clip),
            old(self).children@.len() > 0,
            !old(self).inner.spec_is_empty(),
            old(self).content is Table,
        ensures
            laid_out(*old(self), *final(self), clip),
            final(self).outer == old(self).outer,
            final(self).inner == old(self).inner,
            final(self).outer_clipped == old(self).outer_clipped,
            final(self).inner_clipped == old(self).inner_clipped,
            same_attrs(*old(self), *final(self)),
            (final(self).content is Scrollarea) == (old(self).content is Scrollarea),
        decreases old(self).children, 0int,
    {
        proof {
            reveal(layout_fits);
        }
        let ghost a = *old(self);
        let inner = self.inner;
        let width = inner.right - inner.left;
        let mut content = LayoutContent::Block;
        std::mem::swap(&mut content, &mut self.content);
        let (columns, gap) = match content {
            LayoutContent::Table { columns, cell_gap } => (columns, cell_gap),
            _ => (Vec::new(), Size { width: 0, height: 0 }),
        };
        let mut rows: Vec<LayoutNode> = Vec::new();
        std::mem::swap(&mut rows, &mut self.children);
        let ghost orig = rows@;
        let nrows = rows.len();
        let mut out: Vec<LayoutNode> = Vec::new();
        let mut y = inner.top;
        let mut r: usize = 0;
        while r < nrows
            invariant
                r <= nrows,
                orig.len() == nrows,
                rows@.len() == nrows - r,
                out@.len() == r,
                a == *old(self),
                orig == a.children@,
                inner == a.inner,
                width == inner.right - inner.left,
                a.content is Table,
                columns@ == a.content->columns@,
                gap == a.content->cell_gap,
                layout_fits(a, a.inner, a.inner_clipped, clip),
                !a.inner.spec_is_empty(),
                forall|k: int| 0 <= k < nrows - r ==> rows@[k] == orig[k + r],
                y == inner.top + row_offset(orig, r as int, gap.height as int),
                forall|k: int|
                    0 <= k < r ==> row_laid_out(
                        #[trigger] orig[k],
                        out@[k],
                        inner,
                        inner.top + row_offset(orig, k, gap.height as int),
                        columns@,
                        gap.width as int,
                        clip,
                    ),
                self.outer == a.outer,
                self.inner == a.inner,
                self.outer_clipped == a.outer_clipped,
                self.inner_clipped == a.inner_clipped,
                self.position == a.position,
                self.padding == a.padding,
                self.bordered == a.bordered,
                self.intrinsic_size == a.intrinsic_size,
                self.intrinsic_size_set == a.intrinsic_size_set,
            decreases nrows - r,
        {
            let mut row = rows.remove(0);
            assert(row == orig[r as int]);
            proof {
                reveal(layout_fits);
                assert(decreases_to!(old(self).children => orig[r as int].children));
            }
            let row_height = Self::layout_table_row(&mut row, inner, y, &columns, gap.width, clip);
            y = y + (row_height + gap.height);
            out.push(row);
            r += 1;
        }
        self.children = out;
        self.content = LayoutContent::Table { columns, cell_gap: gap };
        proof {
            reveal(laid_out);
        }
    }

    /// Places a row of a table at `y` across the table and its cells in the
    /// columns; returns the row's height, its tallest cell.
    #[verifier::spinoff_prover]
    fn layout_table_row(
        row: &mut LayoutNode,
        inner: Rect,
        y: CoordType,
        columns: &Vec<CoordType>,
        gap_w: CoordType,
        clip: Rect,
    ) -> (h: CoordType)
        requires
            fits(inner.right - inner.left),
            row_fits(*old(row), inner, y as int, columns@, gap_w as int, clip),
        ensures
            row_laid_out(*old(row), *final(row), inner, y as int, columns@, gap_w as int, clip),
            h == max_size_h(old(row).children@, old(row).children@.len() as int),
        decreases old(row).children, 3int,
    {
        proof {
            reveal(row_fits);
        }
        let ghost ra = *row;
        let width = inner.right - inner.left;
        let size = row.intrinsic_to_outer();
        let outer = Rect { left: inner.left, top: y, right: inner.left + width, bottom: y + size.height }.intersect(
            inner,
        );
        row.place(outer, clip);
        let mut cells: Vec<LayoutNode> = Vec::new();
        std::mem::swap(&mut cells, &mut row.children);
        let ghost orig = cells@;
        let ncells = cells.len();
        let mut out: Vec<LayoutNode> = Vec::new();
        let mut x = inner.left;
        let mut row_height: CoordType = 0;
        let mut c: usize = 0;
        while c < ncells
            invariant
                c <= ncells,
                orig.len() == ncells,
                orig == ra.children@,
                ra == *old(row),
                row_fits(ra, inner, y as int, columns@, gap_w as int, clip),
                cells@.len() == ncells - c,
                out@.len() == c,
                forall|k: int| 0 <= k < ncells - c ==> cells@[k] == orig[k + c],
                x == inner.left + col_offset(columns@, c as int, gap_w as int),
                row_height == max_size_h(orig, c as int),
                forall|k: int|
                    0 <= k < c ==> {
                        let ca = #[trigger] orig[k];
                        let xk = inner.left + col_offset(columns@, k, gap_w as int);
                        &&& placed(
                            out@[k],
                            rect_of((xk, y as int, xk + columns@[k], y + outer_size(ca).1)).spec_intersect(inner),
                            clip,
                        )
                        &&& laid_out(ca, out@[k], clip)
                    },
                placed(*row, rect_of((inner.left as int, y as int, inner.left + width, y + outer_size(ra).1)).spec_intersect(inner), clip),
                row.position == ra.position,
                row.padding == ra.padding,
                row.bordered == ra.bordered,
                row.intrinsic_size == ra.intrinsic_size,
                row.intrinsic_size_set == ra.intrinsic_size_set,
                row.content == ra.content,
            decreases ncells - c,
        {
            let mut cell = cells.remove(0);
            assert(cell == orig[c as int]);
            proof {
                reveal(row_fits);
                assert(decreases_to!(old(row).children => orig[c as int].children));
            }
            let h = cell.intrinsic_to_outer().height;
            let w = columns[c];
            Self::layout_table_cell(&mut cell, inner, x, y, w, clip);
            x = x + (w + gap_w);
            row_height = if h > row_height {
                h
            } else {
                row_height
            };
            out.push(cell);
            c += 1;
        }
        row.children = out;
        proof {
            reveal(row_laid_out);
        }
        row_height
    }
}

/// Layout keeps a block's children inside the block: every point of a
/// child's outer rectangle lies in the block's inner rectangle.
pub proof fn lemma_block_children_inside(a: LayoutNode, b: LayoutNode, clip: Rect, i: int, p: Point)
    requires
        laid_out(a, b, clip),
        !(a.content is Table),
        !(a.content is Scrollarea),
        !b.inner.spec_is_empty(),
        0 <= i < b.children@.len(),
        b.children@[i].outer.spec_contains(p),
    ensures
        b.inner.spec_contains(p),
{
    reveal(laid_out);
    let e = block_outer(b.inner, a.children@[i], b.inner.top + sum_size_h(a.children@, i));
    crate::helpers::lemma_intersect_contains(rect_of(e), b.inner, p);
}

/// Layout keeps a table's cells inside the table: every point of a cell's
/// outer rectangle lies in the table's inner rectangle.
pub proof fn lemma_table_cells_inside(a: LayoutNode, b: LayoutNode, clip: Rect, r: int, c: int, p: Point)
    requires
        laid_out(a, b, clip),
        a.content is Table,
        !b.inner.spec_is_empty(),
        0 <= r < b.children@.len(),
        0 <= c < b.children@[r].children@.len(),
        b.children@[r].children@[c].outer.spec_contains(p),
    ensures
        b.inner.spec_contains(p),
{
    reveal(laid_out);
    reveal(row_laid_out);
    let rows = a.children@;
    let gap = a.content->cell_gap;
    let y = b.inner.top + row_offset(rows, r, gap.height as int);
    assert(row_laid_out(rows[r], b.children@[r], b.inner, y, a.content->columns@, gap.width as int, clip));
    let ca = rows[r].children@[c];
    let x = b.inner.left + col_offset(a.content->columns@, c, gap.width as int);
    let e = (x, y, x + a.content->columns@[c], y + outer_size(ca).1);
    crate::helpers::lemma_intersect_contains(rect_of(e), b.inner, p);
}

} // verus!
