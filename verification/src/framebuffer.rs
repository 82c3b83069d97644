//! A framebuffer for terminal applications: per-cell colors and VT text
//! attributes for a front and a back frame, plus the cursor.
//!
//! Cells are stored row by row: the cell at column `x` of row `y` sits at
//! index `y * width + x`.

use vstd::prelude::*;
use vstd::arithmetic::div_mod::{lemma_fundamental_div_mod_converse, lemma_mod_bound};
use crate::helpers::{CoordType, Point, Rect, Size};
use crate::oklab::StraightRgba;
use crate::text::{decimal, push_decimal, extend_bytes};

verus! {

/// Standard 16 VT colors and the default foreground/background colors.
#[derive(Clone, Copy, Debug, PartialEq, Eq, Structural)]
pub enum IndexedColor {
    Black,
    Red,
    Green,
    Yellow,
    Blue,
    Magenta,
    Cyan,
    White,
    BrightBlack,
    BrightRed,
    BrightGreen,
    BrightYellow,
    BrightBlue,
    BrightMagenta,
    BrightCyan,
    BrightWhite,
    Background,
    Foreground,
}

/// Number of indices used by [`IndexedColor`].
pub const INDEXED_COLORS_COUNT: usize = 18;

/// The palette slot of each color, in declaration order.
pub open spec fn color_index(c: IndexedColor) -> int {
    match c {
        IndexedColor::Black => 0,
        IndexedColor::Red => 1,
        IndexedColor::Green => 2,
        IndexedColor::Yellow => 3,
        IndexedColor::Blue => 4,
        IndexedColor::Magenta => 5,
        IndexedColor::Cyan => 6,
        IndexedColor::White => 7,
        IndexedColor::BrightBlack => 8,
        IndexedColor::BrightRed => 9,
        IndexedColor::BrightGreen => 10,
        IndexedColor::BrightYellow => 11,
        IndexedColor::BrightBlue => 12,
        IndexedColor::BrightMagenta => 13,
        IndexedColor::BrightCyan => 14,
        IndexedColor::BrightWhite => 15,
        IndexedColor::Background => 16,
        IndexedColor::Foreground => 17,
    }
}

/// The color in palette slot `i` (slots 0 to 15; anything else is
/// `BrightWhite`, which no caller asks for).
pub open spec fn color_at(i: int) -> IndexedColor {
    if i == 0 {
        IndexedColor::Black
    } else if i == 1 {
        IndexedColor::Red
    } else if i == 2 {
        IndexedColor::Green
    } else if i == 3 {
        IndexedColor::Yellow
    } else if i == 4 {
        IndexedColor::Blue
    } else if i == 5 {
        IndexedColor::Magenta
    } else if i == 6 {
        IndexedColor::Cyan
    } else if i == 7 {
        IndexedColor::White
    } else if i == 8 {
        IndexedColor::BrightBlack
    } else if i == 9 {
        IndexedColor::BrightRed
    } else if i == 10 {
        IndexedColor::BrightGreen
    } else if i == 11 {
        IndexedColor::BrightYellow
    } else if i == 12 {
        IndexedColor::BrightBlue
    } else if i == 13 {
        IndexedColor::BrightMagenta
    } else if i == 14 {
        IndexedColor::BrightCyan
    } else {
        IndexedColor::BrightWhite
    }
}

impl IndexedColor {
    /// The palette slot of this color.
    pub fn index(self) -> (i: usize)
        ensures
            i == color_index(self),
            i < INDEXED_COLORS_COUNT,
    {
        match self {
            IndexedColor::Black => 0,
            IndexedColor::Red => 1,
            IndexedColor::Green => 2,
            IndexedColor::Yellow => 3,
            IndexedColor::Blue => 4,
            IndexedColor::Magenta => 5,
            IndexedColor::Cyan => 6,
            IndexedColor::White => 7,
            IndexedColor::BrightBlack => 8,
            IndexedColor::BrightRed => 9,
            IndexedColor::BrightGreen => 10,
            IndexedColor::BrightYellow => 11,
            IndexedColor::BrightBlue => 12,
            IndexedColor::BrightMagenta => 13,
            IndexedColor::BrightCyan => 14,
            IndexedColor::BrightWhite => 15,
            IndexedColor::Background => 16,
            IndexedColor::Foreground => 17,
        }
    }
}

impl From<u8> for IndexedColor {
    /// The color whose slot is the low four bits of `value` (one of the 16 VT colors).
    fn from(value: u8) -> (c: Self) {
        let i = value & 0xF;
        assert(i < 16) by (bit_vector)
            requires i == value & 0xF;
        if i == 0 {
            IndexedColor::Black
        } else if i == 1 {
            IndexedColor::Red
        } else if i == 2 {
            IndexedColor::Green
        } else if i == 3 {
            IndexedColor::Yellow
        } else if i == 4 {
            IndexedColor::Blue
        } else if i == 5 {
            IndexedColor::Magenta
        } else if i == 6 {
            IndexedColor::Cyan
        } else if i == 7 {
            IndexedColor::White
        } else if i == 8 {
            IndexedColor::BrightBlack
        } else if i == 9 {
            IndexedColor::BrightRed
        } else if i == 10 {
            IndexedColor::BrightGreen
        } else if i == 11 {
            IndexedColor::BrightYellow
        } else if i == 12 {
            IndexedColor::BrightBlue
        } else if i == 13 {
            IndexedColor::BrightMagenta
        } else if i == 14 {
            IndexedColor::BrightCyan
        } else {
            IndexedColor::BrightWhite
        }
    }
}

impl vstd::std_specs::convert::FromSpecImpl<u8> for IndexedColor {
    open spec fn obeys_from_spec() -> bool {
        true
    }

    open spec fn from_spec(v: u8) -> Self {
        color_at((v & 0xF) as int)
    }
}

/// A bitfield of VT text attributes. Being a bitfield allows simple diffing.
#[derive(Clone, Copy, Debug, Default, PartialEq, Eq, Structural)]
pub struct Attributes(pub u8);

impl Attributes {
    /// No attribute.
    pub fn none() -> (a: Attributes)
        ensures
            a.0 == 0,
    {
        Attributes(0)
    }

    /// Bold text.
    pub fn bold() -> (a: Attributes)
        ensures
            a.0 == 1,
    {
        Attributes(1)
    }

    /// Italic text.
    pub fn italic() -> (a: Attributes)
        ensures
            a.0 == 2,
    {
        Attributes(2)
    }

    /// Underlined text.
    pub fn underlined() -> (a: Attributes)
        ensures
            a.0 == 4,
    {
        Attributes(4)
    }

    /// Struck-through text.
    pub fn strikethrough() -> (a: Attributes)
        ensures
            a.0 == 8,
    {
        Attributes(8)
    }

    /// Every attribute bit.
    pub fn all() -> (a: Attributes)
        ensures
            a.0 == 15,
    {
        Attributes(15)
    }

    /// Whether every bit of `attr` is set in `self`.
    pub fn is(self, attr: Self) -> (b: bool)
        ensures
            b == (self.0 & attr.0 == attr.0),
    {
        (self.0 & attr.0) == attr.0
    }
}

impl core::ops::BitOr for Attributes {
    type Output = Self;

    fn bitor(self, rhs: Self) -> (r: Self) {
        Attributes(self.0 | rhs.0)
    }
}

impl vstd::std_specs::ops::BitOrSpecImpl for Attributes {
    open spec fn obeys_bitor_spec() -> bool {
        true
    }

    open spec fn bitor_req(self, rhs: Self) -> bool {
        true
    }

    open spec fn bitor_spec(self, rhs: Self) -> Self {
        Attributes(self.0 | rhs.0)
    }
}

impl core::ops::BitXor for Attributes {
    type Output = Self;

    fn bitxor(self, rhs: Self) -> (r: Self) {
        Attributes(self.0 ^ rhs.0)
    }
}

impl vstd::std_specs::ops::BitXorSpecImpl for Attributes {
    open spec fn obeys_bitxor_spec() -> bool {
        true
    }

    open spec fn bitxor_req(self, rhs: Self) -> bool {
        true
    }

    open spec fn bitxor_spec(self, rhs: Self) -> Self {
        Attributes(self.0 ^ rhs.0)
    }
}

/// Whether a grid of `size` cells is well formed: no negative side, and a
/// cell count that fits in memory.
pub open spec fn valid_size(size: Size) -> bool {
    size.width >= 0 && size.height >= 0 && size.width * size.height <= isize::MAX
}

/// The number of cells in a grid of `size`.
pub open spec fn cell_count(size: Size) -> int {
    size.width * size.height
}

/// Whether cell index `i` of a grid `w` cells wide lies inside `r`.
pub open spec fn cell_in_rect(i: int, w: int, r: Rect) -> bool {
    r.left <= i % w < r.right && r.top <= i / w < r.bottom
}

/// The index of the cell at column `x`, row `y` is in range and maps back
/// to that column and row.
proof fn lemma_cell(w: int, h: int, x: int, y: int)
    requires
        0 <= x < w,
        0 <= y < h,
    ensures
        0 <= y * w + x < h * w,
        y * w + x < w * h,
        (y * w + x) / w == y,
        (y * w + x) % w == x,
{
    lemma_fundamental_div_mod_converse(y * w + x, w, y, x);
    assert(0 <= y * w) by (nonlinear_arith)
        requires
            0 <= y,
            0 <= w,
    ;
    assert(y * w + x < h * w && h * w == w * h) by (nonlinear_arith)
        requires
            0 <= x < w,
            0 <= y < h,
    ;
}

/// Every index below `w * h` names a column below `w` and a row below `h`.
proof fn lemma_cell_of(w: int, h: int, i: int)
    requires
        w > 0,
        h >= 0,
        0 <= i < w * h,
    ensures
        0 <= i % w < w,
        0 <= i / w < h,
{
    lemma_mod_bound(i, w);
    vstd::arithmetic::div_mod::lemma_fundamental_div_mod(i, w);
    vstd::arithmetic::div_mod::lemma_div_pos_is_pos(i, w);
    assert(i / w < h) by (nonlinear_arith)
        requires
            i == w * (i / w) + i % w,
            0 <= i % w,
            i < w * h,
            w > 0,
    ;
}

/// Two indices with the same row and column are the same index.
proof fn lemma_cell_unique(w: int, i: int, j: int)
    requires
        w > 0,
        i / w == j / w,
        i % w == j % w,
    ensures
        i == j,
{
    vstd::arithmetic::div_mod::lemma_fundamental_div_mod(i, w);
    vstd::arithmetic::div_mod::lemma_fundamental_div_mod(j, w);
}

/// The attribute a cell holds after `replace` with `mask` and `attr`: with
/// every bit masked, exactly `attr`; otherwise the unmasked bits kept and
/// `attr` added.
pub open spec fn replaced_attr(a: Attributes, mask: Attributes, attr: Attributes) -> Attributes {
    if mask.0 == 15 {
        attr
    } else {
        Attributes(a.0 & !mask.0 | attr.0)
    }
}

/// VT attributes of every cell.
pub struct AttributeBuffer {
    pub data: Vec<Attributes>,
    pub size: Size,
}

impl AttributeBuffer {
    /// One attribute per cell, and a well-formed size.
    pub open spec fn wf(&self) -> bool {
        valid_size(self.size) && self.data.len() == cell_count(self.size)
    }

    /// A buffer of `size` with no attribute set anywhere.
    pub fn new(size: Size) -> (b: Self)
        requires
            valid_size(size),
        ensures
            b.wf(),
            b.size == size,
            forall|i: int| 0 <= i < b.data.len() ==> b.data[i] == Attributes(0),
    {
        let n = (size.width * size.height) as usize;
        AttributeBuffer { data: vec![Attributes(0); n], size }
    }

    /// Clears every attribute.
    pub fn reset(&mut self)
        ensures
            final(self).size == old(self).size,
            final(self).data.len() == old(self).data.len(),
            forall|i: int| 0 <= i < final(self).data.len() ==> final(self).data[i] == Attributes(0),
    {
        let n = self.data.len();
        let mut i: usize = 0;
        while i < n
            invariant
                self.size == old(self).size,
                self.data.len() == n,
                n == old(self).data.len(),
                i <= n,
                forall|k: int| 0 <= k < i ==> self.data[k] == Attributes(0),
            decreases n - i,
        {
            self.data.set(i, Attributes(0));
            i += 1;
        }
    }

    /// Replaces the attributes in `target` (clipped to the buffer): bits in
    /// `mask` are cleared and `attr` is set.
    pub fn replace(&mut self, target: Rect, mask: Attributes, attr: Attributes)
        requires
            old(self).wf(),
        ensures
            final(self).wf(),
            final(self).size == old(self).size,
            forall|i: int|
                0 <= i < final(self).data.len() ==> final(self).data[i] == if cell_in_rect(
                    i,
                    old(self).size.width as int,
                    target,
                ) {
                    replaced_attr(old(self).data[i], mask, attr)
                } else {
                    old(self).data[i]
                },
    {
        let t = target.intersect(self.size.as_rect());
        let ghost w = self.size.width as int;
        let ghost h = self.size.height as int;
        if t.is_empty() {
            proof {
                assert forall|i: int| 0 <= i < self.data.len() implies !cell_in_rect(i, w, target) by {
                    lemma_cell_of(w, h, i);
                }
            }
            return;
        }
        let stride = self.size.width as usize;
        let top = t.top as usize;
        let bottom = t.bottom as usize;
        let left = t.left as usize;
        let right = t.right as usize;
        proof {
            assert forall|i: int| 0 <= i < self.data.len() && cell_in_rect(i, w, target) implies (left
                <= i % w < right && top <= i / w < bottom) by {
                lemma_cell_of(w, h, i);
            }
        }
        let mut y = top;
        while y < bottom
            invariant
                self.size == old(self).size,
                self.wf(),
                old(self).data.len() == self.data.len(),
                w == self.size.width,
                h == self.size.height,
                stride == w,
                w > 0,
                0 <= top <= y <= bottom <= h,
                0 <= left < right <= w,
                top >= target.top,
                bottom <= target.bottom,
                left >= target.left,
                right <= target.right,
                forall|i: int|
                    0 <= i < self.data.len() && #[trigger] cell_in_rect(i, w, target) ==> (left <= i
                        % w < right && top <= i / w < bottom),
                forall|i: int|
                    0 <= i < self.data.len() ==> #[trigger] self.data[i] == if cell_in_rect(
                        i,
                        w,
                        target,
                    ) && i / w < y {
                        replaced_attr(old(self).data[i], mask, attr)
                    } else {
                        old(self).data[i]
                    },
            decreases bottom - y,
        {
            let mut x = left;
            while x < right
                invariant
                    self.size == old(self).size,
                    self.wf(),
                    old(self).data.len() == self.data.len(),
                    w == self.size.width,
                    h == self.size.height,
                    stride == w,
                    w > 0,
                    0 <= top <= y < bottom <= h,
                    0 <= left <= x <= right <= w,
                    top >= target.top,
                    bottom <= target.bottom,
                    left >= target.left,
                    right <= target.right,
                    forall|i: int|
                        0 <= i < self.data.len() && #[trigger] cell_in_rect(i, w, target) ==> (left
                            <= i % w < right && top <= i / w < bottom),
                    forall|i: int|
                        0 <= i < self.data.len() ==> #[trigger] self.data[i] == if cell_in_rect(
                            i,
                            w,
                            target,
                        ) && (i / w < y || (i / w == y && i % w < x)) {
                            replaced_attr(old(self).data[i], mask, attr)
                        } else {
                            old(self).data[i]
                        },
                decreases right - x,
            {
                proof {
                    lemma_cell(w, h, x as int, y as int);
                }
                let idx = y * stride + x;
                let ghost before = self.data@;
                let cur = self.data[idx];
                let v = if mask.0 == 15 {
                    attr
                } else {
                    Attributes(cur.0 & !mask.0 | attr.0)
                };
                self.data.set(idx, v);
                proof {
                    assert(cell_in_rect(idx as int, w, target));
                    assert forall|i: int| 0 <= i < self.data.len() implies #[trigger] self.data[i]
                        == if cell_in_rect(i, w, target) && (i / w < y || (i / w == y && i % w < x
                        + 1)) {
                        replaced_attr(old(self).data[i], mask, attr)
                    } else {
                        old(self).data[i]
                    } by {
                        if i != idx {
                            assert(self.data[i] == before[i]);
                            if i / w == y && i % w == x {
                                lemma_cell_unique(w, i, idx as int);
                            }
                        }
                    }
                }
                x += 1;
            }
            y += 1;
        }
    }
}

/// Sets every cell of `data` (a grid of `size`) that lies in `target` to `value`.
fn fill_cells<T: Copy>(data: &mut Vec<T>, size: Size, target: Rect, value: T)
    requires
        valid_size(size),
        old(data).len() == cell_count(size),
    ensures
        final(data).len() == old(data).len(),
        forall|i: int|
            0 <= i < final(data).len() ==> #[trigger] final(data)[i] == if cell_in_rect(
                i,
                size.width as int,
                target,
            ) {
                value
            } else {
                old(data)[i]
            },
{
    let t = target.intersect(size.as_rect());
    let ghost w = size.width as int;
    let ghost h = size.height as int;
    if t.is_empty() {
        proof {
            assert forall|i: int| 0 <= i < data.len() implies !cell_in_rect(i, w, target) by {
                lemma_cell_of(w, h, i);
            }
        }
        return;
    }
    let stride = size.width as usize;
    let top = t.top as usize;
    let bottom = t.bottom as usize;
    let left = t.left as usize;
    let right = t.right as usize;
    proof {
        assert forall|i: int| 0 <= i < data.len() && cell_in_rect(i, w, target) implies (left <= i
            % w < right && top <= i / w < bottom) by {
            lemma_cell_of(w, h, i);
        }
    }
    let mut y = top;
    while y < bottom
        invariant
            data.len() == old(data).len(),
            data.len() == w * h,
            valid_size(size),
            w == size.width,
            h == size.height,
            stride == w,
            w > 0,
            0 <= top <= y <= bottom <= h,
            0 <= left < right <= w,
            top >= target.top,
            bottom <= target.bottom,
            left >= target.left,
            right <= target.right,
            forall|i: int|
                0 <= i < data.len() && #[trigger] cell_in_rect(i, w, target) ==> (left <= i % w
                    < right && top <= i / w < bottom),
            forall|i: int|
                0 <= i < data.len() ==> #[trigger] data[i] == if cell_in_rect(i, w, target) && i / w
                    < y {
                    value
                } else {
                    old(data)[i]
                },
        decreases bottom - y,
    {
        let mut x = left;
        while x < right
            invariant
                data.len() == old(data).len(),
                data.len() == w * h,
                valid_size(size),
                w == size.width,
                h == size.height,
                stride == w,
                w > 0,
                0 <= top <= y < bottom <= h,
                0 <= left <= x <= right <= w,
                top >= target.top,
                bottom <= target.bottom,
                left >= target.left,
                right <= target.right,
                forall|i: int|
                    0 <= i < data.len() && #[trigger] cell_in_rect(i, w, target) ==> (left <= i % w
                        < right && top <= i / w < bottom),
                forall|i: int|
                    0 <= i < data.len() ==> #[trigger] data[i] == if cell_in_rect(i, w, target) && (i
                        / w < y || (i / w == y && i % w < x)) {
                        value
                    } else {
                        old(data)[i]
                    },
            decreases right - x,
        {
            proof {
                lemma_cell(w, h, x as int, y as int);
            }
            let idx = y * stride + x;
            let ghost before = data@;
            data.set(idx, value);
            proof {
                assert(cell_in_rect(idx as int, w, target));
                assert forall|i: int| 0 <= i < data.len() implies #[trigger] data[i] == if cell_in_rect(
                    i,
                    w,
                    target,
                ) && (i / w < y || (i / w == y && i % w < x + 1)) {
                    value
                } else {
                    old(data)[i]
                } by {
                    if i != idx {
                        assert(data[i] == before[i]);
                        if i / w == y && i % w == x {
                            lemma_cell_unique(w, i, idx as int);
                        }
                    }
                }
            }
            x += 1;
        }
        y += 1;
    }
}

/// A bitmap of colors, one per cell.
pub struct Bitmap {
    pub data: Vec<StraightRgba>,
    pub size: Size,
}

impl Bitmap {
    /// One color per cell, and a well-formed size.
    pub open spec fn wf(&self) -> bool {
        valid_size(self.size) && self.data.len() == cell_count(self.size)
    }

    /// A bitmap of `size`, transparent black everywhere.
    pub fn new(size: Size) -> (b: Self)
        requires
            valid_size(size),
        ensures
            b.wf(),
            b.size == size,
            forall|i: int| 0 <= i < b.data.len() ==> b.data[i].0 == 0,
    {
        let n = (size.width * size.height) as usize;
        Bitmap { data: vec![StraightRgba::zero(); n], size }
    }

    /// Sets every cell to `color`.
    pub fn fill(&mut self, color: StraightRgba)
        ensures
            final(self).size == old(self).size,
            final(self).data.len() == old(self).data.len(),
            forall|i: int| 0 <= i < final(self).data.len() ==> final(self).data[i] == color,
    {
        let n = self.data.len();
        let mut i: usize = 0;
        while i < n
            invariant
                self.size == old(self).size,
                self.data.len() == n,
                n == old(self).data.len(),
                i <= n,
                forall|k: int| 0 <= k < i ==> self.data[k] == color,
            decreases n - i,
        {
            self.data.set(i, color);
            i += 1;
        }
    }

    /// Sets every cell in `target` (clipped to the bitmap) to `color`: what
    /// blending an opaque color does.
    pub fn fill_rect(&mut self, target: Rect, color: StraightRgba)
        requires
            old(self).wf(),
        ensures
            final(self).wf(),
            final(self).size == old(self).size,
            forall|i: int|
                0 <= i < final(self).data.len() ==> #[trigger] final(self).data[i] == if cell_in_rect(
                    i,
                    old(self).size.width as int,
                    target,
                ) {
                    color
                } else {
                    old(self).data[i]
                },
    {
        fill_cells(&mut self.data, self.size, target, color);
    }
}

/// Exchanges, cell by cell, the parts of `a` and `b` (both grids of `size`)
/// that lie in `target`.
fn swap_cells<T: Copy>(a: &mut Vec<T>, b: &mut Vec<T>, size: Size, target: Rect)
    requires
        valid_size(size),
        old(a).len() == cell_count(size),
        old(b).len() == cell_count(size),
    ensures
        final(a).len() == old(a).len(),
        final(b).len() == old(b).len(),
        forall|i: int|
            0 <= i < final(a).len() ==> #[trigger] final(a)[i] == if cell_in_rect(
                i,
                size.width as int,
                target,
            ) {
                old(b)[i]
            } else {
                old(a)[i]
            },
        forall|i: int|
            0 <= i < final(b).len() ==> #[trigger] final(b)[i] == if cell_in_rect(
                i,
                size.width as int,
                target,
            ) {
                old(a)[i]
            } else {
                old(b)[i]
            },
{
    let t = target.intersect(size.as_rect());
    let ghost w = size.width as int;
    let ghost h = size.height as int;
    if t.is_empty() {
        proof {
            assert forall|i: int| 0 <= i < a.len() implies !cell_in_rect(i, w, target) by {
                lemma_cell_of(w, h, i);
            }
        }
        return;
    }
    let stride = size.width as usize;
    let top = t.top as usize;
    let bottom = t.bottom as usize;
    let left = t.left as usize;
    let right = t.right as usize;
    proof {
        assert forall|i: int| 0 <= i < a.len() && cell_in_rect(i, w, target) implies (left <= i % w
            < right && top <= i / w < bottom) by {
            lemma_cell_of(w, h, i);
        }
    }
    let mut y = top;
    while y < bottom
        invariant
            a.len() == old(a).len(),
            b.len() == old(b).len(),
            a.len() == w * h,
            b.len() == w * h,
            valid_size(size),
            w == size.width,
            h == size.height,
            stride == w,
            w > 0,
            0 <= top <= y <= bottom <= h,
            0 <= left < right <= w,
            top >= target.top,
            bottom <= target.bottom,
            left >= target.left,
            right <= target.right,
            forall|i: int|
                0 <= i < a.len() && #[trigger] cell_in_rect(i, w, target) ==> (left <= i % w < right
                    && top <= i / w < bottom),
            forall|i: int|
                0 <= i < a.len() ==> #[trigger] a[i] == if cell_in_rect(i, w, target) && i / w < y {
                    old(b)[i]
                } else {
                    old(a)[i]
                },
            forall|i: int|
                0 <= i < b.len() ==> #[trigger] b[i] == if cell_in_rect(i, w, target) && i / w < y {
                    old(a)[i]
                } else {
                    old(b)[i]
                },
        decreases bottom - y,
    {
        let mut x = left;
        while x < right
            invariant
                a.len() == old(a).len(),
                b.len() == old(b).len(),
                a.len() == w * h,
                b.len() == w * h,
                valid_size(size),
                w == size.width,
                h == size.height,
                stride == w,
                w > 0,
                0 <= top <= y < bottom <= h,
                0 <= left <= x <= right <= w,
                top >= target.top,
                bottom <= target.bottom,
                left >= target.left,
                right <= target.right,
                forall|i: int|
                    0 <= i < a.len() && #[trigger] cell_in_rect(i, w, target) ==> (left <= i % w
                        < right && top <= i / w < bottom),
                forall|i: int|
                    0 <= i < a.len() ==> #[trigger] a[i] == if cell_in_rect(i, w, target) && (i / w
                        < y || (i / w == y && i % w < x)) {
                        old(b)[i]
                    } else {
                        old(a)[i]
                    },
                forall|i: int|
                    0 <= i < b.len() ==> #[trigger] b[i] == if cell_in_rect(i, w, target) && (i / w
                        < y || (i / w == y && i % w < x)) {
                        old(a)[i]
                    } else {
                        old(b)[i]
                    },
            decreases right - x,
        {
            proof {
                lemma_cell(w, h, x as int, y as int);
            }
            let idx = y * stride + x;
            let ghost before_a = a@;
            let ghost before_b = b@;
            let va = a[idx];
            let vb = b[idx];
            a.set(idx, vb);
            b.set(idx, va);
            proof {
                assert(cell_in_rect(idx as int, w, target));
                assert forall|i: int| 0 <= i < a.len() implies #[trigger] a[i] == if cell_in_rect(
                    i,
                    w,
                    target,
                ) && (i / w < y || (i / w == y && i % w < x + 1)) {
                    old(b)[i]
                } else {
                    old(a)[i]
                } by {
                    if i != idx {
                        assert(a[i] == before_a[i]);
                        if i / w == y && i % w == x {
                            lemma_cell_unique(w, i, idx as int);
                        }
                    }
                }
                assert forall|i: int| 0 <= i < b.len() implies #[trigger] b[i] == if cell_in_rect(
                    i,
                    w,
                    target,
                ) && (i / w < y || (i / w == y && i % w < x + 1)) {
                    old(a)[i]
                } else {
                    old(b)[i]
                } by {
                    if i != idx {
                        assert(b[i] == before_b[i]);
                        if i / w == y && i % w == x {
                            lemma_cell_unique(w, i, idx as int);
                        }
                    }
                }
            }
            x += 1;
        }
        y += 1;
    }
}

/// The bytes of `n` spaces.
pub open spec fn spaces(n: int) -> Seq<u8> {
    Seq::new(n as nat, |i: int| 0x20u8)
}

/// The text of every row.
pub struct LineBuffer {
    pub lines: Vec<Vec<u8>>,
    pub size: Size,
}

impl LineBuffer {
    /// One line per row, and a well-formed size.
    pub open spec fn wf(&self) -> bool {
        valid_size(self.size) && self.lines.len() == self.size.height
    }

    /// A buffer of `size` whose lines are all empty.
    pub fn new(size: Size) -> (b: Self)
        requires
            valid_size(size),
        ensures
            b.wf(),
            b.size == size,
            forall|i: int| 0 <= i < b.lines.len() ==> (#[trigger] b.lines[i])@.len() == 0,
    {
        let n = size.height as usize;
        let mut lines: Vec<Vec<u8>> = Vec::new();
        let mut i: usize = 0;
        while i < n
            invariant
                i <= n,
                lines.len() == i,
                forall|k: int| 0 <= k < i ==> (#[trigger] lines[k])@.len() == 0,
            decreases n - i,
        {
            lines.push(Vec::new());
            i += 1;
        }
        LineBuffer { lines, size }
    }

    /// Makes every line exactly as many spaces as the buffer is wide.
    pub fn fill_whitespace(&mut self)
        requires
            valid_size(old(self).size),
        ensures
            final(self).size == old(self).size,
            final(self).lines.len() == old(self).lines.len(),
            forall|i: int|
                0 <= i < final(self).lines.len() ==> (#[trigger] final(self).lines[i])@ == spaces(
                    old(self).size.width as int,
                ),
    {
        let width = self.size.width as usize;
        let n = self.lines.len();
        let mut i: usize = 0;
        while i < n
            invariant
                self.size == old(self).size,
                width == self.size.width,
                self.lines.len() == n,
                n == old(self).lines.len(),
                i <= n,
                forall|k: int| 0 <= k < i ==> (#[trigger] self.lines[k])@ == spaces(width as int),
            decreases n - i,
        {
            let mut line: Vec<u8> = Vec::with_capacity(width + width / 2);
            let mut j: usize = 0;
            while j < width
                invariant
                    j <= width,
                    line@ == spaces(j as int),
                decreases width - j,
            {
                line.push(0x20u8);
                j += 1;
            }
            self.lines.set(i, line);
            i += 1;
        }
    }
}

/// Cursor position and type.
#[derive(Clone, Copy, Debug, Default, PartialEq, Eq, Structural)]
pub struct Cursor {
    pub pos: Point,
    pub overtype: bool,
}

impl Cursor {
    /// A position no real cursor has, so that the next frame always updates it.
    pub fn new_invalid() -> (c: Self)
        ensures
            c.pos.x == isize::MIN,
            c.pos.y == isize::MIN,
            !c.overtype,
    {
        Cursor { pos: Point { x: isize::MIN, y: isize::MIN }, overtype: false }
    }

    /// The hidden cursor.
    pub fn new_disabled() -> (c: Self)
        ensures
            c.pos.x == -1,
            c.pos.y == -1,
            !c.overtype,
    {
        Cursor { pos: Point { x: -1, y: -1 }, overtype: false }
    }
}

/// One frame: text, colors, attributes and cursor.
pub struct Buffer {
    pub text: LineBuffer,
    pub bg_bitmap: Bitmap,
    pub fg_bitmap: Bitmap,
    pub attributes: AttributeBuffer,
    pub cursor: Cursor,
}

/// Every cell of `data` holds `v`.
pub open spec fn all_cells<T>(data: Seq<T>, v: T) -> bool {
    forall|i: int| 0 <= i < data.len() ==> #[trigger] data[i] == v
}

impl Buffer {
    /// Every part is well formed and has the size `size`.
    pub open spec fn wf_at(&self, size: Size) -> bool {
        &&& self.text.wf()
        &&& self.bg_bitmap.wf()
        &&& self.fg_bitmap.wf()
        &&& self.attributes.wf()
        &&& self.text.size == size
        &&& self.bg_bitmap.size == size
        &&& self.fg_bitmap.size == size
        &&& self.attributes.size == size
    }

    /// Whether this frame is blank: lines of spaces, the given fill colors,
    /// no attributes and a hidden cursor.
    pub open spec fn is_blank(&self, size: Size, bg: StraightRgba, fg: StraightRgba) -> bool {
        &&& self.wf_at(size)
        &&& forall|i: int|
            0 <= i < self.text.lines.len() ==> (#[trigger] self.text.lines[i])@ == spaces(
                size.width as int,
            )
        &&& all_cells(self.bg_bitmap.data@, bg)
        &&& all_cells(self.fg_bitmap.data@, fg)
        &&& all_cells(self.attributes.data@, Attributes(0))
        &&& self.cursor == (Cursor { pos: Point { x: -1isize, y: -1isize }, overtype: false })
    }

    /// A frame of `size`: empty lines, transparent colors, no attributes and
    /// the cursor at the origin.
    pub fn new(size: Size) -> (b: Self)
        requires
            valid_size(size),
        ensures
            b.wf_at(size),
            forall|i: int| 0 <= i < b.text.lines.len() ==> (#[trigger] b.text.lines[i])@.len() == 0,
            forall|i: int| 0 <= i < b.bg_bitmap.data.len() ==> (#[trigger] b.bg_bitmap.data[i]).0 == 0,
            forall|i: int| 0 <= i < b.fg_bitmap.data.len() ==> (#[trigger] b.fg_bitmap.data[i]).0 == 0,
            all_cells(b.attributes.data@, Attributes(0)),
            b.cursor == Cursor::default_spec(),
    {
        Buffer {
            text: LineBuffer::new(size),
            bg_bitmap: Bitmap::new(size),
            fg_bitmap: Bitmap::new(size),
            attributes: AttributeBuffer::new(size),
            cursor: Cursor { pos: Point { x: 0, y: 0 }, overtype: false },
        }
    }

    /// Blanks the frame for drawing, with the given fill colors.
    pub fn clear(&mut self, bg: StraightRgba, fg: StraightRgba)
        requires
            old(self).wf_at(old(self).text.size),
        ensures
            final(self).is_blank(old(self).text.size, bg, fg),
    {
        self.text.fill_whitespace();
        self.bg_bitmap.fill(bg);
        self.fg_bitmap.fill(fg);
        self.attributes.reset();
        self.cursor = Cursor::new_disabled();
    }
}

impl Cursor {
    /// The cursor at the origin, in insert mode.
    pub open spec fn default_spec() -> Cursor {
        Cursor { pos: Point { x: 0, y: 0 }, overtype: false }
    }
}

/// The fallback palette, as big-endian `0xRRGGBBAA` values.
pub open spec fn theme_value(i: int) -> u32 {
    if i == 0 {
        0x000000ff
    } else if i == 1 {
        0xbe2c21ff
    } else if i == 2 {
        0x3fae3aff
    } else if i == 3 {
        0xbe9a4aff
    } else if i == 4 {
        0x204dbeff
    } else if i == 5 {
        0xbb54beff
    } else if i == 6 {
        0x00a7b2ff
    } else if i == 7 {
        0xbebebeff
    } else if i == 8 {
        0x808080ff
    } else if i == 9 {
        0xff3e30ff
    } else if i == 10 {
        0x58ea51ff
    } else if i == 11 {
        0xffc944ff
    } else if i == 12 {
        0x2f6affff
    } else if i == 13 {
        0xfc74ffff
    } else if i == 14 {
        0x00e1f0ff
    } else if i == 15 {
        0xffffffff
    } else if i == 16 {
        0x000000ff
    } else {
        0xbebebeff
    }
}

/// Whether `c` is the color with big-endian value `v` on either byte order.
pub open spec fn is_be_color(c: StraightRgba, v: u32) -> bool {
    c.0 == v || c.0 == crate::oklab::swap_bytes32(v)
}

/// The fallback theme, matching Windows Terminal's Ottosson theme.
pub fn default_theme() -> (t: [StraightRgba; INDEXED_COLORS_COUNT])
    ensures
        forall|i: int| 0 <= i < INDEXED_COLORS_COUNT ==> is_be_color(#[trigger] t[i], theme_value(i)),
{
    let t = [
        StraightRgba::from_be(0x000000ff),
        StraightRgba::from_be(0xbe2c21ff),
        StraightRgba::from_be(0x3fae3aff),
        StraightRgba::from_be(0xbe9a4aff),
        StraightRgba::from_be(0x204dbeff),
        StraightRgba::from_be(0xbb54beff),
        StraightRgba::from_be(0x00a7b2ff),
        StraightRgba::from_be(0xbebebeff),
        StraightRgba::from_be(0x808080ff),
        StraightRgba::from_be(0xff3e30ff),
        StraightRgba::from_be(0x58ea51ff),
        StraightRgba::from_be(0xffc944ff),
        StraightRgba::from_be(0x2f6affff),
        StraightRgba::from_be(0xfc74ffff),
        StraightRgba::from_be(0x00e1f0ff),
        StraightRgba::from_be(0xffffffff),
        StraightRgba::from_be(0x000000ff),
        StraightRgba::from_be(0xbebebeff),
    ];
    assert forall|i: int| 0 <= i < INDEXED_COLORS_COUNT implies is_be_color(
        #[trigger] t[i],
        theme_value(i),
    ) by {
        if i == 0 {
        } else if i == 1 {
        } else if i == 2 {
        } else if i == 3 {
        } else if i == 4 {
        } else if i == 5 {
        } else if i == 6 {
        } else if i == 7 {
        } else if i == 8 {
        } else if i == 9 {
        } else if i == 10 {
        } else if i == 11 {
        } else if i == 12 {
        } else if i == 13 {
        } else if i == 14 {
        } else if i == 15 {
        } else if i == 16 {
        } else {
        }
    }
    t
}

/// The frame counter after `c`, wrapping to zero.
pub open spec fn next_counter(c: usize) -> usize {
    if c == usize::MAX {
        0
    } else {
        (c + 1) as usize
    }
}

/// A framebuffer: you draw colors, attributes and a cursor into the back
/// frame, and the front frame holds what the terminal shows. Which of the two
/// stored frames is the back one alternates with the frame counter.
pub struct Framebuffer {
    /// The color palette.
    pub indexed_colors: [StraightRgba; INDEXED_COLORS_COUNT],
    /// The frame stored at even frame counts.
    pub even: Buffer,
    /// The frame stored at odd frame counts.
    pub odd: Buffer,
    /// Increments on every `flip`.
    pub frame_counter: usize,
    pub background_fill: StraightRgba,
    pub foreground_fill: StraightRgba,
}

impl Framebuffer {
    /// Both frames are well formed and of the same size.
    pub open spec fn wf(&self) -> bool {
        &&& valid_size(self.even.text.size)
        &&& self.even.wf_at(self.even.text.size)
        &&& self.odd.wf_at(self.even.text.size)
    }

    /// The size of both frames.
    pub open spec fn spec_size(&self) -> Size {
        self.even.text.size
    }

    /// The frame being drawn.
    pub open spec fn back_spec(&self) -> Buffer {
        if self.frame_counter % 2 == 0 {
            self.even
        } else {
            self.odd
        }
    }

    /// The frame last shown.
    pub open spec fn front_spec(&self) -> Buffer {
        if self.frame_counter % 2 == 0 {
            self.odd
        } else {
            self.even
        }
    }

    /// A framebuffer of size zero with the fallback palette, whose fill
    /// colors are the palette's default background and foreground.
    pub fn new() -> (fb: Self)
        ensures
            fb.wf(),
            fb.spec_size() == (Size { width: 0, height: 0 }),
            fb.frame_counter == 0,
            forall|i: int|
                0 <= i < INDEXED_COLORS_COUNT ==> is_be_color(
                    #[trigger] fb.indexed_colors[i],
                    theme_value(i),
                ),
            fb.background_fill == fb.indexed_colors[16],
            fb.foreground_fill == fb.indexed_colors[17],
    {
        let theme = default_theme();
        let size = Size { width: 0, height: 0 };
        Framebuffer {
            indexed_colors: theme,
            even: Buffer::new(size),
            odd: Buffer::new(size),
            frame_counter: 0,
            background_fill: theme[16],
            foreground_fill: theme[17],
        }
    }

    /// The frame being drawn.
    pub fn back(&self) -> (b: &Buffer)
        ensures
            *b == self.back_spec(),
    {
        if self.frame_counter % 2 == 0 {
            &self.even
        } else {
            &self.odd
        }
    }

    /// The frame last shown.
    pub fn front(&self) -> (b: &Buffer)
        ensures
            *b == self.front_spec(),
    {
        if self.frame_counter % 2 == 0 {
            &self.odd
        } else {
            &self.even
        }
    }

    /// Sets the palette. The terminal is then expected to support
    /// transparency, so both fill colors become transparent black.
    pub fn set_indexed_colors(&mut self, colors: [StraightRgba; INDEXED_COLORS_COUNT])
        ensures
            final(self).indexed_colors == colors,
            final(self).background_fill.0 == 0,
            final(self).foreground_fill.0 == 0,
            final(self).even == old(self).even,
            final(self).odd == old(self).odd,
            final(self).frame_counter == old(self).frame_counter,
    {
        self.indexed_colors = colors;
        self.background_fill = StraightRgba::zero();
        self.foreground_fill = StraightRgba::zero();
    }

    /// Begins a new frame of `size`. On a change of size both frames are
    /// rebuilt, and the shown one is marked so that everything gets redrawn.
    /// The new back frame is blank.
    pub fn flip(&mut self, size: Size)
        requires
            old(self).wf(),
            valid_size(size),
        ensures
            final(self).wf(),
            final(self).spec_size() == size,
            final(self).frame_counter == next_counter(old(self).frame_counter),
            final(self).indexed_colors == old(self).indexed_colors,
            final(self).background_fill == old(self).background_fill,
            final(self).foreground_fill == old(self).foreground_fill,
            final(self).back_spec().is_blank(size, old(self).background_fill, old(self).foreground_fill),
            old(self).spec_size() == size ==> final(self).front_spec() == old(self).back_spec(),
            old(self).spec_size() != size ==> {
                let f = final(self).front_spec();
                &&& forall|i: int| 0 <= i < f.text.lines.len() ==> (#[trigger] f.text.lines[i])@.len() == 0
                &&& forall|i: int| 0 <= i < f.bg_bitmap.data.len() ==> (#[trigger] f.bg_bitmap.data[i]).0 == 0
                &&& forall|i: int| 0 <= i < f.fg_bitmap.data.len() ==> is_le_color(#[trigger] f.fg_bitmap.data[i], 1)
                &&& all_cells(f.attributes.data@, Attributes(0))
                &&& f.cursor.pos.x == isize::MIN
                &&& f.cursor.pos.y == isize::MIN
                &&& !f.cursor.overtype
            },
    {
        if size != self.even.text.size {
            self.even = Buffer::new(size);
            self.odd = Buffer::new(size);
            // Trigger a full redraw and a cursor update.
            let marker = StraightRgba::from_le(1);
            if self.frame_counter % 2 == 0 {
                self.even.fg_bitmap.fill(marker);
                self.even.cursor = Cursor::new_invalid();
            } else {
                self.odd.fg_bitmap.fill(marker);
                self.odd.cursor = Cursor::new_invalid();
            }
        }
        self.frame_counter = if self.frame_counter == usize::MAX {
            0
        } else {
            self.frame_counter + 1
        };
        let bg = self.background_fill;
        let fg = self.foreground_fill;
        if self.frame_counter % 2 == 0 {
            self.even.clear(bg, fg);
        } else {
            self.odd.clear(bg, fg);
        }
    }
}

/// Whether `c` is the color with little-endian value `v` on either byte order.
pub open spec fn is_le_color(c: StraightRgba, v: u32) -> bool {
    c.0 == v || c.0 == crate::oklab::swap_bytes32(v)
}

impl Framebuffer {
    /// Everything but the back frame is as before.
    pub open spec fn only_back_changed(&self, old: &Framebuffer) -> bool {
        &&& self.indexed_colors == old.indexed_colors
        &&& self.frame_counter == old.frame_counter
        &&& self.background_fill == old.background_fill
        &&& self.foreground_fill == old.foreground_fill
        &&& self.front_spec() == old.front_spec()
    }

    /// A color from the palette.
    pub fn indexed(&self, index: IndexedColor) -> (c: StraightRgba)
        ensures
            c == self.indexed_colors[color_index(index)],
    {
        self.indexed_colors[index.index()]
    }

    /// A color from the palette with its alpha replaced by
    /// `255 * numerator / denominator`.
    pub fn indexed_alpha(&self, index: IndexedColor, numerator: u32, denominator: u32) -> (c:
        StraightRgba)
        requires
            denominator != 0,
            255 * numerator <= u32::MAX,
        ensures
            ({
                let a = ((255 * numerator) as u32 / denominator) as u32;
                let v = self.indexed_colors[color_index(index)].0;
                let le = (a << 24) | (v & 0x00ffffff);
                let be = (a << 24) | (crate::oklab::swap_bytes32(v) & 0x00ffffff);
                c.0 == le || c.0 == crate::oklab::swap_bytes32(le) || c.0 == be
                    || c.0 == crate::oklab::swap_bytes32(be)
            }),
    {
        let c = self.indexed_colors[index.index()].to_le();
        let a = 255 * numerator / denominator;
        StraightRgba::from_le(a << 24 | (c & 0x00ffffff))
    }

    /// Sets the cursor of the back frame.
    pub fn set_cursor(&mut self, pos: Point, overtype: bool)
        requires
            old(self).wf(),
        ensures
            final(self).wf(),
            final(self).only_back_changed(old(self)),
            final(self).spec_size() == old(self).spec_size(),
            final(self).back_spec().cursor == (Cursor { pos, overtype }),
            final(self).back_spec().text == old(self).back_spec().text,
            final(self).back_spec().bg_bitmap == old(self).back_spec().bg_bitmap,
            final(self).back_spec().fg_bitmap == old(self).back_spec().fg_bitmap,
            final(self).back_spec().attributes == old(self).back_spec().attributes,
    {
        if self.frame_counter % 2 == 0 {
            self.even.cursor = Cursor { pos, overtype };
        } else {
            self.odd.cursor = Cursor { pos, overtype };
        }
    }

    /// Replaces VT attributes in `target` of the back frame: bits in `mask`
    /// are cleared and `attr` is set.
    pub fn replace_attr(&mut self, target: Rect, mask: Attributes, attr: Attributes)
        requires
            old(self).wf(),
        ensures
            final(self).wf(),
            final(self).only_back_changed(old(self)),
            final(self).spec_size() == old(self).spec_size(),
            final(self).back_spec().text == old(self).back_spec().text,
            final(self).back_spec().bg_bitmap == old(self).back_spec().bg_bitmap,
            final(self).back_spec().fg_bitmap == old(self).back_spec().fg_bitmap,
            final(self).back_spec().cursor == old(self).back_spec().cursor,
            final(self).back_spec().attributes.data.len() == old(self).back_spec().attributes.data.len(),
            forall|i: int|
                0 <= i < final(self).back_spec().attributes.data.len() ==> #[trigger] final(self).back_spec().attributes.data[i] == if cell_in_rect(
                    i,
                    old(self).spec_size().width as int,
                    target,
                ) {
                    replaced_attr(old(self).back_spec().attributes.data[i], mask, attr)
                } else {
                    old(self).back_spec().attributes.data[i]
                },
    {
        if self.frame_counter % 2 == 0 {
            self.even.attributes.replace(target, mask, attr);
        } else {
            self.odd.attributes.replace(target, mask, attr);
        }
    }

    /// Paints the background of `target` in the back frame with an opaque
    /// color (blending an opaque color replaces what was there).
    pub fn fill_bg(&mut self, target: Rect, color: StraightRgba)
        requires
            old(self).wf(),
        ensures
            final(self).wf(),
            final(self).only_back_changed(old(self)),
            final(self).spec_size() == old(self).spec_size(),
            final(self).back_spec().text == old(self).back_spec().text,
            final(self).back_spec().fg_bitmap == old(self).back_spec().fg_bitmap,
            final(self).back_spec().attributes == old(self).back_spec().attributes,
            final(self).back_spec().cursor == old(self).back_spec().cursor,
            final(self).back_spec().bg_bitmap.data.len() == old(self).back_spec().bg_bitmap.data.len(),
            forall|i: int|
                0 <= i < final(self).back_spec().bg_bitmap.data.len() ==> #[trigger] final(self).back_spec().bg_bitmap.data[i] == if cell_in_rect(
                    i,
                    old(self).spec_size().width as int,
                    target,
                ) {
                    color
                } else {
                    old(self).back_spec().bg_bitmap.data[i]
                },
    {
        if self.frame_counter % 2 == 0 {
            self.even.bg_bitmap.fill_rect(target, color);
        } else {
            self.odd.bg_bitmap.fill_rect(target, color);
        }
    }

    /// Paints the foreground of `target` in the back frame with an opaque color.
    pub fn fill_fg(&mut self, target: Rect, color: StraightRgba)
        requires
            old(self).wf(),
        ensures
            final(self).wf(),
            final(self).only_back_changed(old(self)),
            final(self).spec_size() == old(self).spec_size(),
            final(self).back_spec().text == old(self).back_spec().text,
            final(self).back_spec().bg_bitmap == old(self).back_spec().bg_bitmap,
            final(self).back_spec().attributes == old(self).back_spec().attributes,
            final(self).back_spec().cursor == old(self).back_spec().cursor,
            final(self).back_spec().fg_bitmap.data.len() == old(self).back_spec().fg_bitmap.data.len(),
            forall|i: int|
                0 <= i < final(self).back_spec().fg_bitmap.data.len() ==> #[trigger] final(self).back_spec().fg_bitmap.data[i] == if cell_in_rect(
                    i,
                    old(self).spec_size().width as int,
                    target,
                ) {
                    color
                } else {
                    old(self).back_spec().fg_bitmap.data[i]
                },
    {
        if self.frame_counter % 2 == 0 {
            self.even.fg_bitmap.fill_rect(target, color);
        } else {
            self.odd.fg_bitmap.fill_rect(target, color);
        }
    }

    /// Exchanges the foreground and background colors in `target` of the back frame.
    pub fn reverse(&mut self, target: Rect)
        requires
            old(self).wf(),
        ensures
            final(self).wf(),
            final(self).only_back_changed(old(self)),
            final(self).spec_size() == old(self).spec_size(),
            final(self).back_spec().text == old(self).back_spec().text,
            final(self).back_spec().attributes == old(self).back_spec().attributes,
            final(self).back_spec().cursor == old(self).back_spec().cursor,
            final(self).back_spec().bg_bitmap.size == old(self).back_spec().bg_bitmap.size,
            final(self).back_spec().fg_bitmap.size == old(self).back_spec().fg_bitmap.size,
            final(self).back_spec().bg_bitmap.data.len() == old(self).back_spec().bg_bitmap.data.len(),
            final(self).back_spec().fg_bitmap.data.len() == old(self).back_spec().fg_bitmap.data.len(),
            forall|i: int|
                0 <= i < final(self).back_spec().bg_bitmap.data.len() ==> #[trigger] final(self).back_spec().bg_bitmap.data[i] == if cell_in_rect(
                    i,
                    old(self).spec_size().width as int,
                    target,
                ) {
                    old(self).back_spec().fg_bitmap.data[i]
                } else {
                    old(self).back_spec().bg_bitmap.data[i]
                },
            forall|i: int|
                0 <= i < final(self).back_spec().fg_bitmap.data.len() ==> #[trigger] final(self).back_spec().fg_bitmap.data[i] == if cell_in_rect(
                    i,
                    old(self).spec_size().width as int,
                    target,
                ) {
                    old(self).back_spec().bg_bitmap.data[i]
                } else {
                    old(self).back_spec().fg_bitmap.data[i]
                },
    {
        if self.frame_counter % 2 == 0 {
            let size = self.even.bg_bitmap.size;
            swap_cells(&mut self.even.bg_bitmap.data, &mut self.even.fg_bitmap.data, size, target);
        } else {
            let size = self.odd.bg_bitmap.size;
            swap_cells(&mut self.odd.bg_bitmap.data, &mut self.odd.fg_bitmap.data, size, target);
        }
    }
}

/// `a / 8` rounded toward zero, as Rust divides.
pub open spec fn trunc_div8(a: int) -> int {
    if a >= 0 {
        a / 8
    } else {
        -((-a) / 8)
    }
}

/// The remainder of `a / 8` with the sign of `a`, as Rust computes it.
pub open spec fn trunc_rem8(a: int) -> int {
    if a >= 0 {
        a % 8
    } else {
        -((-a) % 8)
    }
}

/// Where a scrollbar's thumb goes, in rows of the clipped track.
#[derive(Clone, Copy, Debug, PartialEq, Eq, Structural)]
pub struct ScrollbarLayout {
    /// The visible part of the track.
    pub track: Rect,
    /// The first row drawn as a full block.
    pub thumb_top: CoordType,
    /// The row after the last full block.
    pub thumb_bottom: CoordType,
    /// Eighths of the row above `thumb_top` left uncovered by the thumb (0: no partial row).
    pub top_fract: CoordType,
    /// Eighths of row `thumb_bottom` covered by the thumb (0: no partial row).
    pub bottom_fract: CoordType,
    /// The thumb's height rounded to whole rows.
    pub thumb_rows: CoordType,
}

/// The scrollbar's numbers in eighths of a row: the content height, the
/// largest offset, the clamped offset, the thumb height and the thumb top
/// relative to the track.
pub open spec fn scrollbar_eighths(track: Rect, content_offset: int, content_height: int) -> (
    int,
    int,
    int,
    int,
    int,
) {
    let vh = track.bottom - track.top;
    let ch = crate::helpers::max_i(content_height, vh);
    let max_off = ch - vh;
    let off = if content_offset < 0 {
        0
    } else if content_offset > max_off {
        max_off
    } else {
        content_offset
    };
    let th = crate::helpers::max_i((vh * 8 * (vh * 8) + ch * 8 / 2) / (ch * 8), 8);
    let tt = ((vh * 8 - th) * (off * 8) + max_off * 8 / 2) / (max_off * 8);
    (ch * 8, max_off * 8, off * 8, th, tt)
}

/// Where `draw_scrollbar` puts the thumb for a scroll area showing
/// `track`, clipped to `clip_rect`, at `content_offset` into content
/// `content_height` rows tall; `None` when it draws nothing (the track is
/// clipped away, or the content fits).
pub open spec fn spec_scrollbar_layout(
    clip_rect: Rect,
    track: Rect,
    content_offset: int,
    content_height: int,
) -> Option<ScrollbarLayout> {
    let c = track.spec_intersect(clip_rect);
    let (ch8, max8, off8, th, tt) = scrollbar_eighths(track, content_offset, content_height);
    if c.spec_is_empty() || max8 == 0 {
        None
    } else {
        let top8 = crate::helpers::max_i(tt + track.top * 8, c.top * 8);
        let bottom8 = crate::helpers::min_i(tt + th + track.top * 8, c.bottom * 8);
        Some(
            ScrollbarLayout {
                track: c,
                thumb_top: trunc_div8(top8 + 7) as isize,
                thumb_bottom: trunc_div8(bottom8) as isize,
                top_fract: trunc_rem8(top8) as isize,
                bottom_fract: trunc_rem8(bottom8) as isize,
                thumb_rows: ((th + 4) / 8) as isize,
            },
        )
    }
}

/// The inputs on which `draw_scrollbar`'s arithmetic stays within its
/// integer types.
pub open spec fn scrollbar_fits(
    clip_rect: Rect,
    track: Rect,
    content_offset: int,
    content_height: int,
) -> bool {
    let c = track.spec_intersect(clip_rect);
    let (ch8, max8, off8, th, tt) = scrollbar_eighths(track, content_offset, content_height);
    let vh = track.bottom - track.top;
    c.spec_is_empty() || {
        &&& vh <= isize::MAX
        &&& vh * 8 * (vh * 8) + ch8 / 2 <= i64::MAX
        &&& ch8 <= i64::MAX
        &&& tt + th <= i64::MAX
        &&& (vh * 8 - th) * off8 + max8 / 2 <= i64::MAX
        &&& i64::MIN <= track.top * 8
        &&& track.top * 8 + tt + th <= i64::MAX - 8
        &&& c.bottom * 8 <= i64::MAX
        &&& i64::MIN <= c.top * 8
    }
}

/// The thumb is at least one row and at most the track tall, and its top
/// leaves room for it inside the track.
proof fn lemma_thumb(vh8: int, ch8: int, max8: int, off8: int)
    requires
        8 <= vh8 <= ch8,
        max8 == ch8 - vh8,
        0 <= off8 <= max8,
        max8 > 0,
        vh8 * vh8 + ch8 / 2 <= i64::MAX,
    ensures
        vh8 <= i64::MAX,
        8 <= crate::helpers::max_i((vh8 * vh8 + ch8 / 2) / ch8, 8) <= vh8,
        0 <= ((vh8 - crate::helpers::max_i((vh8 * vh8 + ch8 / 2) / ch8, 8)) * off8 + max8 / 2)
            / max8 <= vh8 - crate::helpers::max_i((vh8 * vh8 + ch8 / 2) / ch8, 8),
{
    assert(vh8 <= vh8 * vh8) by (nonlinear_arith)
        requires
            8 <= vh8,
    ;
    let q = (vh8 * vh8 + ch8 / 2) / ch8;
    assert(q <= vh8) by (nonlinear_arith)
        requires
            8 <= vh8 <= ch8,
            q == (vh8 * vh8 + ch8 / 2) / ch8,
    ;
    let th = crate::helpers::max_i(q, 8);
    let n = (vh8 - th) * off8 + max8 / 2;
    assert(0 <= n / max8 <= vh8 - th) by (nonlinear_arith)
        requires
            0 <= vh8 - th,
            0 <= off8 <= max8,
            max8 > 0,
            n == (vh8 - th) * off8 + max8 / 2,
    ;
}

/// Rounds toward zero, as Rust's `/ 8` does.
fn div8(a: i64) -> (r: i64)
    ensures
        r == trunc_div8(a as int),
{
    if a >= 0 {
        (a as u64 / 8) as i64
    } else if a == i64::MIN {
        -1152921504606846976
    } else {
        -(((-a) as u64 / 8) as i64)
    }
}

/// The remainder with the sign of `a`, as Rust's `% 8` gives it.
fn rem8(a: i64) -> (r: i64)
    ensures
        r == trunc_rem8(a as int),
{
    if a >= 0 {
        (a as u64 % 8) as i64
    } else if a == i64::MIN {
        0
    } else {
        -(((-a) as u64 % 8) as i64)
    }
}

/// The scrollbar geometry of `draw_scrollbar`: the thumb's height is the
/// share of the content the track shows, at least one row, and its position
/// the share of the largest offset scrolled, both in eighths of a row so
/// that partial blocks can be drawn at either end.
pub fn scrollbar_layout(
    clip_rect: Rect,
    track: Rect,
    content_offset: CoordType,
    content_height: CoordType,
) -> (r: Option<ScrollbarLayout>)
    requires
        scrollbar_fits(clip_rect, track, content_offset as int, content_height as int),
    ensures
        r == spec_scrollbar_layout(clip_rect, track, content_offset as int, content_height as int),
{
    let c = track.intersect(clip_rect);
    if c.is_empty() {
        return None;
    }
    let viewport_height = track.height();
    let content_height = if content_height >= viewport_height {
        content_height
    } else {
        viewport_height
    };
    let content_offset_max = content_height - viewport_height;
    if content_offset_max == 0 {
        return None;
    }
    let content_offset = if content_offset < 0 {
        0
    } else if content_offset > content_offset_max {
        content_offset_max
    } else {
        content_offset
    };
    proof {
        lemma_thumb(
            viewport_height as int * 8,
            content_height as int * 8,
            content_offset_max as int * 8,
            content_offset as int * 8,
        );
    }
    let viewport_height = viewport_height as i64 * 8;
    let content_offset_max = content_offset_max as i64 * 8;
    let content_offset = content_offset as i64 * 8;
    let content_height = content_height as i64 * 8;

    let numerator = viewport_height * viewport_height + content_height / 2;
    let thumb_height = numerator / content_height;
    let thumb_height = if thumb_height >= 8 {
        thumb_height
    } else {
        8
    };
    let numerator = (viewport_height - thumb_height) * content_offset + content_offset_max / 2;
    let thumb_top = numerator / content_offset_max;
    let thumb_bottom = thumb_top + thumb_height;

    let thumb_top = thumb_top + track.top as i64 * 8;
    let thumb_bottom = thumb_bottom + track.top as i64 * 8;
    let clip_top = c.top as i64 * 8;
    let clip_bottom = c.bottom as i64 * 8;
    let thumb_top = if thumb_top >= clip_top {
        thumb_top
    } else {
        clip_top
    };
    let thumb_bottom = if thumb_bottom <= clip_bottom {
        thumb_bottom
    } else {
        clip_bottom
    };

    Some(
        ScrollbarLayout {
            track: c,
            thumb_top: #[verifier::truncate] (div8(thumb_top + 7) as isize),
            thumb_bottom: #[verifier::truncate] (div8(thumb_bottom) as isize),
            top_fract: #[verifier::truncate] (rem8(thumb_top) as isize),
            bottom_fract: #[verifier::truncate] (rem8(thumb_bottom) as isize),
            thumb_rows: #[verifier::truncate] (((thumb_height + 4) / 8) as isize),
        },
    )
}

} // verus!
