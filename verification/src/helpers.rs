//! Geometry helpers: points, sizes, and rectangles in viewport coordinates.

use vstd::prelude::*;

verus! {

/// A viewport coordinate type used throughout the application.
pub type CoordType = isize;

pub const KILO: usize = 1000;
pub const MEGA: usize = 1000000;
pub const GIGA: usize = 1000000000;
pub const KIBI: usize = 1024;
pub const MEBI: usize = 1048576;
pub const GIBI: usize = 1073741824;

/// A 2D point.
#[derive(Clone, Copy, Debug, Default, PartialEq, Eq, Structural)]
pub struct Point {
    pub x: CoordType,
    pub y: CoordType,
}

/// A 2D size.
#[derive(Clone, Copy, Debug, Default, PartialEq, Eq, Structural)]
pub struct Size {
    pub width: CoordType,
    pub height: CoordType,
}

/// A 2D rectangle.
#[derive(Clone, Copy, Debug, Default, PartialEq, Eq, Structural)]
pub struct Rect {
    pub left: CoordType,
    pub top: CoordType,
    pub right: CoordType,
    pub bottom: CoordType,
}

pub open spec fn max_i(a: int, b: int) -> int {
    if a >= b { a } else { b }
}

pub open spec fn min_i(a: int, b: int) -> int {
    if a <= b { a } else { b }
}

impl Size {
    /// The rectangle anchored at the origin with this size.
    pub fn as_rect(&self) -> (r: Rect)
        ensures
            r == (Rect { left: 0, top: 0, right: self.width, bottom: self.height }),
    {
        Rect { left: 0, top: 0, right: self.width, bottom: self.height }
    }
}

impl Rect {
    /// Mimics CSS's `padding: a` (all four sides equal).
    pub fn one(value: CoordType) -> (r: Rect)
        ensures
            r == (Rect { left: value, top: value, right: value, bottom: value }),
    {
        Rect { left: value, top: value, right: value, bottom: value }
    }

    /// Mimics CSS's `padding: a b` with `a` top/bottom and `b` left/right.
    pub fn two(top_bottom: CoordType, left_right: CoordType) -> (r: Rect)
        ensures
            r == (Rect { left: left_right, top: top_bottom, right: left_right, bottom: top_bottom }),
    {
        Rect { left: left_right, top: top_bottom, right: left_right, bottom: top_bottom }
    }

    /// Mimics CSS's `padding: a b c` with `a` top, `b` left/right and `c` bottom.
    pub fn three(top: CoordType, left_right: CoordType, bottom: CoordType) -> (r: Rect)
        ensures
            r == (Rect { left: left_right, top: top, right: left_right, bottom: bottom }),
    {
        Rect { left: left_right, top, right: left_right, bottom }
    }

    /// The set of points a rectangle covers is empty.
    pub open spec fn spec_is_empty(&self) -> bool {
        self.left >= self.right || self.top >= self.bottom
    }

    /// Whether the rectangle covers the point.
    pub open spec fn spec_contains(&self, p: Point) -> bool {
        p.x >= self.left && p.x < self.right && p.y >= self.top && p.y < self.bottom
    }

    /// Is the rectangle empty?
    pub fn is_empty(&self) -> (b: bool)
        ensures
            b == self.spec_is_empty(),
    {
        self.left >= self.right || self.top >= self.bottom
    }

    /// Width of the rectangle.
    pub fn width(&self) -> (w: CoordType)
        requires
            isize::MIN <= self.right - self.left <= isize::MAX,
        ensures
            w == self.right - self.left,
    {
        self.right - self.left
    }

    /// Height of the rectangle.
    pub fn height(&self) -> (h: CoordType)
        requires
            isize::MIN <= self.bottom - self.top <= isize::MAX,
        ensures
            h == self.bottom - self.top,
    {
        self.bottom - self.top
    }

    /// Check if it contains a point.
    pub fn contains(&self, point: Point) -> (b: bool)
        ensures
            b == self.spec_contains(point),
    {
        point.x >= self.left && point.x < self.right && point.y >= self.top && point.y < self.bottom
    }

    /// The intersection: the larger left/top edges and the smaller right/bottom
    /// edges, with right/bottom raised to left/top where they would be smaller.
    pub open spec fn spec_intersect(&self, rhs: Rect) -> Rect {
        let l = max_i(self.left as int, rhs.left as int);
        let t = max_i(self.top as int, rhs.top as int);
        Rect {
            left: l as isize,
            top: t as isize,
            right: max_i(l, min_i(self.right as int, rhs.right as int)) as isize,
            bottom: max_i(t, min_i(self.bottom as int, rhs.bottom as int)) as isize,
        }
    }

    /// Intersect two rectangles. The result never has a negative width or height.
    pub fn intersect(&self, rhs: Rect) -> (r: Rect)
        ensures
            r == self.spec_intersect(rhs),
    {
        let l = if self.left >= rhs.left { self.left } else { rhs.left };
        let t = if self.top >= rhs.top { self.top } else { rhs.top };
        let r = if self.right <= rhs.right { self.right } else { rhs.right };
        let b = if self.bottom <= rhs.bottom { self.bottom } else { rhs.bottom };
        let r = if l >= r { l } else { r };
        let b = if t >= b { t } else { b };
        Rect { left: l, top: t, right: r, bottom: b }
    }
}

/// The intersection of two rectangles covers exactly the points both cover;
/// it never has a negative width or height, and it is the
/// same whichever rectangle comes first.
pub proof fn lemma_intersect_contains(a: Rect, b: Rect, p: Point)
    ensures
        a.spec_intersect(b).spec_contains(p) <==> (a.spec_contains(p) && b.spec_contains(p)),
        a.spec_intersect(b).right >= a.spec_intersect(b).left,
        a.spec_intersect(b).bottom >= a.spec_intersect(b).top,
        a.spec_intersect(b) == b.spec_intersect(a),
{
}

/// Formats a count of bytes with a metric suffix: `B`, `kB`, `MB` or `GB`,
/// the count divided down (rounding down) to the largest unit it reaches.
pub struct MetricFormatter<T>(pub T);

/// The text `MetricFormatter` gives for `v` bytes.
pub open spec fn spec_metric(v: nat) -> Seq<u8> {
    if v >= GIGA {
        crate::text::decimal(v / (GIGA as nat)) + seq![0x47u8, 0x42u8]
    } else if v >= MEGA {
        crate::text::decimal(v / (MEGA as nat)) + seq![0x4Du8, 0x42u8]
    } else if v >= KILO {
        crate::text::decimal(v / (KILO as nat)) + seq![0x6Bu8, 0x42u8]
    } else {
        crate::text::decimal(v) + seq![0x42u8]
    }
}

impl MetricFormatter<usize> {
    /// The formatted text.
    pub fn to_text(&self) -> (r: Vec<u8>)
        ensures
            r@ == spec_metric(self.0 as nat),
    {
        let mut value = self.0;
        let mut out: Vec<u8> = Vec::new();
        if value >= GIGA {
            value = value / GIGA;
            crate::text::push_decimal(&mut out, value as u64);
            out.push(0x47);
            out.push(0x42);
        } else if value >= MEGA {
            value = value / MEGA;
            crate::text::push_decimal(&mut out, value as u64);
            out.push(0x4D);
            out.push(0x42);
        } else if value >= KILO {
            value = value / KILO;
            crate::text::push_decimal(&mut out, value as u64);
            out.push(0x6B);
            out.push(0x42);
        } else {
            crate::text::push_decimal(&mut out, value as u64);
            out.push(0x42);
        }
        assert(out@ =~= spec_metric(self.0 as nat));
        out
    }
}

} // verus!
