//! Points, rectangles and the coordinate range they live in.
//!
//! Executable values hold `i64` coordinates; each has a view over `int` on
//! which the geometry is stated.

use vstd::prelude::*;

verus! {

/// Largest magnitude of any coordinate, extent or per-tick displacement.
pub const COORD_LIMIT: i64 = 1_000_000_000;

/// Whether `c` lies in the coordinate range.
pub open spec fn in_range(c: int) -> bool {
    -COORD_LIMIT <= c <= COORD_LIMIT
}

/// A point of the plane, or a displacement, with integer coordinates.
pub struct PointView {
    pub x: int,
    pub y: int,
}

impl PointView {
    /// Both components lie in the coordinate range.
    pub open spec fn in_range(self) -> bool {
        in_range(self.x) && in_range(self.y)
    }

    /// On each axis, `self` lies between `a` and `b`, in either order.
    pub open spec fn between(self, a: PointView, b: PointView) -> bool {
        &&& (a.x <= self.x <= b.x || b.x <= self.x <= a.x)
        &&& (a.y <= self.y <= b.y || b.y <= self.y <= a.y)
    }

    /// The point reached from `self` by the displacement `d`.
    pub open spec fn offset(self, d: PointView) -> PointView {
        PointView { x: self.x + d.x, y: self.y + d.y }
    }
}

/// A grid point, or a displacement between two grid points.
#[derive(Clone, Copy, Debug, PartialEq, Eq, Structural)]
pub struct Point {
    pub x: i64,
    pub y: i64,
}

impl View for Point {
    type V = PointView;

    open spec fn view(&self) -> PointView {
        PointView { x: self.x as int, y: self.y as int }
    }
}

impl Point {
    /// The point `(x, y)`.
    pub fn new(x: i64, y: i64) -> (p: Point)
        ensures
            p == (Point { x, y }),
    {
        Point { x, y }
    }

    /// Whether both components lie in the coordinate range.
    pub fn in_range(&self) -> (ok: bool)
        ensures
            ok == self@.in_range(),
    {
        -COORD_LIMIT <= self.x && self.x <= COORD_LIMIT && -COORD_LIMIT <= self.y && self.y
            <= COORD_LIMIT
    }
}

/// An axis-aligned rectangle: corner `(x, y)`, width `w`, height `h`.
/// The y axis points down, so `y` is the top edge.
pub struct RectView {
    pub x: int,
    pub y: int,
    pub w: int,
    pub h: int,
}

impl RectView {
    /// The x coordinate of the left edge.
    pub open spec fn left(self) -> int {
        self.x
    }

    /// The x coordinate of the right edge.
    pub open spec fn right(self) -> int {
        self.x + self.w
    }

    /// The y coordinate of the top edge.
    pub open spec fn top(self) -> int {
        self.y
    }

    /// The y coordinate of the bottom edge.
    pub open spec fn bottom(self) -> int {
        self.y + self.h
    }

    /// Neither extent is negative.
    pub open spec fn wf(self) -> bool {
        self.w >= 0 && self.h >= 0
    }

    /// All four edges lie in the coordinate range.
    pub open spec fn in_range(self) -> bool {
        &&& in_range(self.left())
        &&& in_range(self.right())
        &&& in_range(self.top())
        &&& in_range(self.bottom())
    }

    /// `p` lies in the closed rectangle.
    pub open spec fn contains(self, p: PointView) -> bool {
        self.left() <= p.x <= self.right() && self.top() <= p.y <= self.bottom()
    }

    /// `p` lies in the rectangle and on none of its edges.
    pub open spec fn strictly_contains(self, p: PointView) -> bool {
        self.left() < p.x < self.right() && self.top() < p.y < self.bottom()
    }

    /// `p` lies on one of the four edges.
    pub open spec fn on_perimeter(self, p: PointView) -> bool {
        &&& self.contains(p)
        &&& (p.x == self.left() || p.x == self.right() || p.y == self.top() || p.y
            == self.bottom())
    }

    /// `p` is one of the four corners.
    pub open spec fn is_corner(self, p: PointView) -> bool {
        (p.x == self.left() || p.x == self.right()) && (p.y == self.top() || p.y == self.bottom())
    }

    /// The closed rectangle lies inside the closed rectangle `outer`.
    pub open spec fn within(self, outer: RectView) -> bool {
        &&& outer.left() <= self.left()
        &&& self.right() <= outer.right()
        &&& outer.top() <= self.top()
        &&& self.bottom() <= outer.bottom()
    }

    /// The same rectangle moved by the displacement `d`.
    pub open spec fn offset(self, d: PointView) -> RectView {
        RectView { x: self.x + d.x, y: self.y + d.y, w: self.w, h: self.h }
    }
}

/// An axis-aligned rectangle on the grid.
#[derive(Clone, Copy, Debug, PartialEq, Eq, Structural)]
pub struct Rect {
    pub x: i64,
    pub y: i64,
    pub w: i64,
    pub h: i64,
}

impl View for Rect {
    type V = RectView;

    open spec fn view(&self) -> RectView {
        RectView { x: self.x as int, y: self.y as int, w: self.w as int, h: self.h as int }
    }
}

impl Rect {
    /// Neither extent is negative and every edge lies in the coordinate range.
    pub open spec fn wf(self) -> bool {
        self@.wf() && self@.in_range()
    }

    /// The rectangle with corner `(x, y)` and extents `w`, `h`, if it is well formed.
    pub fn new(x: i64, y: i64, w: i64, h: i64) -> (r: Option<Rect>)
        ensures
            r is Some <==> (Rect { x, y, w, h }).wf(),
            r is Some ==> r->0 == (Rect { x, y, w, h }),
    {
        let r = Rect { x, y, w, h };
        if r.is_wf() {
            Some(r)
        } else {
            None
        }
    }

    /// Whether the rectangle is well formed.
    pub fn is_wf(&self) -> (ok: bool)
        ensures
            ok == self.wf(),
    {
        0 <= self.w && self.w <= 2 * COORD_LIMIT && 0 <= self.h && self.h <= 2 * COORD_LIMIT
            && -COORD_LIMIT <= self.x && self.x <= COORD_LIMIT && -COORD_LIMIT <= self.y && self.y
            <= COORD_LIMIT && self.x + self.w <= COORD_LIMIT && self.y + self.h <= COORD_LIMIT
    }
}

/// The playfield: the rectangle from `(0, 0)` to `(width, height)`.
pub struct ArenaView {
    pub width: int,
    pub height: int,
}

impl ArenaView {
    /// Neither extent is negative.
    pub open spec fn wf(self) -> bool {
        self.width >= 0 && self.height >= 0
    }

    /// The playfield as a rectangle.
    pub open spec fn bounds(self) -> RectView {
        RectView { x: 0, y: 0, w: self.width, h: self.height }
    }
}

/// The fixed playfield.
#[derive(Clone, Copy, Debug, PartialEq, Eq, Structural)]
pub struct Arena {
    pub width: i64,
    pub height: i64,
}

impl View for Arena {
    type V = ArenaView;

    open spec fn view(&self) -> ArenaView {
        ArenaView { width: self.width as int, height: self.height as int }
    }
}

impl Arena {
    /// Neither extent is negative and both lie in the coordinate range.
    pub open spec fn wf(self) -> bool {
        self@.wf() && in_range(self.width as int) && in_range(self.height as int)
    }

    /// The playfield of the given extents, if it is well formed.
    pub fn new(width: i64, height: i64) -> (a: Option<Arena>)
        ensures
            a is Some <==> (Arena { width, height }).wf(),
            a is Some ==> a->0 == (Arena { width, height }),
    {
        if 0 <= width && width <= COORD_LIMIT && 0 <= height && height <= COORD_LIMIT {
            Some(Arena { width, height })
        } else {
            None
        }
    }
}

} // verus!
