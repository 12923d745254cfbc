//! Swept contact: where the straight move of a body over one tick first
//! meets the perimeter of a rectangle.
//!
//! A move runs from `from` (the start of the tick) to `to` (its end). Instants
//! of the tick are fractions; the exact place of the body at an instant is
//! kept free of division by scaling every coordinate with the denominator.

use crate::geometry::{in_range, Point, PointView, Rect, RectView, COORD_LIMIT};
use vstd::prelude::*;

verus! {

/// An instant of a tick: the fraction `num / den` of the way from its start
/// to its end.
pub struct Moment {
    pub num: int,
    pub den: int,
}

impl Moment {
    /// A fraction between 0 (the start of the tick) and 1 (its end).
    pub open spec fn valid(self) -> bool {
        self.den > 0 && 0 <= self.num <= self.den
    }

    /// `self <= other` as fractions with positive denominators.
    pub open spec fn no_later_than(self, other: Moment) -> bool {
        self.num * other.den <= other.num * self.den
    }
}

/// The quotient `v / d` rounded toward zero, for `d > 0`.
pub open spec fn toward_zero(v: int, d: int) -> int {
    if v >= 0 {
        v / d
    } else {
        -((-v) / d)
    }
}

/// The exact place, scaled by `m.den`, of a body at instant `m` of its move
/// from `from` to `to`.
pub open spec fn scaled_place(from: PointView, to: PointView, m: Moment) -> PointView {
    PointView {
        x: m.den * from.x + m.num * (to.x - from.x),
        y: m.den * from.y + m.num * (to.y - from.y),
    }
}

/// The grid point of a body at instant `m` of its move from `from` to `to`:
/// its exact place with each coordinate rounded toward `from`.
pub open spec fn place_at(from: PointView, to: PointView, m: Moment) -> PointView {
    PointView {
        x: from.x + toward_zero((to.x - from.x) * m.num, m.den),
        y: from.y + toward_zero((to.y - from.y) * m.num, m.den),
    }
}

/// At instant `m` of its move from `from` to `to` the body is exactly on the
/// perimeter of `rect`.
pub open spec fn touches_at(rect: RectView, from: PointView, to: PointView, m: Moment) -> bool {
    let p = scaled_place(from, to, m);
    &&& m.den * rect.left() <= p.x <= m.den * rect.right()
    &&& m.den * rect.top() <= p.y <= m.den * rect.bottom()
    &&& (p.x == m.den * rect.left() || p.x == m.den * rect.right() || p.y == m.den * rect.top()
        || p.y == m.den * rect.bottom())
}

/// At instant `m` of its move from `from` to `to` the body is in `rect`,
/// its edges included.
pub open spec fn inside_at(rect: RectView, from: PointView, to: PointView, m: Moment) -> bool {
    let p = scaled_place(from, to, m);
    &&& m.den * rect.left() <= p.x <= m.den * rect.right()
    &&& m.den * rect.top() <= p.y <= m.den * rect.bottom()
}

/// The instant `num / den`, if the coordinate that runs from `b0` to `b1`
/// lies in `[lo, hi]` then.
pub open spec fn when_inside(num: int, den: int, b0: int, b1: int, lo: int, hi: int) -> Option<
    Moment,
> {
    if (lo - b0) * den <= (b1 - b0) * num <= (hi - b0) * den {
        Some(Moment { num, den })
    } else {
        None
    }
}

/// When a move meets one edge of a rectangle. Along the axis across the edge
/// the body runs from `a0` to `a1` and the edge lies at `e`; along the edge
/// the body runs from `b0` to `b1` and the edge spans `[lo, hi]`.
///
/// A body that starts on the edge meets it at instant 0. Otherwise it meets
/// the edge when it reaches `e`, provided it is within the span at that
/// instant.
pub open spec fn crossing(a0: int, a1: int, e: int, b0: int, b1: int, lo: int, hi: int) -> Option<
    Moment,
> {
    if a0 == e {
        when_inside(0, 1, b0, b1, lo, hi)
    } else if a0 < e <= a1 {
        when_inside(e - a0, a1 - a0, b0, b1, lo, hi)
    } else if a1 <= e < a0 {
        when_inside(a0 - e, a0 - a1, b0, b1, lo, hi)
    } else {
        None
    }
}

/// The earlier of two optional instants; the first of them on a tie.
pub open spec fn earlier(a: Option<Moment>, b: Option<Moment>) -> Option<Moment> {
    match (a, b) {
        (Some(s), Some(t)) => if s.no_later_than(t) {
            a
        } else {
            b
        },
        (Some(_), None) => a,
        _ => b,
    }
}

/// When the move meets the left edge of `rect`.
pub open spec fn left_crossing(rect: RectView, from: PointView, to: PointView) -> Option<Moment> {
    crossing(from.x, to.x, rect.left(), from.y, to.y, rect.top(), rect.bottom())
}

/// When the move meets the right edge of `rect`.
pub open spec fn right_crossing(rect: RectView, from: PointView, to: PointView) -> Option<Moment> {
    crossing(from.x, to.x, rect.right(), from.y, to.y, rect.top(), rect.bottom())
}

/// When the move meets the top edge of `rect`.
pub open spec fn top_crossing(rect: RectView, from: PointView, to: PointView) -> Option<Moment> {
    crossing(from.y, to.y, rect.top(), from.x, to.x, rect.left(), rect.right())
}

/// When the move meets the bottom edge of `rect`.
pub open spec fn bottom_crossing(rect: RectView, from: PointView, to: PointView) -> Option<
    Moment,
> {
    crossing(from.y, to.y, rect.bottom(), from.x, to.x, rect.left(), rect.right())
}

/// The meeting `c` takes place, and no later than the instant `m`.
pub open spec fn by_then(c: Option<Moment>, m: Moment) -> bool {
    match c {
        Some(s) => s.no_later_than(m),
        None => false,
    }
}

/// The move comes upon an edge of `rect` from outside the rectangle, no later
/// than the instant `m`: from the left upon the left edge, from the right
/// upon the right edge, from above upon the top edge, or from below upon the
/// bottom edge.
pub open spec fn enters_by(rect: RectView, from: PointView, to: PointView, m: Moment) -> bool {
    ||| (from.x < rect.left() <= to.x && by_then(left_crossing(rect, from, to), m))
    ||| (to.x <= rect.right() < from.x && by_then(right_crossing(rect, from, to), m))
    ||| (from.y < rect.top() <= to.y && by_then(top_crossing(rect, from, to), m))
    ||| (to.y <= rect.bottom() < from.y && by_then(bottom_crossing(rect, from, to), m))
}

/// The instant at which the move from `from` to `to` first meets the
/// perimeter of `rect`: the earliest of its meetings with the four edges.
pub open spec fn contact_moment(rect: RectView, from: PointView, to: PointView) -> Option<Moment> {
    earlier(
        earlier(left_crossing(rect, from, to), right_crossing(rect, from, to)),
        earlier(top_crossing(rect, from, to), bottom_crossing(rect, from, to)),
    )
}

/// The grid point at which the move from `from` to `to` first meets the
/// perimeter of `rect`, if it meets it at all.
pub open spec fn contact_point(rect: RectView, from: PointView, to: PointView) -> Option<
    PointView,
> {
    match contact_moment(rect, from, to) {
        Some(m) => Some(place_at(from, to, m)),
        None => None,
    }
}

/// An instant as the executable code holds it.
struct Crossing {
    num: i64,
    den: i64,
}

impl View for Crossing {
    type V = Moment;

    closed spec fn view(&self) -> Moment {
        Moment { num: self.num as int, den: self.den as int }
    }
}

impl Crossing {
    /// A fraction in `[0, 1]` whose parts are differences of coordinates.
    spec fn wf(self) -> bool {
        0 <= self.num <= self.den && 1 <= self.den <= 2 * COORD_LIMIT
    }
}

spec fn moment_of(c: Option<Crossing>) -> Option<Moment> {
    match c {
        Some(k) => Some(k@),
        None => None,
    }
}

/// The product of two differences of coordinates fits the machine integers.
proof fn lemma_product_fits(p: int, q: int)
    by (nonlinear_arith)
    requires
        -2 * COORD_LIMIT <= p <= 2 * COORD_LIMIT,
        -2 * COORD_LIMIT <= q <= 2 * COORD_LIMIT,
    ensures
        -4 * COORD_LIMIT * COORD_LIMIT <= p * q <= 4 * COORD_LIMIT * COORD_LIMIT,
{
}

fn inside_then(num: i64, den: i64, b0: i64, b1: i64, lo: i64, hi: i64) -> (r: Option<Crossing>)
    requires
        0 <= num <= den,
        1 <= den <= 2 * COORD_LIMIT,
        in_range(b0 as int),
        in_range(b1 as int),
        in_range(lo as int),
        in_range(hi as int),
    ensures
        moment_of(r) == when_inside(
            num as int,
            den as int,
            b0 as int,
            b1 as int,
            lo as int,
            hi as int,
        ),
        r is Some ==> r->0.wf(),
{
    proof {
        lemma_product_fits(lo - b0, den as int);
        lemma_product_fits(b1 - b0, num as int);
        lemma_product_fits(hi - b0, den as int);
    }
    let low: i64 = (lo - b0) * den;
    let mid: i64 = (b1 - b0) * num;
    let high: i64 = (hi - b0) * den;
    if low <= mid && mid <= high {
        Some(Crossing { num, den })
    } else {
        None
    }
}

fn edge_crossing(a0: i64, a1: i64, e: i64, b0: i64, b1: i64, lo: i64, hi: i64) -> (r: Option<
    Crossing,
>)
    requires
        in_range(a0 as int),
        in_range(a1 as int),
        in_range(e as int),
        in_range(b0 as int),
        in_range(b1 as int),
        in_range(lo as int),
        in_range(hi as int),
    ensures
        moment_of(r) == crossing(
            a0 as int,
            a1 as int,
            e as int,
            b0 as int,
            b1 as int,
            lo as int,
            hi as int,
        ),
        r is Some ==> r->0.wf(),
{
    if a0 == e {
        inside_then(0, 1, b0, b1, lo, hi)
    } else if a0 < e && e <= a1 {
        inside_then(e - a0, a1 - a0, b0, b1, lo, hi)
    } else if a1 <= e && e < a0 {
        inside_then(a0 - e, a0 - a1, b0, b1, lo, hi)
    } else {
        None
    }
}

fn sooner(a: Option<Crossing>, b: Option<Crossing>) -> (r: Option<Crossing>)
    requires
        a is Some ==> a->0.wf(),
        b is Some ==> b->0.wf(),
    ensures
        moment_of(r) == earlier(moment_of(a), moment_of(b)),
        r is Some ==> r->0.wf(),
{
    match (a, b) {
        (Some(s), Some(t)) => {
            proof {
                lemma_product_fits(s.num as int, t.den as int);
                lemma_product_fits(t.num as int, s.den as int);
            }
            if s.num * t.den <= t.num * s.den {
                Some(s)
            } else {
                Some(t)
            }
        },
        (Some(s), None) => Some(s),
        (None, other) => other,
    }
}

/// The part `num / den` of the displacement `d`, rounded toward zero.
fn part_of(d: i64, num: i64, den: i64) -> (r: i64)
    requires
        -2 * COORD_LIMIT <= d <= 2 * COORD_LIMIT,
        0 <= num <= den,
        1 <= den <= 2 * COORD_LIMIT,
    ensures
        r == toward_zero(d * num, den as int),
        d >= 0 ==> 0 <= r <= d,
        d <= 0 ==> d <= r <= 0,
{
    proof {
        lemma_product_fits(d as int, num as int);
        lemma_part_bounds(d as int, num as int, den as int);
    }
    if d >= 0 {
        (d * num) / den
    } else {
        assert((-d) * num == -(d * num)) by (nonlinear_arith);
        assert(num > 0 ==> d * num < 0) by (nonlinear_arith)
            requires
                d < 0,
        ;
        -(((-d) * num) / den)
    }
}

/// A part of a displacement lies between nothing and all of it.
pub(crate) proof fn lemma_part_bounds(d: int, num: int, den: int)
    by (nonlinear_arith)
    requires
        0 <= num <= den,
        den > 0,
    ensures
        d >= 0 ==> 0 <= toward_zero(d * num, den) <= d,
        d <= 0 ==> d <= toward_zero(d * num, den) <= 0,
{
}

/// The grid point at which a body moving from `from` to `to` first meets the
/// perimeter of `rect`; `None` if it does not meet it during the move.
pub fn first_contact(rect: &Rect, from: Point, to: Point) -> (c: Option<Point>)
    requires
        rect.wf(),
        from@.in_range(),
        to@.in_range(),
    ensures
        match c {
            Some(p) => contact_point(rect@, from@, to@) == Some(p@),
            None => contact_point(rect@, from@, to@) is None,
        },
{
    let right: i64 = rect.x + rect.w;
    let bottom: i64 = rect.y + rect.h;
    let l = edge_crossing(from.x, to.x, rect.x, from.y, to.y, rect.y, bottom);
    let r = edge_crossing(from.x, to.x, right, from.y, to.y, rect.y, bottom);
    let t = edge_crossing(from.y, to.y, rect.y, from.x, to.x, rect.x, right);
    let b = edge_crossing(from.y, to.y, bottom, from.x, to.x, rect.x, right);
    match sooner(sooner(l, r), sooner(t, b)) {
        Some(k) => {
            let x: i64 = from.x + part_of(to.x - from.x, k.num, k.den);
            let y: i64 = from.y + part_of(to.y - from.y, k.num, k.den);
            Some(Point { x, y })
        },
        None => None,
    }
}

} // verus!
