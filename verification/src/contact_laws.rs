//! What holds of the first contact of a move with a rectangle: that it is
//! on the perimeter, that no point of the move before it is, and that a move
//! from outside the rectangle cannot get into it without one.

use crate::contact::{
    bottom_crossing, by_then, contact_moment, contact_point, crossing, earlier, enters_by,
    inside_at, left_crossing, lemma_part_bounds, right_crossing, scaled_place, top_crossing,
    touches_at, toward_zero, when_inside, Moment,
};
use crate::geometry::{PointView, RectView};
use vstd::prelude::*;

verus! {

/// A quotient rounded toward zero stays between two integer bounds that the
/// exact quotient lies between.
proof fn lemma_toward_zero_between(v: int, den: int, lo: int, hi: int)
    by (nonlinear_arith)
    requires
        den > 0,
        lo * den <= v <= hi * den,
    ensures
        lo <= toward_zero(v, den) <= hi,
{
}

/// A multiple of the divisor is divided exactly.
proof fn lemma_toward_zero_exact(k: int, den: int)
    by (nonlinear_arith)
    requires
        den > 0,
    ensures
        toward_zero(k * den, den) == k,
{
}

/// A meeting with an edge is an instant of the tick at which the body is
/// exactly on the line of the edge and within its span.
proof fn lemma_crossing_sound(a0: int, a1: int, e: int, b0: int, b1: int, lo: int, hi: int)
    by (nonlinear_arith)
    ensures
        crossing(a0, a1, e, b0, b1, lo, hi) matches Some(m) ==> {
            &&& m.valid()
            &&& m.den * a0 + m.num * (a1 - a0) == m.den * e
            &&& m.den * lo <= m.den * b0 + m.num * (b1 - b0) <= m.den * hi
        },
{
}

/// If the body is exactly on an edge at some instant, it meets that edge no
/// later, unless it slides along the line of the edge from beyond its span.
proof fn lemma_crossing_complete(
    a0: int,
    a1: int,
    e: int,
    b0: int,
    b1: int,
    lo: int,
    hi: int,
    m: Moment,
)
    requires
        m.valid(),
        m.den * a0 + m.num * (a1 - a0) == m.den * e,
        m.den * lo <= m.den * b0 + m.num * (b1 - b0) <= m.den * hi,
    ensures
        match crossing(a0, a1, e, b0, b1, lo, hi) {
            Some(s) => s.valid() && s.no_later_than(m),
            None => a0 == e && a1 == e && !(lo <= b0 <= hi),
        },
{
    let n = m.num;
    let d = m.den;
    if a0 == e {
        if lo <= b0 <= hi {
            assert((lo - b0) * 1 <= (b1 - b0) * 0 <= (hi - b0) * 1) by (nonlinear_arith)
                requires
                    lo <= b0 <= hi,
            ;
            assert(0 * d <= n * 1) by (nonlinear_arith)
                requires
                    n >= 0,
            ;
        } else {
            assert(!((lo - b0) * 1 <= (b1 - b0) * 0 <= (hi - b0) * 1)) by (nonlinear_arith)
                requires
                    !(lo <= b0 <= hi),
            ;
            assert(a1 == a0) by (nonlinear_arith)
                requires
                    d > 0,
                    0 <= n <= d,
                    d * a0 + n * (a1 - a0) == d * a0,
                    d * lo <= d * b0 + n * (b1 - b0) <= d * hi,
                    !(lo <= b0 <= hi),
            ;
        }
    } else if a0 < e {
        assert(e <= a1 && n > 0) by (nonlinear_arith)
            requires
                d > 0,
                0 <= n <= d,
                a0 < e,
                d * a0 + n * (a1 - a0) == d * e,
        ;
        assert((e - a0) * d == n * (a1 - a0)) by (nonlinear_arith)
            requires
                d * a0 + n * (a1 - a0) == d * e,
        ;
        lemma_same_instant(e - a0, a1 - a0, b0, b1, lo, hi, m);
    } else {
        assert(a1 <= e && n > 0) by (nonlinear_arith)
            requires
                d > 0,
                0 <= n <= d,
                e < a0,
                d * a0 + n * (a1 - a0) == d * e,
        ;
        assert((a0 - e) * d == n * (a0 - a1)) by (nonlinear_arith)
            requires
                d * a0 + n * (a1 - a0) == d * e,
        ;
        lemma_same_instant(a0 - e, a0 - a1, b0, b1, lo, hi, m);
    }
}

/// Whether a coordinate lies in a span at an instant does not depend on how
/// the instant is written as a fraction.
proof fn lemma_same_instant(num: int, den: int, b0: int, b1: int, lo: int, hi: int, m: Moment)
    by (nonlinear_arith)
    requires
        m.den > 0,
        den > 0,
        0 < num <= den,
        num * m.den == m.num * den,
        m.den * lo <= m.den * b0 + m.num * (b1 - b0) <= m.den * hi,
    ensures
        when_inside(num, den, b0, b1, lo, hi) == Some(Moment { num, den }),
        (Moment { num, den }).no_later_than(m),
{
    let db = b1 - b0;
    assert((lo - b0) * m.den <= m.num * db <= (hi - b0) * m.den);
    assert((lo - b0) * m.den * den <= m.num * db * den <= (hi - b0) * m.den * den);
    assert(m.num * db * den == db * num * m.den);
    assert((lo - b0) * den * m.den <= db * num * m.den <= (hi - b0) * den * m.den);
    assert((lo - b0) * den <= db * num <= (hi - b0) * den);
}

/// A body that slides along the line of an edge from beyond its span onto
/// the edge passes the end of the edge, which lies on the adjoining edge.
proof fn lemma_sliding_onto_edge(
    a: int,
    alo: int,
    ahi: int,
    b0: int,
    b1: int,
    lo: int,
    hi: int,
    m: Moment,
)
    by (nonlinear_arith)
    requires
        m.valid(),
        alo <= a <= ahi,
        lo <= hi,
        !(lo <= b0 <= hi),
        m.den * lo <= m.den * b0 + m.num * (b1 - b0) <= m.den * hi,
    ensures
        b0 < lo ==> (crossing(b0, b1, lo, a, a, alo, ahi) matches Some(s) && s.valid()
            && s.no_later_than(m)),
        b0 > hi ==> (crossing(b0, b1, hi, a, a, alo, ahi) matches Some(s) && s.valid()
            && s.no_later_than(m)),
{
}

/// Instants are ordered transitively.
proof fn lemma_no_later_transitive(s: Moment, t: Moment, u: Moment)
    by (nonlinear_arith)
    requires
        s.valid(),
        t.valid(),
        u.valid(),
        s.no_later_than(t),
        t.no_later_than(u),
    ensures
        s.no_later_than(u),
{
    assert(s.num * t.den * u.den <= t.num * s.den * u.den);
    assert(t.num * u.den * s.den <= u.num * t.den * s.den);
    assert(s.num * u.den * t.den <= u.num * s.den * t.den);
}

/// The earlier of two instants is one of them and not later than either.
proof fn lemma_earlier(a: Option<Moment>, b: Option<Moment>)
    ensures
        earlier(a, b) == a || earlier(a, b) == b,
        earlier(a, b) is None <==> a is None && b is None,
        a is Some ==> earlier(a, b)->0.no_later_than(a->0),
        b is Some ==> earlier(a, b)->0.no_later_than(b->0),
{
    if a is Some && b is Some {
        let s = a->0;
        let t = b->0;
        assert(s.no_later_than(t) || t.no_later_than(s));
    }
}

/// The grid point of a meeting with an edge lies on the line of the edge and
/// within its span.
proof fn lemma_crossing_place(a0: int, a1: int, e: int, b0: int, b1: int, lo: int, hi: int)
    ensures
        crossing(a0, a1, e, b0, b1, lo, hi) matches Some(m) ==> {
            &&& a0 + toward_zero((a1 - a0) * m.num, m.den) == e
            &&& lo <= b0 + toward_zero((b1 - b0) * m.num, m.den) <= hi
        },
{
    if let Some(m) = crossing(a0, a1, e, b0, b1, lo, hi) {
        lemma_crossing_sound(a0, a1, e, b0, b1, lo, hi);
        assert((a1 - a0) * m.num == (e - a0) * m.den) by (nonlinear_arith)
            requires
                m.den * a0 + m.num * (a1 - a0) == m.den * e,
        ;
        lemma_toward_zero_exact(e - a0, m.den);
        lemma_toward_zero_between((b1 - b0) * m.num, m.den, lo - b0, hi - b0);
    }
}

/// Every meeting of a move with an edge of a well-formed rectangle is an
/// instant of the tick at which the body is exactly on the perimeter.
proof fn lemma_edges_sound(rect: RectView, from: PointView, to: PointView)
    requires
        rect.wf(),
    ensures
        left_crossing(rect, from, to) matches Some(m) ==> m.valid() && touches_at(
            rect,
            from,
            to,
            m,
        ),
        right_crossing(rect, from, to) matches Some(m) ==> m.valid() && touches_at(
            rect,
            from,
            to,
            m,
        ),
        top_crossing(rect, from, to) matches Some(m) ==> m.valid() && touches_at(
            rect,
            from,
            to,
            m,
        ),
        bottom_crossing(rect, from, to) matches Some(m) ==> m.valid() && touches_at(
            rect,
            from,
            to,
            m,
        ),
{
    lemma_crossing_sound(from.x, to.x, rect.left(), from.y, to.y, rect.top(), rect.bottom());
    lemma_crossing_sound(from.x, to.x, rect.right(), from.y, to.y, rect.top(), rect.bottom());
    lemma_crossing_sound(from.y, to.y, rect.top(), from.x, to.x, rect.left(), rect.right());
    lemma_crossing_sound(from.y, to.y, rect.bottom(), from.x, to.x, rect.left(), rect.right());
    assert forall|m: Moment| m.den > 0 implies m.den * rect.left() <= m.den * rect.right()
        && m.den * rect.top() <= m.den * rect.bottom() by {
        assert(m.den * rect.left() <= m.den * rect.right()) by (nonlinear_arith)
            requires
                m.den > 0,
                rect.left() <= rect.right(),
        ;
        assert(m.den * rect.top() <= m.den * rect.bottom()) by (nonlinear_arith)
            requires
                m.den > 0,
                rect.top() <= rect.bottom(),
        ;
    }
}

/// The first contact is not later than any meeting with an edge.
proof fn lemma_contact_no_later(
    rect: RectView,
    from: PointView,
    to: PointView,
    s: Moment,
    m: Moment,
)
    requires
        rect.wf(),
        m.valid(),
        s.valid(),
        s.no_later_than(m),
        left_crossing(rect, from, to) == Some(s) || right_crossing(rect, from, to) == Some(s)
            || top_crossing(rect, from, to) == Some(s) || bottom_crossing(rect, from, to) == Some(
            s,
        ),
    ensures
        contact_moment(rect, from, to) matches Some(c) && c.valid() && c.no_later_than(m),
{
    let l = left_crossing(rect, from, to);
    let r = right_crossing(rect, from, to);
    let t = top_crossing(rect, from, to);
    let b = bottom_crossing(rect, from, to);
    lemma_edges_sound(rect, from, to);
    lemma_earlier(l, r);
    lemma_earlier(t, b);
    lemma_earlier(earlier(l, r), earlier(t, b));
    let c = contact_moment(rect, from, to)->0;
    if l == Some(s) || r == Some(s) {
        let h = earlier(l, r)->0;
        lemma_no_later_transitive(c, h, s);
    } else {
        let h = earlier(t, b)->0;
        lemma_no_later_transitive(c, h, s);
    }
    lemma_no_later_transitive(c, s, m);
}

/// The first contact is an instant of the tick at which the body is exactly
/// on the perimeter of the rectangle.
pub proof fn lemma_contact_touches(rect: RectView, from: PointView, to: PointView)
    requires
        rect.wf(),
    ensures
        contact_moment(rect, from, to) matches Some(m) ==> m.valid() && touches_at(
            rect,
            from,
            to,
            m,
        ),
{
    let l = left_crossing(rect, from, to);
    let r = right_crossing(rect, from, to);
    let t = top_crossing(rect, from, to);
    let b = bottom_crossing(rect, from, to);
    lemma_edges_sound(rect, from, to);
    lemma_earlier(l, r);
    lemma_earlier(t, b);
    lemma_earlier(earlier(l, r), earlier(t, b));
}

/// Whenever the body is exactly on the perimeter at some instant of the
/// tick, there is a first contact, and it is not later than that instant.
pub proof fn lemma_contact_is_first(rect: RectView, from: PointView, to: PointView, m: Moment)
    requires
        rect.wf(),
        m.valid(),
        touches_at(rect, from, to, m),
    ensures
        contact_moment(rect, from, to) matches Some(c) && c.valid() && c.no_later_than(m),
{
    let p = scaled_place(from, to, m);
    let along_x = p.x == m.den * rect.left() || p.x == m.den * rect.right();
    if along_x {
        let e = if p.x == m.den * rect.left() {
            rect.left()
        } else {
            rect.right()
        };
        lemma_crossing_complete(from.x, to.x, e, from.y, to.y, rect.top(), rect.bottom(), m);
        match crossing(from.x, to.x, e, from.y, to.y, rect.top(), rect.bottom()) {
            Some(s) => {
                lemma_contact_no_later(rect, from, to, s, m);
            },
            None => {
                lemma_sliding_onto_edge(
                    from.x,
                    rect.left(),
                    rect.right(),
                    from.y,
                    to.y,
                    rect.top(),
                    rect.bottom(),
                    m,
                );
                if from.y < rect.top() {
                    lemma_contact_no_later(rect, from, to, top_crossing(rect, from, to)->0, m);
                } else {
                    lemma_contact_no_later(rect, from, to, bottom_crossing(rect, from, to)->0, m);
                }
            },
        }
    } else {
        let e = if p.y == m.den * rect.top() {
            rect.top()
        } else {
            rect.bottom()
        };
        lemma_crossing_complete(from.y, to.y, e, from.x, to.x, rect.left(), rect.right(), m);
        match crossing(from.y, to.y, e, from.x, to.x, rect.left(), rect.right()) {
            Some(s) => {
                lemma_contact_no_later(rect, from, to, s, m);
            },
            None => {
                lemma_sliding_onto_edge(
                    from.y,
                    rect.top(),
                    rect.bottom(),
                    from.x,
                    to.x,
                    rect.left(),
                    rect.right(),
                    m,
                );
                if from.x < rect.left() {
                    lemma_contact_no_later(rect, from, to, left_crossing(rect, from, to)->0, m);
                } else {
                    lemma_contact_no_later(rect, from, to, right_crossing(rect, from, to)->0, m);
                }
            },
        }
    }
}

/// The point of first contact lies on the perimeter of the rectangle, and
/// between the two ends of the move on each axis.
pub proof fn lemma_contact_on_perimeter(rect: RectView, from: PointView, to: PointView)
    requires
        rect.wf(),
    ensures
        contact_point(rect, from, to) matches Some(c) ==> rect.on_perimeter(c) && c.between(
            from,
            to,
        ),
{
    let l = left_crossing(rect, from, to);
    let r = right_crossing(rect, from, to);
    let t = top_crossing(rect, from, to);
    let b = bottom_crossing(rect, from, to);
    lemma_edges_sound(rect, from, to);
    lemma_earlier(l, r);
    lemma_earlier(t, b);
    lemma_earlier(earlier(l, r), earlier(t, b));
    lemma_crossing_place(from.x, to.x, rect.left(), from.y, to.y, rect.top(), rect.bottom());
    lemma_crossing_place(from.x, to.x, rect.right(), from.y, to.y, rect.top(), rect.bottom());
    lemma_crossing_place(from.y, to.y, rect.top(), from.x, to.x, rect.left(), rect.right());
    lemma_crossing_place(from.y, to.y, rect.bottom(), from.x, to.x, rect.left(), rect.right());
    if let Some(m) = contact_moment(rect, from, to) {
        lemma_part_bounds(to.x - from.x, m.num, m.den);
        lemma_part_bounds(to.y - from.y, m.num, m.den);
    }
}

/// Where the body is exactly on a grid point at the instant of first
/// contact, that grid point is the point of first contact.
pub proof fn lemma_contact_exact(rect: RectView, from: PointView, to: PointView, p: PointView)
    requires
        rect.wf(),
        contact_moment(rect, from, to) matches Some(m) && scaled_place(from, to, m) == (PointView {
            x: m.den * p.x,
            y: m.den * p.y,
        }),
    ensures
        contact_point(rect, from, to) == Some(p),
{
    let m = contact_moment(rect, from, to)->0;
    lemma_contact_touches(rect, from, to);
    assert((to.x - from.x) * m.num == (p.x - from.x) * m.den) by (nonlinear_arith)
        requires
            m.den * from.x + m.num * (to.x - from.x) == m.den * p.x,
    ;
    assert((to.y - from.y) * m.num == (p.y - from.y) * m.den) by (nonlinear_arith)
        requires
            m.den * from.y + m.num * (to.y - from.y) == m.den * p.y,
    ;
    lemma_toward_zero_exact(p.x - from.x, m.den);
    lemma_toward_zero_exact(p.y - from.y, m.den);
}

/// A meeting with an edge is the same in the mirror image across the edge.
proof fn lemma_crossing_mirror_across(
    a0: int,
    a1: int,
    e: int,
    b0: int,
    b1: int,
    lo: int,
    hi: int,
)
    ensures
        crossing(-a0, -a1, -e, b0, b1, lo, hi) == crossing(a0, a1, e, b0, b1, lo, hi),
{
}

/// A meeting with an edge is the same in the mirror image along the edge.
proof fn lemma_crossing_mirror_along(
    a0: int,
    a1: int,
    e: int,
    b0: int,
    b1: int,
    lo: int,
    hi: int,
)
    ensures
        crossing(a0, a1, e, -b0, -b1, -hi, -lo) == crossing(a0, a1, e, b0, b1, lo, hi),
{
    assert forall|num: int, den: int|
        when_inside(num, den, -b0, -b1, -hi, -lo).is_some() == when_inside(
            num,
            den,
            b0,
            b1,
            lo,
            hi,
        ).is_some() by {
        assert(((-hi) - (-b0)) * den == -((hi - b0) * den)) by (nonlinear_arith);
        assert(((-lo) - (-b0)) * den == -((lo - b0) * den)) by (nonlinear_arith);
        assert(((-b1) - (-b0)) * num == -((b1 - b0) * num)) by (nonlinear_arith);
    }
}

/// A body that starts below the low end of one extent and is within both
/// extents at the instant `m` has by then come upon the low edge across the
/// first extent, or upon one of the two edges across the other.
proof fn lemma_enters_from_low(
    a0: int,
    a1: int,
    alo: int,
    ahi: int,
    b0: int,
    b1: int,
    blo: int,
    bhi: int,
    m: Moment,
)
    requires
        m.valid(),
        a0 < alo,
        m.den * alo <= m.den * a0 + m.num * (a1 - a0) <= m.den * ahi,
        m.den * blo <= m.den * b0 + m.num * (b1 - b0) <= m.den * bhi,
    ensures
        a0 < alo <= a1,
        ({
            ||| by_then(crossing(a0, a1, alo, b0, b1, blo, bhi), m)
            ||| (b0 < blo <= b1 && by_then(crossing(b0, b1, blo, a0, a1, alo, ahi), m))
            ||| (b1 <= bhi < b0 && by_then(crossing(b0, b1, bhi, a0, a1, alo, ahi), m))
        }),
{
    let n = m.num;
    let d = m.den;
    let da = a1 - a0;
    let db = b1 - b0;
    let p = alo - a0;
    assert(da > 0 && n > 0 && p * d <= n * da && alo <= a1) by (nonlinear_arith)
        requires
            d > 0,
            0 <= n <= d,
            p > 0,
            da == a1 - a0,
            p == alo - a0,
            d * alo <= d * a0 + n * da,
    ;
    if (blo - b0) * da <= db * p <= (bhi - b0) * da {
    } else if db * p < (blo - b0) * da {
        let q = blo - b0;
        assert(d * q <= n * db) by (nonlinear_arith)
            requires
                q == blo - b0,
                db == b1 - b0,
                d * blo <= d * b0 + n * db,
        ;
        assert(db > 0) by (nonlinear_arith)
            requires
                d > 0,
                da > 0,
                p > 0,
                n > 0,
                p * d <= n * da,
                db * p < q * da,
                d * q <= n * db,
        ;
        assert(q > 0 && blo <= b1 && q * d <= n * db) by (nonlinear_arith)
            requires
                d > 0,
                0 <= n <= d,
                db > 0,
                da > 0,
                p > 0,
                db * p < q * da,
                q == blo - b0,
                db == b1 - b0,
                d * blo <= d * b0 + n * db,
        ;
        assert(da * q <= (ahi - a0) * db) by (nonlinear_arith)
            requires
                d > 0,
                db > 0,
                da > 0,
                q * d <= n * db,
                d * a0 + n * da <= d * ahi,
        {
            assert(da * q * d <= da * (n * db));
            assert(db * (n * da) <= db * (d * (ahi - a0)));
        }
        assert((alo - a0) * db <= da * q) by (nonlinear_arith)
            requires
                p == alo - a0,
                db * p < q * da,
        ;
    } else {
        let q = b0 - bhi;
        assert(n * db <= -(d * q)) by (nonlinear_arith)
            requires
                q == b0 - bhi,
                db == b1 - b0,
                d * b0 + n * db <= d * bhi,
        ;
        assert(db < 0) by (nonlinear_arith)
            requires
                d > 0,
                da > 0,
                p > 0,
                n > 0,
                p * d <= n * da,
                db * p > -q * da,
                n * db <= -(d * q),
        ;
        assert(q > 0 && b1 <= bhi && q * d <= n * (b0 - b1)) by (nonlinear_arith)
            requires
                d > 0,
                0 <= n <= d,
                db < 0,
                da > 0,
                p > 0,
                db * p > -q * da,
                q == b0 - bhi,
                db == b1 - b0,
                d * b0 + n * db <= d * bhi,
        ;
        assert(da * q <= (ahi - a0) * (b0 - b1)) by (nonlinear_arith)
            requires
                d > 0,
                b0 - b1 > 0,
                da > 0,
                q * d <= n * (b0 - b1),
                d * a0 + n * da <= d * ahi,
        {
            assert(da * q * d <= da * (n * (b0 - b1)));
            assert((b0 - b1) * (n * da) <= (b0 - b1) * (d * (ahi - a0)));
        }
        assert((alo - a0) * (b0 - b1) <= da * q) by (nonlinear_arith)
            requires
                p == alo - a0,
                db == b1 - b0,
                db * p > -q * da,
        ;
    }
}

/// A body that starts above the high end of one extent and is within both
/// extents at the instant `m` has by then come upon the high edge across the
/// first extent, or upon one of the two edges across the other.
proof fn lemma_enters_from_high(
    a0: int,
    a1: int,
    alo: int,
    ahi: int,
    b0: int,
    b1: int,
    blo: int,
    bhi: int,
    m: Moment,
)
    requires
        m.valid(),
        ahi < a0,
        m.den * alo <= m.den * a0 + m.num * (a1 - a0) <= m.den * ahi,
        m.den * blo <= m.den * b0 + m.num * (b1 - b0) <= m.den * bhi,
    ensures
        a1 <= ahi < a0,
        ({
            ||| by_then(crossing(a0, a1, ahi, b0, b1, blo, bhi), m)
            ||| (b0 < blo <= b1 && by_then(crossing(b0, b1, blo, a0, a1, alo, ahi), m))
            ||| (b1 <= bhi < b0 && by_then(crossing(b0, b1, bhi, a0, a1, alo, ahi), m))
        }),
{
    assert(m.den * (-ahi) <= m.den * (-a0) + m.num * ((-a1) - (-a0)) <= m.den * (-alo))
        by (nonlinear_arith)
        requires
            m.den * alo <= m.den * a0 + m.num * (a1 - a0) <= m.den * ahi,
    ;
    lemma_enters_from_low(-a0, -a1, -ahi, -alo, b0, b1, blo, bhi, m);
    lemma_crossing_mirror_across(a0, a1, ahi, b0, b1, blo, bhi);
    lemma_crossing_mirror_along(b0, b1, blo, a0, a1, alo, ahi);
    lemma_crossing_mirror_along(b0, b1, bhi, a0, a1, alo, ahi);
}

/// A move that starts outside the rectangle and is in it at some instant of
/// the tick has by then come upon one of its edges from outside: the move
/// has a first contact, no later than that instant.
pub proof fn lemma_entry_is_met(rect: RectView, from: PointView, to: PointView, m: Moment)
    requires
        rect.wf(),
        !rect.contains(from),
        m.valid(),
        inside_at(rect, from, to, m),
    ensures
        enters_by(rect, from, to, m),
        contact_moment(rect, from, to) matches Some(c) && c.valid() && c.no_later_than(m),
{
    if from.x < rect.left() {
        lemma_enters_from_low(
            from.x,
            to.x,
            rect.left(),
            rect.right(),
            from.y,
            to.y,
            rect.top(),
            rect.bottom(),
            m,
        );
    } else if from.x > rect.right() {
        lemma_enters_from_high(
            from.x,
            to.x,
            rect.left(),
            rect.right(),
            from.y,
            to.y,
            rect.top(),
            rect.bottom(),
            m,
        );
    } else if from.y < rect.top() {
        lemma_enters_from_low(
            from.y,
            to.y,
            rect.top(),
            rect.bottom(),
            from.x,
            to.x,
            rect.left(),
            rect.right(),
            m,
        );
    } else {
        lemma_enters_from_high(
            from.y,
            to.y,
            rect.top(),
            rect.bottom(),
            from.x,
            to.x,
            rect.left(),
            rect.right(),
            m,
        );
    }
    lemma_edges_sound(rect, from, to);
    let l = left_crossing(rect, from, to);
    let r = right_crossing(rect, from, to);
    let t = top_crossing(rect, from, to);
    let b = bottom_crossing(rect, from, to);
    if by_then(l, m) {
        lemma_contact_no_later(rect, from, to, l->0, m);
    } else if by_then(r, m) {
        lemma_contact_no_later(rect, from, to, r->0, m);
    } else if by_then(t, m) {
        lemma_contact_no_later(rect, from, to, t->0, m);
    } else {
        lemma_contact_no_later(rect, from, to, b->0, m);
    }
}

/// The same instant, written as two fractions, gives the same grid point.
proof fn lemma_part_of_equal_moments(v: int, s: Moment, m: Moment)
    by (nonlinear_arith)
    requires
        s.valid(),
        m.valid(),
        s.num * m.den == m.num * s.den,
    ensures
        toward_zero(v * s.num, s.den) == toward_zero(v * m.num, m.den),
{
    let w = if v >= 0 {
        v
    } else {
        -v
    };
    let q = (w * s.num) / s.den;
    assert(q * s.den <= w * s.num < (q + 1) * s.den);
    assert(w * s.num * m.den == w * m.num * s.den);
    assert(q * s.den * m.den <= w * m.num * s.den < (q + 1) * s.den * m.den);
    assert(q * m.den <= w * m.num < (q + 1) * m.den);
    assert((w * m.num) / m.den == q);
    assert(v < 0 ==> -(v * s.num) == w * s.num && -(v * m.num) == w * m.num);
}

/// The point of first contact of a move that starts outside the rectangle
/// lies on an edge that the move comes upon from outside.
pub proof fn lemma_contact_on_entered_edge(rect: RectView, from: PointView, to: PointView)
    requires
        rect.wf(),
        !rect.contains(from),
    ensures
        contact_point(rect, from, to) matches Some(c) ==> {
            ||| from.x < rect.left() <= to.x && c.x == rect.left()
            ||| to.x <= rect.right() < from.x && c.x == rect.right()
            ||| from.y < rect.top() <= to.y && c.y == rect.top()
            ||| to.y <= rect.bottom() < from.y && c.y == rect.bottom()
        },
{
    if let Some(m) = contact_moment(rect, from, to) {
        lemma_contact_touches(rect, from, to);
        lemma_entry_is_met(rect, from, to, m);
        lemma_edges_sound(rect, from, to);
        let l = left_crossing(rect, from, to);
        let r = right_crossing(rect, from, to);
        let t = top_crossing(rect, from, to);
        let b = bottom_crossing(rect, from, to);
        lemma_crossing_place(from.x, to.x, rect.left(), from.y, to.y, rect.top(), rect.bottom());
        lemma_crossing_place(from.x, to.x, rect.right(), from.y, to.y, rect.top(), rect.bottom());
        lemma_crossing_place(from.y, to.y, rect.top(), from.x, to.x, rect.left(), rect.right());
        lemma_crossing_place(from.y, to.y, rect.bottom(), from.x, to.x, rect.left(), rect.right());
        let s = if from.x < rect.left() <= to.x && by_then(l, m) {
            l->0
        } else if to.x <= rect.right() < from.x && by_then(r, m) {
            r->0
        } else if from.y < rect.top() <= to.y && by_then(t, m) {
            t->0
        } else {
            b->0
        };
        lemma_contact_no_later(rect, from, to, s, s);
        assert(s.num * m.den == m.num * s.den);
        lemma_part_of_equal_moments(to.x - from.x, s, m);
        lemma_part_of_equal_moments(to.y - from.y, s, m);
    }
}

} // verus!
