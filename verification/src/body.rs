//! A moving body and what one tick does to it: turning back at the arena
//! walls, proposing a move, bouncing off a rectangle, and committing.

use crate::contact::{contact_point, first_contact};
use crate::contact_laws::lemma_contact_on_perimeter;
use crate::geometry::{
    in_range, Arena, ArenaView, Point, PointView, Rect, RectView, COORD_LIMIT,
};
use vstd::prelude::*;

verus! {

/// Tolerance, in grid units, within which a contact point counts as lying
/// on an edge. A contact point is exact across the edge it struck and rounded
/// by less than one unit along it, which this tolerance absorbs.
pub const CONTACT_EPSILON: i64 = 1;

/// Whether two coordinates differ by less than the contact tolerance.
pub open spec fn near(a: int, b: int) -> bool {
    -CONTACT_EPSILON < a - b < CONTACT_EPSILON
}

/// The edges of a rectangle that a contact point was found to lie on.
#[derive(Clone, Copy, Debug, PartialEq, Eq, Structural)]
pub struct EdgeHits {
    pub left: bool,
    pub right: bool,
    pub top: bool,
    pub bottom: bool,
}

impl EdgeHits {
    /// At least one edge was struck.
    pub open spec fn any(self) -> bool {
        self.left || self.right || self.top || self.bottom
    }

    /// A left or right edge was struck: the body turns on the x axis.
    pub open spec fn turns_x(self) -> bool {
        self.left || self.right
    }

    /// A top or bottom edge was struck: the body turns on the y axis.
    pub open spec fn turns_y(self) -> bool {
        self.top || self.bottom
    }
}

/// The edges of `rect` that the point `at` lies on, within the tolerance.
pub open spec fn struck_edges(rect: RectView, at: PointView) -> EdgeHits {
    EdgeHits {
        left: near(at.x, rect.left()),
        right: near(at.x, rect.right()),
        top: near(at.y, rect.top()),
        bottom: near(at.y, rect.bottom()),
    }
}

/// The velocity component `vel` of a body at `pos` after the wall check on
/// an axis whose playfield runs from 0 to `extent`.
pub open spec fn turned(pos: int, vel: int, extent: int) -> int {
    if pos < 0 || pos > extent {
        -vel
    } else {
        vel
    }
}

/// The coordinate `next` folded back across the contact coordinate `at`.
pub open spec fn folded(next: int, at: int) -> int {
    next - 2 * (next - at)
}

/// Whether a body at `pos` with velocity `vel`, on an axis whose playfield
/// runs from 0 to `extent`, is no further outside the playfield than its last
/// move took it: where it lies outside, it heads outward and came from inside.
pub open spec fn tethered(pos: int, vel: int, extent: int) -> bool {
    &&& pos < 0 ==> vel < 0 && pos - vel >= 0
    &&& pos > extent ==> vel > 0 && pos - vel <= extent
}

/// The state of a body.
pub struct BodyView {
    pub position: PointView,
    pub next_position: PointView,
    pub radius: int,
    pub velocity: PointView,
}

impl BodyView {
    /// Every field lies in the coordinate range.
    pub open spec fn in_range(self) -> bool {
        &&& self.position.in_range()
        &&& self.next_position.in_range()
        &&& in_range(self.radius)
        &&& self.velocity.in_range()
    }

    /// No move is pending: the proposed position is the position.
    pub open spec fn settled(self) -> bool {
        self.next_position == self.position
    }

    /// On both axes the body is no further outside the playfield than its
    /// last move took it.
    pub open spec fn tethered(self, arena: ArenaView) -> bool {
        &&& tethered(self.position.x, self.velocity.x, arena.width)
        &&& tethered(self.position.y, self.velocity.y, arena.height)
    }

    /// On neither axis does the body move by more than its radius in a tick.
    pub open spec fn slow(self) -> bool {
        &&& -self.radius <= self.velocity.x <= self.radius
        &&& -self.radius <= self.velocity.y <= self.radius
    }

    /// The position lies in the playfield widened by the radius on every side.
    pub open spec fn within_reach(self, arena: ArenaView) -> bool {
        &&& -self.radius <= self.position.x <= arena.width + self.radius
        &&& -self.radius <= self.position.y <= arena.height + self.radius
    }

    /// The body after the wall check: on each axis the velocity is turned
    /// round if the position lies outside the playfield.
    pub open spec fn contain(self, arena: ArenaView) -> BodyView {
        BodyView {
            position: self.position,
            next_position: self.next_position,
            radius: self.radius,
            velocity: PointView {
                x: turned(self.position.x, self.velocity.x, arena.width),
                y: turned(self.position.y, self.velocity.y, arena.height),
            },
        }
    }

    /// The body with its move for this tick proposed.
    pub open spec fn propose_move(self) -> BodyView {
        BodyView {
            position: self.position,
            next_position: self.position.offset(self.velocity),
            radius: self.radius,
            velocity: self.velocity,
        }
    }

    /// The body with its proposed move made.
    pub open spec fn commit_move(self) -> BodyView {
        BodyView {
            position: self.next_position,
            next_position: self.next_position,
            radius: self.radius,
            velocity: self.velocity,
        }
    }

    /// The body after bouncing off `rect` at the contact point `first`: on
    /// each axis on which an edge was struck the velocity is turned round
    /// and the proposed position is folded back across the contact point.
    pub open spec fn respond(self, rect: RectView, first: PointView) -> BodyView {
        let hits = struck_edges(rect, first);
        BodyView {
            position: self.position,
            next_position: PointView {
                x: if hits.turns_x() {
                    folded(self.next_position.x, first.x)
                } else {
                    self.next_position.x
                },
                y: if hits.turns_y() {
                    folded(self.next_position.y, first.y)
                } else {
                    self.next_position.y
                },
            },
            radius: self.radius,
            velocity: PointView {
                x: if hits.turns_x() {
                    -self.velocity.x
                } else {
                    self.velocity.x
                },
                y: if hits.turns_y() {
                    -self.velocity.y
                } else {
                    self.velocity.y
                },
            },
        }
    }

    /// The body after its proposed move was checked against `rect`: bounced
    /// at the point of first contact, or unchanged where there is none.
    pub open spec fn resolve(self, rect: RectView) -> BodyView {
        match contact_point(rect, self.position, self.next_position) {
            Some(first) => self.respond(rect, first),
            None => self,
        }
    }

    /// The body after one whole tick in `arena` with the obstacle at `rect`.
    pub open spec fn step(self, arena: ArenaView, rect: RectView) -> BodyView {
        self.contain(arena).propose_move().resolve(rect).commit_move()
    }

    /// Every position that the tick computes lies in the coordinate range.
    pub open spec fn step_fits(self, arena: ArenaView, rect: RectView) -> bool {
        let proposed = self.contain(arena).propose_move();
        proposed.next_position.in_range() && proposed.resolve(rect).next_position.in_range()
    }

    /// The square that the body covers: its position, `radius` to each side.
    pub open spec fn to_rect(self) -> RectView {
        RectView {
            x: self.position.x - self.radius,
            y: self.position.y - self.radius,
            w: 2 * self.radius,
            h: 2 * self.radius,
        }
    }
}

/// A ball: a body with a position, a radius and a per-tick velocity.
#[derive(Clone, Copy, Debug, PartialEq, Eq, Structural)]
pub struct Body {
    /// The centre, as settled at the end of the last tick.
    pub position: Point,
    /// The centre proposed for the end of this tick.
    pub next_position: Point,
    /// Half the side of the square that the body covers.
    pub radius: i64,
    /// The displacement per tick.
    pub velocity: Point,
}

impl View for Body {
    type V = BodyView;

    open spec fn view(&self) -> BodyView {
        BodyView {
            position: self.position@,
            next_position: self.next_position@,
            radius: self.radius as int,
            velocity: self.velocity@,
        }
    }
}

/// The edges of `rect` that the point `at` lies on, within the tolerance.
pub fn classify(rect: &Rect, at: Point) -> (hits: EdgeHits)
    requires
        rect.wf(),
    ensures
        hits == struck_edges(rect@, at@),
{
    let right: i64 = rect.x + rect.w;
    let bottom: i64 = rect.y + rect.h;
    EdgeHits {
        left: rect.x - CONTACT_EPSILON < at.x && at.x < rect.x + CONTACT_EPSILON,
        right: right - CONTACT_EPSILON < at.x && at.x < right + CONTACT_EPSILON,
        top: rect.y - CONTACT_EPSILON < at.y && at.y < rect.y + CONTACT_EPSILON,
        bottom: bottom - CONTACT_EPSILON < at.y && at.y < bottom + CONTACT_EPSILON,
    }
}

impl Body {
    /// Every field lies in the coordinate range and the radius is not negative.
    pub open spec fn wf(self) -> bool {
        self@.in_range() && self.radius >= 0
    }

    /// A settled body at `position`, if the values lie in the coordinate
    /// range and the radius is not negative.
    pub fn new(position: Point, radius: i64, velocity: Point) -> (b: Option<Body>)
        ensures
            b is Some <==> position@.in_range() && velocity@.in_range() && 0 <= radius
                <= COORD_LIMIT,
            b is Some ==> b->0 == (Body { position, next_position: position, radius, velocity }),
    {
        if position.in_range() && velocity.in_range() && 0 <= radius && radius <= COORD_LIMIT {
            Some(Body { position, next_position: position, radius, velocity })
        } else {
            None
        }
    }

    /// Whether the body is well formed.
    pub fn is_wf(&self) -> (ok: bool)
        ensures
            ok == self.wf(),
    {
        self.position.in_range() && self.next_position.in_range() && self.velocity.in_range() && 0
            <= self.radius && self.radius <= COORD_LIMIT
    }

    /// The wall check: turns the velocity round on each axis on which the
    /// position lies outside the playfield.
    pub fn contain(&mut self, arena: &Arena)
        requires
            old(self).wf(),
        ensures
            final(self)@ == old(self)@.contain(arena@),
            final(self).wf(),
    {
        if self.position.x < 0 || self.position.x > arena.width {
            self.velocity.x = -self.velocity.x;
        }
        if self.position.y < 0 || self.position.y > arena.height {
            self.velocity.y = -self.velocity.y;
        }
    }

    /// Proposes the move for this tick: the position plus the velocity.
    pub fn propose_move(&mut self)
        requires
            old(self).wf(),
            old(self)@.propose_move().next_position.in_range(),
        ensures
            final(self)@ == old(self)@.propose_move(),
            final(self).wf(),
    {
        self.next_position.x = self.position.x + self.velocity.x;
        self.next_position.y = self.position.y + self.velocity.y;
    }

    /// Makes the proposed move.
    pub fn commit_move(&mut self)
        requires
            old(self).wf(),
        ensures
            final(self)@ == old(self)@.commit_move(),
            final(self)@.settled(),
            final(self).wf(),
    {
        self.position.x = self.next_position.x;
        self.position.y = self.next_position.y;
    }

    /// The square that the body covers.
    pub fn to_rect(&self) -> (r: Rect)
        requires
            self.wf(),
        ensures
            r@ == self@.to_rect(),
    {
        Rect {
            x: self.position.x - self.radius,
            y: self.position.y - self.radius,
            w: 2 * self.radius,
            h: 2 * self.radius,
        }
    }

    /// Bounces the body off `rect` at the contact point `first` and returns
    /// the edges struck. A contact point that lies on no edge of `rect` is
    /// not a contact with it, and is excluded.
    pub fn respond(&mut self, rect: &Rect, first: Point) -> (hits: EdgeHits)
        requires
            old(self).wf(),
            rect.wf(),
            struck_edges(rect@, first@).any(),
            old(self)@.respond(rect@, first@).next_position.in_range(),
        ensures
            hits == struck_edges(rect@, first@),
            final(self)@ == old(self)@.respond(rect@, first@),
            final(self).wf(),
    {
        let hits = classify(rect, first);
        if hits.left || hits.right {
            self.velocity.x = -self.velocity.x;
            self.next_position.x = first.x - (self.next_position.x - first.x);
        }
        if hits.top || hits.bottom {
            self.velocity.y = -self.velocity.y;
            self.next_position.y = first.y - (self.next_position.y - first.y);
        }
        hits
    }

    /// Checks the proposed move against `rect`: where the move meets the
    /// perimeter, bounces the body at the point of first contact and returns
    /// the edges struck there; otherwise leaves the body as it is.
    pub fn resolve(&mut self, rect: &Rect) -> (hits: Option<EdgeHits>)
        requires
            old(self).wf(),
            rect.wf(),
            old(self)@.resolve(rect@).next_position.in_range(),
        ensures
            final(self)@ == old(self)@.resolve(rect@),
            final(self).wf(),
            match hits {
                Some(h) => contact_point(rect@, old(self)@.position, old(self)@.next_position)
                    matches Some(first) && h == struck_edges(rect@, first) && h.any(),
                None => contact_point(rect@, old(self)@.position, old(self)@.next_position)
                    is None,
            },
    {
        match first_contact(rect, self.position, self.next_position) {
            Some(first) => {
                proof {
                    lemma_contact_on_perimeter(rect@, self@.position, self@.next_position);
                }
                Some(self.respond(rect, first))
            },
            None => None,
        }
    }

    /// Whether one whole tick of the body, with the obstacle at `rect`,
    /// keeps every position that it computes in the coordinate range.
    pub fn step_fits(&self, arena: &Arena, rect: &Rect) -> (ok: bool)
        requires
            self.wf(),
            rect.wf(),
        ensures
            ok == self@.step_fits(arena@, rect@),
    {
        let mut probe = *self;
        probe.contain(arena);
        let to = Point {
            x: probe.position.x + probe.velocity.x,
            y: probe.position.y + probe.velocity.y,
        };
        if !to.in_range() {
            return false;
        }
        probe.propose_move();
        match first_contact(rect, probe.position, probe.next_position) {
            Some(first) => {
                proof {
                    lemma_contact_on_perimeter(rect@, probe@.position, probe@.next_position);
                }
                let hits = classify(rect, first);
                let x: i64 = if hits.left || hits.right {
                    first.x - (to.x - first.x)
                } else {
                    to.x
                };
                let y: i64 = if hits.top || hits.bottom {
                    first.y - (to.y - first.y)
                } else {
                    to.y
                };
                (Point { x, y }).in_range()
            },
            None => true,
        }
    }

    /// One whole tick of the body: wall check, proposal, check against the
    /// obstacle at `rect`, commit. Returns the edges of `rect` struck, if any.
    pub fn step(&mut self, arena: &Arena, rect: &Rect) -> (hits: Option<EdgeHits>)
        requires
            old(self).wf(),
            rect.wf(),
            old(self)@.step_fits(arena@, rect@),
        ensures
            final(self)@ == old(self)@.step(arena@, rect@),
            final(self)@.settled(),
            final(self).wf(),
            match hits {
                Some(h) => contact_point(
                    rect@,
                    old(self)@.position,
                    old(self)@.contain(arena@).propose_move().next_position,
                ) matches Some(first) && h == struck_edges(rect@, first) && h.any(),
                None => contact_point(
                    rect@,
                    old(self)@.position,
                    old(self)@.contain(arena@).propose_move().next_position,
                ) is None,
            },
    {
        self.contain(arena);
        self.propose_move();
        let hits = self.resolve(rect);
        self.commit_move();
        hits
    }
}

} // verus!
