//! The paddle: a rectangle that moves by its velocity once per tick and
//! never changes its size.

use crate::geometry::{Point, PointView, Rect, RectView};
use vstd::prelude::*;

verus! {

/// The state of an obstacle.
pub struct ObstacleView {
    pub rect: RectView,
    pub next_rect: RectView,
    pub velocity: PointView,
}

impl ObstacleView {
    /// No move is pending: the proposed rectangle is the rectangle.
    pub open spec fn settled(self) -> bool {
        self.next_rect == self.rect
    }

    /// The obstacle with its velocity set to `velocity`.
    pub open spec fn steer(self, velocity: PointView) -> ObstacleView {
        ObstacleView { rect: self.rect, next_rect: self.next_rect, velocity }
    }

    /// The obstacle with its move for this tick proposed.
    pub open spec fn propose_move(self) -> ObstacleView {
        ObstacleView {
            rect: self.rect,
            next_rect: self.rect.offset(self.velocity),
            velocity: self.velocity,
        }
    }

    /// The obstacle with its proposed move made.
    pub open spec fn commit_move(self) -> ObstacleView {
        ObstacleView { rect: self.next_rect, next_rect: self.next_rect, velocity: self.velocity }
    }
}

/// A rectangle that bodies bounce off, with the move proposed for it.
#[derive(Clone, Copy, Debug, PartialEq, Eq, Structural)]
pub struct Obstacle {
    /// The rectangle as settled at the end of the last tick.
    pub rect: Rect,
    /// The rectangle proposed for the end of this tick.
    pub next_rect: Rect,
    /// The displacement per tick.
    pub velocity: Point,
}

impl View for Obstacle {
    type V = ObstacleView;

    open spec fn view(&self) -> ObstacleView {
        ObstacleView { rect: self.rect@, next_rect: self.next_rect@, velocity: self.velocity@ }
    }
}

impl Obstacle {
    /// Both rectangles are well formed and of one size, and the velocity
    /// lies in the coordinate range.
    pub open spec fn wf(self) -> bool {
        &&& self.rect.wf()
        &&& self.next_rect.wf()
        &&& self.next_rect.w == self.rect.w
        &&& self.next_rect.h == self.rect.h
        &&& self.velocity@.in_range()
    }

    /// A settled obstacle at rest at `rect`, if `rect` is well formed.
    pub fn new(rect: Rect) -> (o: Option<Obstacle>)
        ensures
            o is Some <==> rect.wf(),
            o is Some ==> o->0 == (Obstacle {
                rect,
                next_rect: rect,
                velocity: Point { x: 0, y: 0 },
            }),
    {
        if rect.is_wf() {
            Some(Obstacle { rect, next_rect: rect, velocity: Point { x: 0, y: 0 } })
        } else {
            None
        }
    }

    /// Whether the obstacle is well formed.
    pub fn is_wf(&self) -> (ok: bool)
        ensures
            ok == self.wf(),
    {
        self.rect.is_wf() && self.next_rect.is_wf() && self.next_rect.w == self.rect.w
            && self.next_rect.h == self.rect.h && self.velocity.in_range()
    }

    /// Sets the velocity.
    pub fn steer(&mut self, velocity: Point)
        requires
            old(self).wf(),
            velocity@.in_range(),
        ensures
            final(self)@ == old(self)@.steer(velocity@),
            final(self).wf(),
    {
        self.velocity = velocity;
    }

    /// Proposes the move for this tick: the rectangle moved by the velocity.
    pub fn propose_move(&mut self)
        requires
            old(self).wf(),
            old(self)@.propose_move().next_rect.in_range(),
        ensures
            final(self)@ == old(self)@.propose_move(),
            final(self).wf(),
    {
        self.next_rect.x = self.rect.x + self.velocity.x;
        self.next_rect.y = self.rect.y + self.velocity.y;
    }

    /// Makes the proposed move.
    pub fn commit_move(&mut self)
        requires
            old(self).wf(),
        ensures
            final(self)@ == old(self)@.commit_move(),
            final(self)@.settled(),
            final(self).wf(),
    {
        self.rect.x = self.next_rect.x;
        self.rect.y = self.next_rect.y;
    }
}

} // verus!
