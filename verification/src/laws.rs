//! What holds of a body, of its bounces and of a simulation, whatever the
//! state.

use crate::body::{folded, struck_edges, tethered, turned, BodyView};
use crate::contact::{
    contact_moment, contact_point, inside_at, scaled_place, touches_at, toward_zero, Moment,
};
use crate::contact_laws::{
    lemma_contact_exact, lemma_contact_is_first, lemma_contact_on_entered_edge,
    lemma_contact_on_perimeter, lemma_contact_touches, lemma_entry_is_met,
};
use crate::geometry::{ArenaView, PointView, RectView, COORD_LIMIT};
use crate::obstacle::ObstacleView;
use crate::simulation::{Input, SimulationView, Status};
use vstd::prelude::*;

verus! {

// Committing

/// Committing a move twice is committing it once.
pub proof fn lemma_commit_idempotent(b: BodyView)
    ensures
        b.commit_move().commit_move() == b.commit_move(),
        b.commit_move().settled(),
{
}

/// Committing the move of an obstacle twice is committing it once.
pub proof fn lemma_obstacle_commit_idempotent(o: ObstacleView)
    ensures
        o.commit_move().commit_move() == o.commit_move(),
        o.commit_move().settled(),
{
}

// Bounces

/// A body whose move is at no instant of the tick on the perimeter of the
/// rectangle is left as it is.
pub proof fn lemma_no_crossing_no_change(b: BodyView, rect: RectView)
    requires
        rect.wf(),
        forall|m: Moment| m.valid() ==> !#[trigger] touches_at(rect, b.position, b.next_position, m),
    ensures
        b.resolve(rect) == b,
{
    lemma_contact_touches(rect, b.position, b.next_position);
}

/// A body whose move first meets the rectangle on its top edge while heading
/// down leaves the tick heading up at the same speed, with its proposed
/// position on or above that edge.
pub proof fn lemma_top_edge_reflection(b: BodyView, rect: RectView)
    requires
        rect.wf(),
        b.velocity.y > 0,
        b.next_position == b.position.offset(b.velocity),
        contact_point(rect, b.position, b.next_position) matches Some(first) && first.y
            == rect.top(),
    ensures
        b.resolve(rect).velocity.y == -b.velocity.y,
        b.resolve(rect).next_position.y == rect.top() - (b.next_position.y - rect.top()),
        b.resolve(rect).next_position.y <= rect.top(),
        b.resolve(rect).commit_move().position.y <= rect.top(),
{
    lemma_contact_on_perimeter(rect, b.position, b.next_position);
}

/// A move that starts above the top edge of a rectangle, ends on or below
/// it, and stays between the left and right edges throughout, first meets the
/// rectangle on its top edge.
pub proof fn lemma_falls_onto_top_edge(rect: RectView, from: PointView, to: PointView)
    requires
        rect.wf(),
        from.y < rect.top() <= to.y,
        rect.left() <= from.x <= rect.right(),
        rect.left() <= to.x <= rect.right(),
    ensures
        contact_point(rect, from, to) matches Some(first) && first.y == rect.top(),
{
    // At the instant (top - from.y) / (to.y - from.y) the body is on the top edge.
    let m = Moment { num: rect.top() - from.y, den: to.y - from.y };
    let p = scaled_place(from, to, m);
    assert(p.y == m.den * rect.top()) by (nonlinear_arith)
        requires
            p.y == m.den * from.y + m.num * (to.y - from.y),
            m.num == rect.top() - from.y,
            m.den == to.y - from.y,
    ;
    assert(m.den * rect.left() <= p.x <= m.den * rect.right()) by (nonlinear_arith)
        requires
            p.x == m.den * from.x + m.num * (to.x - from.x),
            0 <= m.num <= m.den,
            m.den > 0,
            rect.left() <= from.x <= rect.right(),
            rect.left() <= to.x <= rect.right(),
    ;
    assert(m.den * rect.top() <= m.den * rect.bottom()) by (nonlinear_arith)
        requires
            m.den > 0,
            rect.top() <= rect.bottom(),
    ;
    assert(touches_at(rect, from, to, m));
    lemma_contact_is_first(rect, from, to, m);
    lemma_contact_touches(rect, from, to);
    lemma_contact_on_perimeter(rect, from, to);
    // The first contact is no later than that instant, and before it the body is above the edge.
    let c = contact_moment(rect, from, to)->0;
    let q = scaled_place(from, to, c);
    assert(q.y <= c.den * rect.top()) by (nonlinear_arith)
        requires
            q.y == c.den * from.y + c.num * (to.y - from.y),
            c.num * m.den <= m.num * c.den,
            m.num == rect.top() - from.y,
            m.den == to.y - from.y,
            m.den > 0,
            c.den > 0,
            0 <= c.num,
    ;
    lemma_contact_exact_axis(from.y, to.y, rect.top(), c);
}

/// Where the body is exactly at the grid coordinate `at` at instant `m`, its
/// grid point at `m` has that coordinate.
proof fn lemma_contact_exact_axis(a0: int, a1: int, at: int, m: Moment)
    by (nonlinear_arith)
    requires
        m.valid(),
        m.den * a0 + m.num * (a1 - a0) == m.den * at,
    ensures
        a0 + toward_zero((a1 - a0) * m.num, m.den) == at,
{
    assert((a1 - a0) * m.num == (at - a0) * m.den);
}

/// A body whose move first meets the rectangle exactly at one of its corners
/// is turned round on both axes.
pub proof fn lemma_corner_turns_both(b: BodyView, rect: RectView, corner: PointView)
    requires
        rect.wf(),
        rect.is_corner(corner),
        contact_moment(rect, b.position, b.next_position) matches Some(m) && scaled_place(
            b.position,
            b.next_position,
            m,
        ) == (PointView { x: m.den * corner.x, y: m.den * corner.y }),
    ensures
        b.resolve(rect).velocity.x == -b.velocity.x,
        b.resolve(rect).velocity.y == -b.velocity.y,
        b.resolve(rect).next_position == (PointView {
            x: folded(b.next_position.x, corner.x),
            y: folded(b.next_position.y, corner.y),
        }),
{
    lemma_contact_exact(rect, b.position, b.next_position, corner);
}

/// A body that starts the tick outside the rectangle is not inside it once
/// its move is resolved: the move is not let through the perimeter.
pub proof fn lemma_bounce_stays_out(b: BodyView, rect: RectView)
    requires
        rect.wf(),
        !rect.contains(b.position),
    ensures
        !rect.strictly_contains(b.resolve(rect).next_position),
{
    lemma_contact_on_entered_edge(rect, b.position, b.next_position);
    if contact_point(rect, b.position, b.next_position) is None {
        if rect.strictly_contains(b.next_position) {
            let end = Moment { num: 1, den: 1 };
            assert(inside_at(rect, b.position, b.next_position, end));
            lemma_entry_is_met(rect, b.position, b.next_position, end);
        }
    }
}

/// On each axis, resolving a move leaves the proposed position no further
/// from the position than it was.
pub proof fn lemma_bounce_stays_near(b: BodyView, rect: RectView)
    requires
        rect.wf(),
    ensures
        ({
            let reach = b.next_position.x - b.position.x;
            let after = b.resolve(rect).next_position.x - b.position.x;
            -reach <= after <= reach || reach <= after <= -reach
        }),
        ({
            let reach = b.next_position.y - b.position.y;
            let after = b.resolve(rect).next_position.y - b.position.y;
            -reach <= after <= reach || reach <= after <= -reach
        }),
{
    lemma_contact_on_perimeter(rect, b.position, b.next_position);
}

/// A tick changes neither the radius of a body nor, on either axis, its
/// speed: a slow body stays slow.
pub proof fn lemma_step_keeps_speed(b: BodyView, arena: ArenaView, rect: RectView)
    ensures
        b.step(arena, rect).radius == b.radius,
        b.step(arena, rect).velocity.x == b.velocity.x || b.step(arena, rect).velocity.x
            == -b.velocity.x,
        b.step(arena, rect).velocity.y == b.velocity.y || b.step(arena, rect).velocity.y
            == -b.velocity.y,
        b.slow() ==> b.step(arena, rect).slow(),
{
}

// One body and the arena

/// A body that starts a tick in the playfield is tethered.
pub proof fn lemma_inside_is_tethered(b: BodyView, arena: ArenaView)
    requires
        arena.bounds().contains(b.position),
    ensures
        b.tethered(arena),
{
}

/// One tick on one axis keeps a body tethered, provided that a contact which
/// turns it lies in the playfield and between the two ends of its move.
proof fn lemma_axis_stays_tethered(pos: int, vel: int, extent: int, turns: bool, at: int)
    requires
        extent >= 0,
        tethered(pos, vel, extent),
        turns ==> 0 <= at <= extent,
        turns ==> (pos <= at <= pos + turned(pos, vel, extent) || pos + turned(pos, vel, extent)
            <= at <= pos),
    ensures
        ({
            let heading = turned(pos, vel, extent);
            if turns {
                tethered(folded(pos + heading, at), -heading, extent)
            } else {
                tethered(pos + heading, heading, extent)
            }
        }),
{
}

/// A body that is tethered stays tethered over a tick, provided that the
/// point at which it meets the obstacle, if it meets it, lies in the arena.
pub proof fn lemma_step_keeps_tethered(b: BodyView, arena: ArenaView, rect: RectView)
    requires
        arena.wf(),
        rect.wf(),
        b.tethered(arena),
        contact_point(rect, b.position, b.contain(arena).propose_move().next_position)
            matches Some(first) ==> arena.bounds().contains(first),
    ensures
        b.step(arena, rect).tethered(arena),
{
    let proposed = b.contain(arena).propose_move();
    lemma_contact_on_perimeter(rect, proposed.position, proposed.next_position);
    match contact_point(rect, proposed.position, proposed.next_position) {
        Some(first) => {
            let hits = struck_edges(rect, first);
            lemma_axis_stays_tethered(
                b.position.x,
                b.velocity.x,
                arena.width,
                hits.turns_x(),
                first.x,
            );
            lemma_axis_stays_tethered(
                b.position.y,
                b.velocity.y,
                arena.height,
                hits.turns_y(),
                first.y,
            );
        },
        None => {
            lemma_axis_stays_tethered(b.position.x, b.velocity.x, arena.width, false, 0);
            lemma_axis_stays_tethered(b.position.y, b.velocity.y, arena.height, false, 0);
        },
    }
}

/// A body meets a rectangle that lies in the arena only at points of the
/// arena.
pub proof fn lemma_contact_in_arena(
    rect: RectView,
    arena: ArenaView,
    from: PointView,
    to: PointView,
)
    requires
        rect.wf(),
        rect.within(arena.bounds()),
    ensures
        contact_point(rect, from, to) matches Some(first) ==> arena.bounds().contains(first),
{
    lemma_contact_on_perimeter(rect, from, to);
}

/// A tethered body that moves by no more than its radius per tick lies in
/// the playfield widened by its radius.
pub proof fn lemma_tethered_within_reach(b: BodyView, arena: ArenaView)
    requires
        b.tethered(arena),
        b.slow(),
    ensures
        b.within_reach(arena),
{
}

/// A tick of a tethered, slow body keeps every position that it computes
/// in the coordinate range, provided that the arena widened by twice the
/// radius of the body lies in the coordinate range.
pub proof fn lemma_contained_step_fits(b: BodyView, arena: ArenaView, rect: RectView)
    requires
        arena.wf(),
        rect.wf(),
        b.tethered(arena),
        b.slow(),
        arena.width + 2 * b.radius <= COORD_LIMIT,
        arena.height + 2 * b.radius <= COORD_LIMIT,
    ensures
        b.step_fits(arena, rect),
{
    let proposed = b.contain(arena).propose_move();
    lemma_contact_on_perimeter(rect, proposed.position, proposed.next_position);
}

// The simulation

/// A terminated simulation stays terminated, and as it is, whatever the
/// events and however many the ticks.
pub proof fn lemma_terminated_stays(s: SimulationView, ticks: Seq<Seq<Input>>)
    requires
        s.status == Status::Terminated,
    ensures
        s.run(ticks) == s,
    decreases ticks.len(),
{
    if ticks.len() > 0 {
        lemma_terminated_stays(s, ticks.drop_last());
    }
}

/// However many ticks a simulation runs, its configuration stays and its
/// paddle keeps its size.
pub proof fn lemma_run_keeps_paddle_size(s: SimulationView, ticks: Seq<Seq<Input>>)
    ensures
        s.run(ticks).config == s.config,
        s.run(ticks).obstacle.rect.w == s.obstacle.rect.w,
        s.run(ticks).obstacle.rect.h == s.obstacle.rect.h,
        s.run(ticks).bodies.len() == s.bodies.len(),
    decreases ticks.len(),
{
    if ticks.len() > 0 {
        lemma_run_keeps_paddle_size(s, ticks.drop_last());
    }
}

/// A tick keeps the bodies of a simulation contained, provided that every
/// body that meets the paddle in it meets it at a point of the arena.
pub proof fn lemma_update_keeps_contained(s: SimulationView, events: Seq<Input>)
    requires
        s.config.arena.wf(),
        s.obstacle.rect.wf(),
        s.contained(),
        s.bounces_in_arena(events),
    ensures
        s.update(events).contained(),
        s.update(events).config == s.config,
        s.update(events).obstacle.rect.wf(),
{
    let after = s.update(events);
    let arena = s.config.arena;
    let rect = s.steered(events).next_rect;
    if s.moves(events) {
        assert forall|i: int| 0 <= i < after.bodies.len() implies (#[trigger] after.bodies[i])
            .tethered(arena) && after.bodies[i].slow() by {
            let b = s.bodies[i];
            assert(b.tethered(arena) && b.slow());
            lemma_step_keeps_tethered(b, arena, rect);
            lemma_step_keeps_speed(b, arena, rect);
        }
    }
}

/// Contained bodies lie in the arena widened by their radius.
pub proof fn lemma_contained_within_reach(s: SimulationView)
    requires
        s.contained(),
    ensures
        s.within_reach(),
{
    assert forall|i: int| 0 <= i < s.bodies.len() implies (#[trigger] s.bodies[i]).within_reach(
        s.config.arena,
    ) by {
        assert(s.bodies[i].tethered(s.config.arena) && s.bodies[i].slow());
    }
}

/// A tick of a simulation whose bodies are contained keeps every coordinate
/// in the coordinate range, provided that the paddle's proposed rectangle
/// and, for each body, the arena widened by twice its radius lie in the
/// coordinate range.
pub proof fn lemma_contained_update_fits(s: SimulationView, events: Seq<Input>)
    requires
        s.config.arena.wf(),
        s.obstacle.rect.wf(),
        s.contained(),
        s.steered(events).next_rect.in_range(),
        forall|i: int|
            0 <= i < s.bodies.len() ==> s.config.arena.width + 2 * (#[trigger] s.bodies[i]).radius
                <= COORD_LIMIT && s.config.arena.height + 2 * s.bodies[i].radius <= COORD_LIMIT,
    ensures
        s.update_fits(events),
{
    let arena = s.config.arena;
    let rect = s.steered(events).next_rect;
    assert forall|i: int| 0 <= i < s.bodies.len() implies (#[trigger] s.bodies[i]).step_fits(
        arena,
        rect,
    ) by {
        assert(s.bodies[i].tethered(arena) && s.bodies[i].slow());
        lemma_contained_step_fits(s.bodies[i], arena, rect);
    }
}

/// However many ticks a simulation runs, each of its bodies stays in the
/// arena widened by its radius, provided that the bodies start contained
/// and that in every tick every body that meets the paddle meets it at a
/// point of the arena.
pub proof fn lemma_run_keeps_within_reach(s: SimulationView, ticks: Seq<Seq<Input>>)
    requires
        s.config.arena.wf(),
        s.obstacle.rect.wf(),
        s.contained(),
        s.always_bounces_in_arena(ticks),
    ensures
        s.run(ticks).contained(),
        s.run(ticks).within_reach(),
        s.run(ticks).config == s.config,
        s.run(ticks).obstacle.rect.wf(),
    decreases ticks.len(),
{
    if ticks.len() > 0 {
        lemma_run_keeps_within_reach(s, ticks.drop_last());
        lemma_update_keeps_contained(s.run(ticks.drop_last()), ticks.last());
    }
    lemma_contained_within_reach(s.run(ticks));
}

/// While the paddle's proposed rectangle lies in the arena, every body that
/// meets the paddle meets it at a point of the arena.
pub proof fn lemma_paddle_in_arena_suffices(s: SimulationView, events: Seq<Input>)
    requires
        s.obstacle.rect.wf(),
        s.paddle_in_arena(events),
    ensures
        s.bounces_in_arena(events),
{
    let rect = s.steered(events).next_rect;
    let arena = s.config.arena;
    if s.moves(events) {
        assert forall|i: int| 0 <= i < s.bodies.len() implies (contact_point(
            rect,
            (#[trigger] s.bodies[i]).position,
            s.bodies[i].contain(arena).propose_move().next_position,
        ) matches Some(first) ==> arena.bounds().contains(first)) by {
            lemma_contact_in_arena(
                rect,
                arena,
                s.bodies[i].position,
                s.bodies[i].contain(arena).propose_move().next_position,
            );
        }
    }
}

/// However many ticks a simulation runs, each of its bodies stays in the
/// arena widened by its radius, provided that the bodies start contained
/// and that in every tick the paddle's proposed rectangle lies in the arena.
pub proof fn lemma_paddle_kept_in_arena_keeps_within_reach(
    s: SimulationView,
    ticks: Seq<Seq<Input>>,
)
    requires
        s.config.arena.wf(),
        s.obstacle.rect.wf(),
        s.contained(),
        s.paddle_kept_in_arena(ticks),
    ensures
        s.always_bounces_in_arena(ticks),
        s.run(ticks).contained(),
        s.run(ticks).within_reach(),
    decreases ticks.len(),
{
    if ticks.len() > 0 {
        lemma_paddle_kept_in_arena_keeps_within_reach(s, ticks.drop_last());
        lemma_run_keeps_paddle_size(s, ticks.drop_last());
        lemma_paddle_in_arena_suffices(s.run(ticks.drop_last()), ticks.last());
    }
    lemma_run_keeps_within_reach(s, ticks);
}

} // verus!
