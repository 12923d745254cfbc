//! The simulation step: one tick takes the buffered input, moves the paddle
//! and every body, and resolves each body against the paddle.

use crate::body::{Body, BodyView};
use crate::contact::contact_point;
use crate::geometry::{in_range, Arena, ArenaView, Point, PointView, Rect, RectView, COORD_LIMIT};
use crate::obstacle::{Obstacle, ObstacleView};
use vstd::prelude::*;

verus! {

/// An input event.
#[derive(Clone, Copy, Debug, PartialEq, Eq, Structural)]
pub enum Input {
    MoveLeft,
    MoveRight,
    Quit,
}

/// Whether the simulation still runs. A terminated one never runs again.
/// Only a request to quit terminates a simulation: a body that passes a wall
/// of the arena, the bottom one included, is turned back.
#[derive(Clone, Copy, Debug, PartialEq, Eq, Structural)]
pub enum Status {
    Running,
    Terminated,
}

/// What a simulation is set up with.
pub struct ConfigView {
    pub arena: ArenaView,
    pub paddle_speed: int,
}

/// What a simulation is set up with: the playfield, and the distance that
/// the paddle moves in a tick in which it is steered.
#[derive(Clone, Copy, Debug, PartialEq, Eq, Structural)]
pub struct Config {
    pub arena: Arena,
    pub paddle_speed: i64,
}

impl View for Config {
    type V = ConfigView;

    open spec fn view(&self) -> ConfigView {
        ConfigView { arena: self.arena@, paddle_speed: self.paddle_speed as int }
    }
}

impl Config {
    /// The arena is well formed and the paddle speed lies between zero and
    /// the coordinate limit.
    pub open spec fn wf(self) -> bool {
        self.arena.wf() && 0 <= self.paddle_speed <= COORD_LIMIT
    }

    /// Whether the configuration is well formed.
    pub fn is_wf(&self) -> (ok: bool)
        ensures
            ok == self.wf(),
    {
        0 <= self.arena.width && self.arena.width <= COORD_LIMIT && 0 <= self.arena.height
            && self.arena.height <= COORD_LIMIT && 0 <= self.paddle_speed && self.paddle_speed
            <= COORD_LIMIT
    }
}

/// Whether the events ask for the simulation to stop.
pub open spec fn quit_requested(events: Seq<Input>) -> bool {
    exists|i: int| 0 <= i < events.len() && events[i] == Input::Quit
}

/// The horizontal velocity that the events of one tick leave the paddle
/// with: that of the last directional event, and zero if there is none.
pub open spec fn steering(events: Seq<Input>, speed: int) -> int
    decreases events.len(),
{
    if events.len() == 0 {
        0
    } else {
        match events.last() {
            Input::MoveLeft => -speed,
            Input::MoveRight => speed,
            Input::Quit => steering(events.drop_last(), speed),
        }
    }
}

/// The state of a simulation.
pub struct SimulationView {
    pub config: ConfigView,
    pub bodies: Seq<BodyView>,
    pub obstacle: ObstacleView,
    pub status: Status,
}

impl SimulationView {
    /// The paddle as steered by the events, with its move proposed.
    pub open spec fn steered(self, events: Seq<Input>) -> ObstacleView {
        self.obstacle.steer(PointView { x: steering(events, self.config.paddle_speed), y: 0 })
            .propose_move()
    }

    /// The simulation after one tick with the given events. A terminated
    /// simulation stays as it is; a request to quit terminates it and
    /// changes nothing else; otherwise the paddle is steered and moved and
    /// every body makes its step against the paddle's proposed rectangle.
    pub open spec fn update(self, events: Seq<Input>) -> SimulationView {
        if self.status == Status::Terminated {
            self
        } else if quit_requested(events) {
            SimulationView {
                config: self.config,
                bodies: self.bodies,
                obstacle: self.obstacle,
                status: Status::Terminated,
            }
        } else {
            let paddle = self.steered(events);
            SimulationView {
                config: self.config,
                bodies: self.bodies.map_values(
                    |b: BodyView| b.step(self.config.arena, paddle.next_rect),
                ),
                obstacle: paddle.commit_move(),
                status: Status::Running,
            }
        }
    }

    /// Every coordinate that the tick computes lies in the coordinate range.
    pub open spec fn update_fits(self, events: Seq<Input>) -> bool {
        self.moves(events) ==> {
            let paddle = self.steered(events);
            &&& paddle.next_rect.in_range()
            &&& forall|i: int|
                0 <= i < self.bodies.len() ==> (#[trigger] self.bodies[i]).step_fits(
                    self.config.arena,
                    paddle.next_rect,
                )
        }
    }

    /// The simulation after the given ticks, each with its events, in order.
    pub open spec fn run(self, ticks: Seq<Seq<Input>>) -> SimulationView
        decreases ticks.len(),
    {
        if ticks.len() == 0 {
            self
        } else {
            self.run(ticks.drop_last()).update(ticks.last())
        }
    }

    /// Every body is tethered to the arena and moves by no more than its
    /// radius per tick.
    pub open spec fn contained(self) -> bool {
        forall|i: int|
            0 <= i < self.bodies.len() ==> (#[trigger] self.bodies[i]).tethered(self.config.arena)
                && self.bodies[i].slow()
    }

    /// Every body lies in the arena widened by its radius on every side.
    pub open spec fn within_reach(self) -> bool {
        forall|i: int|
            0 <= i < self.bodies.len() ==> (#[trigger] self.bodies[i]).within_reach(
                self.config.arena,
            )
    }

    /// Whether a tick with the given events moves anything: the simulation
    /// runs and the events do not ask it to stop.
    pub open spec fn moves(self, events: Seq<Input>) -> bool {
        self.status == Status::Running && !quit_requested(events)
    }

    /// In a tick with the given events, every body that meets the paddle
    /// meets it at a point of the arena.
    pub open spec fn bounces_in_arena(self, events: Seq<Input>) -> bool {
        let rect = self.steered(events).next_rect;
        let arena = self.config.arena;
        self.moves(events) ==> forall|i: int|
            0 <= i < self.bodies.len() ==> (contact_point(
                rect,
                (#[trigger] self.bodies[i]).position,
                self.bodies[i].contain(arena).propose_move().next_position,
            ) matches Some(first) ==> arena.bounds().contains(first))
    }

    /// In a tick with the given events, the paddle's proposed rectangle
    /// lies in the arena.
    pub open spec fn paddle_in_arena(self, events: Seq<Input>) -> bool {
        self.moves(events) ==> self.steered(events).next_rect.within(self.config.arena.bounds())
    }

    /// In each of the given ticks, the paddle's proposed rectangle lies in
    /// the arena.
    pub open spec fn paddle_kept_in_arena(self, ticks: Seq<Seq<Input>>) -> bool
        decreases ticks.len(),
    {
        ticks.len() > 0 ==> self.paddle_kept_in_arena(ticks.drop_last()) && self.run(
            ticks.drop_last(),
        ).paddle_in_arena(ticks.last())
    }

    /// In each of the given ticks, every body that meets the paddle meets it
    /// at a point of the arena.
    pub open spec fn always_bounces_in_arena(self, ticks: Seq<Seq<Input>>) -> bool
        decreases ticks.len(),
    {
        ticks.len() > 0 ==> self.always_bounces_in_arena(ticks.drop_last()) && self.run(
            ticks.drop_last(),
        ).bounces_in_arena(ticks.last())
    }

    /// What there is to draw: the square of each body, in order, and then
    /// the rectangle of the paddle.
    pub open spec fn drawables(self) -> Seq<RectView> {
        Seq::new(
            self.bodies.len() + 1,
            |i: int|
                if i < self.bodies.len() {
                    self.bodies[i].to_rect()
                } else {
                    self.obstacle.rect
                },
        )
    }
}

/// A simulation: the bodies, the paddle, and whether it still runs.
///
/// Its fields are its own: whatever is held here is well formed and has no
/// move pending.
#[derive(Debug)]
pub struct Simulation {
    config: Config,
    bodies: Vec<Body>,
    obstacle: Obstacle,
    status: Status,
}

impl View for Simulation {
    type V = SimulationView;

    closed spec fn view(&self) -> SimulationView {
        SimulationView {
            config: self.config@,
            bodies: views(self.bodies@),
            obstacle: self.obstacle@,
            status: self.status,
        }
    }
}

/// The states of the given bodies.
pub open spec fn views(bodies: Seq<Body>) -> Seq<BodyView> {
    bodies.map_values(|b: Body| b@)
}

/// Every body is well formed and settled.
pub open spec fn bodies_wf(bodies: Seq<Body>) -> bool {
    forall|i: int| 0 <= i < bodies.len() ==> (#[trigger] bodies[i]).wf() && bodies[i]@.settled()
}

proof fn lemma_quit_requested_step(events: Seq<Input>, i: int)
    requires
        0 <= i < events.len(),
    ensures
        quit_requested(events.take(i + 1)) == (quit_requested(events.take(i)) || events[i]
            == Input::Quit),
{
    let shorter = events.take(i);
    let longer = events.take(i + 1);
    if quit_requested(shorter) {
        let j = choose|j: int| 0 <= j < shorter.len() && shorter[j] == Input::Quit;
        assert(longer[j] == Input::Quit);
    }
    if events[i] == Input::Quit {
        assert(longer[i] == Input::Quit);
    }
    if quit_requested(longer) {
        let j = choose|j: int| 0 <= j < longer.len() && longer[j] == Input::Quit;
        if j < i {
            assert(shorter[j] == Input::Quit);
        }
    }
}

/// Whether the events ask to quit, and the velocity they steer the paddle to.
fn read_events(events: &Vec<Input>, speed: i64) -> (r: (bool, i64))
    requires
        0 <= speed <= COORD_LIMIT,
    ensures
        r.0 == quit_requested(events@),
        r.1 == steering(events@, speed as int),
        in_range(r.1 as int),
{
    let mut quit = false;
    let mut heading: i64 = 0;
    let mut i: usize = 0;
    while i < events.len()
        invariant
            0 <= i <= events.len(),
            0 <= speed <= COORD_LIMIT,
            quit == quit_requested(events@.take(i as int)),
            heading == steering(events@.take(i as int), speed as int),
            in_range(heading as int),
        decreases events.len() - i,
    {
        proof {
            lemma_quit_requested_step(events@, i as int);
            assert(events@.take(i + 1).drop_last() == events@.take(i as int));
            assert(events@.take(i + 1).last() == events@[i as int]);
        }
        match events[i] {
            Input::MoveLeft => {
                heading = -speed;
            },
            Input::MoveRight => {
                heading = speed;
            },
            Input::Quit => {
                quit = true;
            },
        }
        i += 1;
    }
    proof {
        assert(events@.take(events.len() as int) == events@);
    }
    (quit, heading)
}

impl Simulation {
    /// The configuration, the paddle and every body are well formed, and
    /// no move is pending.
    #[verifier::type_invariant]
    spec fn wf(self) -> bool {
        &&& self.config.wf()
        &&& self.obstacle.wf()
        &&& self.obstacle@.settled()
        &&& bodies_wf(self.bodies@)
    }

    /// A running simulation of the given bodies, with the paddle at rest at
    /// `paddle`, if all of them are well formed and every body is settled.
    pub fn new(config: Config, paddle: Rect, bodies: Vec<Body>) -> (s: Option<Simulation>)
        ensures
            s is Some <==> config.wf() && paddle.wf() && bodies_wf(bodies@),
            s matches Some(sim) ==> sim@ == (SimulationView {
                config: config@,
                bodies: views(bodies@),
                obstacle: ObstacleView {
                    rect: paddle@,
                    next_rect: paddle@,
                    velocity: PointView { x: 0, y: 0 },
                },
                status: Status::Running,
            }),
    {
        if !config.is_wf() {
            return None;
        }
        let mut i: usize = 0;
        while i < bodies.len()
            invariant
                0 <= i <= bodies.len(),
                forall|j: int| 0 <= j < i ==> (#[trigger] bodies@[j]).wf() && bodies@[j]@.settled(),
            decreases bodies.len() - i,
        {
            let b = bodies[i];
            if !b.is_wf() || b.next_position != b.position {
                return None;
            }
            i += 1;
        }
        match Obstacle::new(paddle) {
            Some(obstacle) => Some(Simulation { config, bodies, obstacle, status: Status::Running }),
            None => None,
        }
    }

    /// What the simulation was set up with.
    pub fn config(&self) -> (config: Config)
        ensures
            config@ == self@.config,
            config.wf(),
    {
        proof {
            use_type_invariant(self);
        }
        self.config
    }

    /// The bodies, in the order in which they were given.
    pub fn bodies(&self) -> (bodies: &Vec<Body>)
        ensures
            views(bodies@) == self@.bodies,
            bodies@.len() == self@.bodies.len(),
            forall|i: int| 0 <= i < bodies@.len() ==> (#[trigger] bodies@[i])@ == self@.bodies[i],
            bodies_wf(bodies@),
    {
        proof {
            use_type_invariant(self);
        }
        &self.bodies
    }

    /// The paddle.
    pub fn obstacle(&self) -> (obstacle: Obstacle)
        ensures
            obstacle@ == self@.obstacle,
            obstacle.wf(),
            obstacle@.settled(),
    {
        proof {
            use_type_invariant(self);
        }
        self.obstacle
    }

    /// Whether the simulation still runs.
    pub fn status(&self) -> (status: Status)
        ensures
            status == self@.status,
    {
        self.status
    }

    /// Whether the simulation still runs.
    pub fn is_running(&self) -> (running: bool)
        ensures
            running == (self@.status == Status::Running),
    {
        self.status == Status::Running
    }

    /// Whether a tick with the given events keeps every coordinate in the
    /// coordinate range.
    pub fn fits(&self, events: &Vec<Input>) -> (ok: bool)
        ensures
            ok == self@.update_fits(events@),
    {
        proof {
            use_type_invariant(self);
        }
        if self.status == Status::Terminated {
            return true;
        }
        let (quit, heading): (bool, i64) = read_events(events, self.config.paddle_speed);
        if quit {
            return true;
        }
        let mut paddle = self.obstacle;
        paddle.steer(Point { x: heading, y: 0 });
        let left: i64 = paddle.rect.x + heading;
        if left < -COORD_LIMIT || left + paddle.rect.w > COORD_LIMIT {
            return false;
        }
        paddle.propose_move();
        let mut i: usize = 0;
        while i < self.bodies.len()
            invariant
                0 <= i <= self.bodies.len(),
                bodies_wf(self.bodies@),
                self.status == Status::Running,
                !quit_requested(events@),
                paddle.next_rect.wf(),
                paddle@ == self@.steered(events@),
                forall|j: int|
                    0 <= j < i ==> (#[trigger] self@.bodies[j]).step_fits(
                        self@.config.arena,
                        paddle@.next_rect,
                    ),
            decreases self.bodies.len() - i,
        {
            let b = self.bodies[i];
            assert(self@.bodies[i as int] == b@);
            if !b.step_fits(&self.config.arena, &paddle.next_rect) {
                return false;
            }
            i += 1;
        }
        true
    }

    /// One tick. A terminated simulation is left as it is. A request to
    /// quit among the events terminates it and changes nothing else.
    /// Otherwise the paddle takes its velocity from the events and proposes
    /// its move, every body makes its step against the proposed rectangle,
    /// and the paddle commits. Returns the status after the tick.
    pub fn update(&mut self, events: &Vec<Input>) -> (status: Status)
        requires
            old(self)@.update_fits(events@),
        ensures
            final(self)@ == old(self)@.update(events@),
            status == final(self)@.status,
    {
        proof {
            use_type_invariant(&*self);
        }
        if self.status == Status::Terminated {
            return Status::Terminated;
        }
        let (quit, heading): (bool, i64) = read_events(events, self.config.paddle_speed);
        if quit {
            self.status = Status::Terminated;
            return Status::Terminated;
        }
        let ghost before = self@;
        let mut paddle = self.obstacle;
        paddle.steer(Point { x: heading, y: 0 });
        paddle.propose_move();
        let arena = self.config.arena;
        let rect = paddle.next_rect;
        let mut bodies: Vec<Body> = Vec::new();
        std::mem::swap(&mut bodies, &mut self.bodies);
        let mut i: usize = 0;
        while i < bodies.len()
            invariant
                0 <= i <= bodies.len(),
                bodies.len() == before.bodies.len(),
                rect.wf(),
                forall|j: int|
                    0 <= j < i ==> (#[trigger] bodies@[j])@ == before.bodies[j].step(arena@, rect@)
                        && bodies@[j].wf() && bodies@[j]@.settled(),
                forall|j: int|
                    i <= j < bodies.len() ==> (#[trigger] bodies@[j])@ == before.bodies[j]
                        && bodies@[j].wf(),
                forall|j: int|
                    0 <= j < before.bodies.len() ==> (#[trigger] before.bodies[j]).step_fits(
                        arena@,
                        rect@,
                    ),
            decreases bodies.len() - i,
        {
            let mut b = bodies[i];
            b.step(&arena, &rect);
            bodies.set(i, b);
            i += 1;
        }
        paddle.commit_move();
        self.bodies = bodies;
        self.obstacle = paddle;
        proof {
            assert(self@.bodies =~= before.update(events@).bodies);
        }
        Status::Running
    }

    /// One tick, where it keeps every coordinate in the coordinate range:
    /// then the simulation is updated and its status returned. Where it
    /// does not, the simulation is left as it is and `None` is returned.
    pub fn try_update(&mut self, events: &Vec<Input>) -> (status: Option<Status>)
        ensures
            match status {
                Some(s) => old(self)@.update_fits(events@) && final(self)@ == old(self)@.update(
                    events@,
                ) && s == final(self)@.status,
                None => !old(self)@.update_fits(events@) && *final(self) == *old(self),
            },
    {
        if self.fits(events) {
            Some(self.update(events))
        } else {
            None
        }
    }

    /// What there is to draw: the square of each body, in order, and then
    /// the rectangle of the paddle.
    pub fn drawables(&self) -> (shapes: Vec<Rect>)
        ensures
            shapes@.len() == self@.drawables().len(),
            forall|i: int|
                0 <= i < shapes@.len() ==> (#[trigger] shapes@[i])@ == self@.drawables()[i],
    {
        proof {
            use_type_invariant(self);
        }
        let mut shapes: Vec<Rect> = Vec::new();
        let mut i: usize = 0;
        while i < self.bodies.len()
            invariant
                0 <= i <= self.bodies.len(),
                bodies_wf(self.bodies@),
                shapes.len() == i,
                forall|j: int| 0 <= j < i ==> (#[trigger] shapes@[j])@ == self.bodies@[j]@.to_rect(),
            decreases self.bodies.len() - i,
        {
            let b = self.bodies[i];
            shapes.push(b.to_rect());
            i += 1;
        }
        shapes.push(self.obstacle.rect);
        shapes
    }
}

} // verus!
