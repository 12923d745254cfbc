use paddle_bounce::body::Body;
use paddle_bounce::geometry::{Arena, Point, Rect, COORD_LIMIT};
use paddle_bounce::simulation::{Config, Input, Simulation, Status};

fn config() -> Config {
    Config { arena: Arena { width: 800, height: 600 }, paddle_speed: 10 }
}

fn paddle() -> Rect {
    Rect { x: 350, y: 500, w: 100, h: 10 }
}

fn ball(x: i64, y: i64, vx: i64, vy: i64) -> Body {
    Body::new(Point::new(x, y), 10, Point::new(vx, vy)).unwrap()
}

fn simulation(bodies: Vec<Body>) -> Simulation {
    Simulation::new(config(), paddle(), bodies).unwrap()
}

#[test]
fn new_simulation_runs_with_the_paddle_at_rest() {
    let sim = simulation(vec![ball(400, 300, 7, 9)]);
    assert_eq!(sim.status(), Status::Running);
    assert!(sim.is_running());
    assert_eq!(sim.config(), config());
    assert_eq!(*sim.bodies(), vec![ball(400, 300, 7, 9)]);
    assert_eq!(sim.obstacle().rect, paddle());
    assert_eq!(sim.obstacle().next_rect, paddle());
    assert_eq!(sim.obstacle().velocity, Point { x: 0, y: 0 });
}

#[test]
fn new_simulation_may_have_no_bodies() {
    let mut sim = simulation(Vec::new());
    assert_eq!(sim.update(&vec![Input::MoveRight]), Status::Running);
    assert_eq!(sim.obstacle().rect, Rect { x: 360, y: 500, w: 100, h: 10 });
    assert_eq!(sim.drawables(), vec![Rect { x: 360, y: 500, w: 100, h: 10 }]);
}

#[test]
fn new_simulation_refuses_what_is_not_well_formed() {
    let bad_arena = Config { arena: Arena { width: -1, height: 600 }, paddle_speed: 10 };
    assert!(Simulation::new(bad_arena, paddle(), Vec::new()).is_none());
    let bad_speed = Config { arena: Arena { width: 800, height: 600 }, paddle_speed: -10 };
    assert!(Simulation::new(bad_speed, paddle(), Vec::new()).is_none());
    let bad_paddle = Rect { x: 0, y: 0, w: -5, h: 10 };
    assert!(Simulation::new(config(), bad_paddle, Vec::new()).is_none());
    let mut bad_body = ball(400, 300, 7, 9);
    bad_body.radius = -1;
    assert!(Simulation::new(config(), paddle(), vec![ball(1, 1, 1, 1), bad_body]).is_none());
    let mut unsettled = ball(400, 300, 7, 9);
    unsettled.propose_move();
    assert!(Simulation::new(config(), paddle(), vec![unsettled]).is_none());
}

#[test]
fn update_moves_every_body_by_its_velocity() {
    let mut sim = simulation(vec![ball(400, 300, 7, 9), ball(100, 100, -3, 4)]);
    let status = sim.update(&Vec::new());
    assert_eq!(status, Status::Running);
    assert_eq!(sim.bodies()[0].position, Point { x: 407, y: 309 });
    assert_eq!(sim.bodies()[0].next_position, Point { x: 407, y: 309 });
    assert_eq!(sim.bodies()[0].velocity, Point { x: 7, y: 9 });
    assert_eq!(sim.bodies()[1].position, Point { x: 97, y: 104 });
    assert_eq!(sim.bodies()[1].velocity, Point { x: -3, y: 4 });
    assert_eq!(sim.obstacle().rect, paddle());
}

#[test]
fn update_steers_the_paddle_left_and_right() {
    let mut sim = simulation(Vec::new());
    sim.update(&vec![Input::MoveLeft]);
    assert_eq!(sim.obstacle().velocity, Point { x: -10, y: 0 });
    assert_eq!(sim.obstacle().rect, Rect { x: 340, y: 500, w: 100, h: 10 });
    assert_eq!(sim.obstacle().next_rect, sim.obstacle().rect);
    sim.update(&vec![Input::MoveRight]);
    assert_eq!(sim.obstacle().velocity, Point { x: 10, y: 0 });
    assert_eq!(sim.obstacle().rect, paddle());
}

#[test]
fn update_without_input_stops_the_paddle() {
    let mut sim = simulation(Vec::new());
    sim.update(&vec![Input::MoveLeft]);
    sim.update(&Vec::new());
    assert_eq!(sim.obstacle().velocity, Point { x: 0, y: 0 });
    assert_eq!(sim.obstacle().rect, Rect { x: 340, y: 500, w: 100, h: 10 });
}

#[test]
fn update_goes_by_the_last_directional_event() {
    let mut sim = simulation(Vec::new());
    sim.update(&vec![Input::MoveLeft, Input::MoveLeft, Input::MoveRight]);
    assert_eq!(sim.obstacle().velocity, Point { x: 10, y: 0 });
    assert_eq!(sim.obstacle().rect, Rect { x: 360, y: 500, w: 100, h: 10 });
    sim.update(&vec![Input::MoveRight, Input::MoveLeft]);
    assert_eq!(sim.obstacle().velocity, Point { x: -10, y: 0 });
    assert_eq!(sim.obstacle().rect, paddle());
}

#[test]
fn update_terminates_on_quit_and_changes_nothing_else() {
    let mut sim = simulation(vec![ball(400, 300, 7, 9)]);
    let status = sim.update(&vec![Input::MoveLeft, Input::Quit, Input::MoveRight]);
    assert_eq!(status, Status::Terminated);
    assert_eq!(sim.status(), Status::Terminated);
    assert!(!sim.is_running());
    assert_eq!(*sim.bodies(), vec![ball(400, 300, 7, 9)]);
    assert_eq!(sim.obstacle().rect, paddle());
    assert_eq!(sim.obstacle().velocity, Point { x: 0, y: 0 });
}

#[test]
fn update_of_a_terminated_simulation_does_nothing() {
    let mut sim = simulation(vec![ball(400, 300, 7, 9)]);
    sim.update(&vec![Input::Quit]);
    let status = sim.update(&vec![Input::MoveLeft]);
    assert_eq!(status, Status::Terminated);
    assert_eq!(*sim.bodies(), vec![ball(400, 300, 7, 9)]);
    assert_eq!(sim.obstacle().rect, paddle());
    assert_eq!(sim.obstacle().velocity, Point { x: 0, y: 0 });
    assert_eq!(sim.try_update(&Vec::new()), Some(Status::Terminated));
}

#[test]
fn update_bounces_a_body_off_the_paddle() {
    let mut sim = simulation(vec![ball(400, 495, 0, 8)]);
    sim.update(&Vec::new());
    assert_eq!(sim.bodies()[0].position, Point { x: 400, y: 497 });
    assert_eq!(sim.bodies()[0].velocity, Point { x: 0, y: -8 });
}

#[test]
fn update_checks_bodies_against_where_the_paddle_will_be() {
    // The paddle spans x in [350, 450] and moves left by 10: a body at x = 345 meets it,
    // a body at x = 445 does not.
    let mut sim = simulation(vec![ball(345, 495, 0, 8), ball(445, 495, 0, 8)]);
    sim.update(&vec![Input::MoveLeft]);
    assert_eq!(sim.obstacle().rect, Rect { x: 340, y: 500, w: 100, h: 10 });
    assert_eq!(sim.bodies()[0].position, Point { x: 345, y: 497 });
    assert_eq!(sim.bodies()[0].velocity, Point { x: 0, y: -8 });
    assert_eq!(sim.bodies()[1].position, Point { x: 445, y: 503 });
    assert_eq!(sim.bodies()[1].velocity, Point { x: 0, y: 8 });
}

#[test]
fn update_turns_a_body_back_at_the_wall_before_it_moves() {
    let mut sim = simulation(vec![ball(-5, 300, -3, 0)]);
    sim.update(&Vec::new());
    assert_eq!(sim.bodies()[0].velocity, Point { x: 3, y: 0 });
    assert_eq!(sim.bodies()[0].position, Point { x: -2, y: 300 });
}

#[test]
fn update_never_loses_a_body_at_the_bottom_edge() {
    let mut sim = simulation(vec![ball(100, 595, 0, 8)]);
    assert_eq!(sim.update(&Vec::new()), Status::Running);
    assert_eq!(sim.bodies()[0].position, Point { x: 100, y: 603 });
    assert_eq!(sim.update(&Vec::new()), Status::Running);
    assert_eq!(sim.bodies()[0].position, Point { x: 100, y: 595 });
    assert_eq!(sim.bodies()[0].velocity, Point { x: 0, y: -8 });
}

#[test]
fn bodies_stay_within_reach_of_the_arena() {
    let mut sim = simulation(vec![
        ball(400, 300, 7, 9),
        ball(10, 10, -10, -10),
        ball(790, 590, 10, 10),
        ball(400, 495, 3, 8),
        ball(355, 520, -6, -10),
        ball(0, 600, -1, 1),
    ]);
    let mut tick: i64 = 0;
    while tick < 3000 {
        // Twenty ticks to the left, twenty to the right: the paddle stays in the arena.
        let events = if (tick / 20) % 2 == 0 { vec![Input::MoveLeft] } else { vec![Input::MoveRight] };
        assert_eq!(sim.try_update(&events), Some(Status::Running));
        assert!(0 <= sim.obstacle().rect.x && sim.obstacle().rect.x + sim.obstacle().rect.w <= 800);
        for b in sim.bodies() {
            assert!(-b.radius <= b.position.x && b.position.x <= 800 + b.radius);
            assert!(-b.radius <= b.position.y && b.position.y <= 600 + b.radius);
            assert_eq!(b.next_position, b.position);
            assert_eq!(b.radius, 10);
        }
        tick += 1;
    }
}

#[test]
fn a_fast_body_leaves_the_reach_of_the_arena() {
    // A body that moves by more than its radius overshoots the wall by more than its radius.
    let mut sim = simulation(vec![ball(5, 300, -18, 0)]);
    sim.update(&Vec::new());
    assert_eq!(sim.bodies()[0].position, Point { x: -13, y: 300 });
}

#[test]
fn a_paddle_that_retreats_from_the_arena_takes_a_body_out_of_reach() {
    let slow_paddle = Config { arena: Arena { width: 800, height: 600 }, paddle_speed: 2 };
    let outside = Rect { x: -30, y: 300, w: 30, h: 10 };
    let mut sim = Simulation::new(slow_paddle, outside, vec![ball(2, 305, -4, 0)]).unwrap();
    let mut tick: i64 = 0;
    while tick < 7 {
        sim.update(&vec![Input::MoveLeft]);
        tick += 1;
    }
    assert_eq!(sim.obstacle().rect, Rect { x: -44, y: 300, w: 30, h: 10 });
    assert_eq!(sim.bodies()[0].position, Point { x: -14, y: 305 });
    assert_eq!(sim.bodies()[0].radius, 10);
}

#[test]
fn try_update_refuses_a_tick_that_leaves_the_coordinate_range() {
    let wide = Config { arena: Arena { width: COORD_LIMIT, height: 600 }, paddle_speed: 10 };
    let bodies = vec![ball(400, 300, 7, 9), ball(COORD_LIMIT - 1, 300, 5, 0)];
    let mut sim = Simulation::new(wide, paddle(), bodies.clone()).unwrap();
    assert!(!sim.fits(&vec![Input::MoveLeft]));
    assert_eq!(sim.try_update(&vec![Input::MoveLeft]), None);
    assert_eq!(*sim.bodies(), bodies);
    assert_eq!(sim.obstacle().rect, paddle());
    assert_eq!(sim.obstacle().velocity, Point { x: 0, y: 0 });
    assert_eq!(sim.status(), Status::Running);
    // A request to quit needs no room.
    assert!(sim.fits(&vec![Input::Quit]));
    assert_eq!(sim.try_update(&vec![Input::Quit]), Some(Status::Terminated));
}

#[test]
fn try_update_refuses_to_move_the_paddle_out_of_the_coordinate_range() {
    let far = Rect { x: COORD_LIMIT - 105, y: 500, w: 100, h: 10 };
    let mut sim = Simulation::new(config(), far, Vec::new()).unwrap();
    assert!(!sim.fits(&vec![Input::MoveRight]));
    assert_eq!(sim.try_update(&vec![Input::MoveRight]), None);
    assert_eq!(sim.obstacle().rect, far);
    assert!(sim.fits(&vec![Input::MoveLeft]));
    assert_eq!(sim.try_update(&vec![Input::MoveLeft]), Some(Status::Running));
    assert_eq!(sim.obstacle().rect, Rect { x: COORD_LIMIT - 115, y: 500, w: 100, h: 10 });
}

#[test]
fn try_update_makes_the_tick_that_update_makes() {
    let bodies = vec![ball(400, 495, 3, 8), ball(-5, 300, -3, 0)];
    let mut a = simulation(bodies.clone());
    let mut b = simulation(bodies);
    let events = vec![Input::MoveRight];
    assert!(a.fits(&events));
    let status = a.update(&events);
    assert_eq!(b.try_update(&events), Some(status));
    assert_eq!(a.bodies(), b.bodies());
    assert_eq!(a.obstacle(), b.obstacle());
    assert_eq!(a.status(), b.status());
}

#[test]
fn drawables_are_the_squares_of_the_bodies_and_then_the_paddle() {
    let sim = simulation(vec![ball(400, 300, 7, 9), ball(5, 7, 0, 0)]);
    assert_eq!(
        sim.drawables(),
        vec![
            Rect { x: 390, y: 290, w: 20, h: 20 },
            Rect { x: -5, y: -3, w: 20, h: 20 },
            Rect { x: 350, y: 500, w: 100, h: 10 },
        ]
    );
}

#[test]
fn drawables_follow_the_settled_state() {
    let mut sim = simulation(vec![ball(400, 300, 7, 9)]);
    sim.update(&vec![Input::MoveLeft]);
    assert_eq!(
        sim.drawables(),
        vec![Rect { x: 397, y: 299, w: 20, h: 20 }, Rect { x: 340, y: 500, w: 100, h: 10 }]
    );
}
