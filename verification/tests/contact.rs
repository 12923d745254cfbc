use paddle_bounce::body::{classify, EdgeHits, CONTACT_EPSILON};
use paddle_bounce::contact::first_contact;
use paddle_bounce::geometry::{Arena, Point, Rect, COORD_LIMIT};

fn paddle() -> Rect {
    Rect { x: 0, y: 500, w: 100, h: 10 }
}

fn no_hits() -> EdgeHits {
    EdgeHits { left: false, right: false, top: false, bottom: false }
}

#[test]
fn contact_on_top_edge_when_falling_straight_down() {
    let c = first_contact(&paddle(), Point::new(50, 495), Point::new(50, 503));
    assert_eq!(c, Some(Point { x: 50, y: 500 }));
}

#[test]
fn contact_on_bottom_edge_when_rising() {
    let c = first_contact(&paddle(), Point::new(30, 520), Point::new(30, 505));
    assert_eq!(c, Some(Point { x: 30, y: 510 }));
}

#[test]
fn contact_on_left_edge_when_moving_right() {
    let c = first_contact(&paddle(), Point::new(-4, 505), Point::new(4, 505));
    assert_eq!(c, Some(Point { x: 0, y: 505 }));
}

#[test]
fn contact_on_right_edge_when_moving_left() {
    let c = first_contact(&paddle(), Point::new(104, 503), Point::new(98, 506));
    assert_eq!(c, Some(Point { x: 100, y: 505 }));
}

#[test]
fn no_contact_when_the_move_passes_beside_the_rectangle() {
    let c = first_contact(&paddle(), Point::new(200, 495), Point::new(200, 505));
    assert_eq!(c, None);
}

#[test]
fn no_contact_when_the_move_stops_short_of_the_rectangle() {
    let c = first_contact(&paddle(), Point::new(50, 480), Point::new(50, 499));
    assert_eq!(c, None);
}

#[test]
fn no_contact_when_the_move_stays_inside_the_rectangle() {
    let rect = Rect { x: 0, y: 0, w: 100, h: 100 };
    let c = first_contact(&rect, Point::new(10, 10), Point::new(20, 20));
    assert_eq!(c, None);
}

#[test]
fn contact_where_a_move_from_inside_leaves_the_rectangle() {
    let rect = Rect { x: 0, y: 0, w: 10, h: 10 };
    let c = first_contact(&rect, Point::new(5, 5), Point::new(5, 20));
    assert_eq!(c, Some(Point { x: 5, y: 10 }));
}

#[test]
fn contact_at_the_start_when_the_body_starts_on_the_perimeter() {
    let rect = Rect { x: 0, y: 0, w: 10, h: 10 };
    let c = first_contact(&rect, Point::new(0, 5), Point::new(-5, 5));
    assert_eq!(c, Some(Point { x: 0, y: 5 }));
}

#[test]
fn contact_at_the_end_when_the_move_ends_on_the_perimeter() {
    let c = first_contact(&paddle(), Point::new(50, 492), Point::new(50, 500));
    assert_eq!(c, Some(Point { x: 50, y: 500 }));
}

#[test]
fn contact_of_a_body_at_rest_on_the_perimeter() {
    let c = first_contact(&paddle(), Point::new(100, 507), Point::new(100, 507));
    assert_eq!(c, Some(Point { x: 100, y: 507 }));
}

#[test]
fn no_contact_of_a_body_at_rest_off_the_perimeter() {
    let c = first_contact(&paddle(), Point::new(50, 505), Point::new(50, 505));
    assert_eq!(c, None);
}

#[test]
fn contact_is_the_entry_point_not_the_exit_point() {
    // The move runs through the whole rectangle, from above it to below it.
    let c = first_contact(&paddle(), Point::new(40, 490), Point::new(40, 530));
    assert_eq!(c, Some(Point { x: 40, y: 500 }));
    let back = first_contact(&paddle(), Point::new(40, 530), Point::new(40, 490));
    assert_eq!(back, Some(Point { x: 40, y: 510 }));
}

#[test]
fn contact_exactly_at_a_corner() {
    let c = first_contact(&paddle(), Point::new(-5, 495), Point::new(5, 505));
    assert_eq!(c, Some(Point { x: 0, y: 500 }));
}

#[test]
fn contact_at_the_corner_when_sliding_along_the_line_of_an_edge() {
    let rect = Rect { x: 0, y: 0, w: 10, h: 10 };
    let c = first_contact(&rect, Point::new(0, -5), Point::new(0, 5));
    assert_eq!(c, Some(Point { x: 0, y: 0 }));
}

#[test]
fn contact_point_is_rounded_toward_the_start_of_the_move() {
    let rect = Rect { x: 10, y: 0, w: 10, h: 100 };
    // The exact crossing of the left edge is at y = 12.5.
    let down = first_contact(&rect, Point::new(7, 10), Point::new(13, 15));
    assert_eq!(down, Some(Point { x: 10, y: 12 }));
    let up = first_contact(&rect, Point::new(7, 15), Point::new(13, 10));
    assert_eq!(up, Some(Point { x: 10, y: 13 }));
}

#[test]
fn contact_misses_a_corner_narrowly() {
    // The move passes x = 0 at y = 499.5, just above the top edge, and reaches
    // y = 500 a third of a unit inside the left edge.
    let c = first_contact(&paddle(), Point::new(-1, 498), Point::new(1, 501));
    assert_eq!(c, Some(Point { x: 0, y: 500 }));
    let hits = classify(&paddle(), c.unwrap());
    assert!(hits.left && hits.top);
}

#[test]
fn contact_with_a_rectangle_without_extent() {
    let dot = Rect { x: 5, y: 5, w: 0, h: 0 };
    let c = first_contact(&dot, Point::new(0, 0), Point::new(10, 10));
    assert_eq!(c, Some(Point { x: 5, y: 5 }));
    let miss = first_contact(&dot, Point::new(0, 0), Point::new(10, 9));
    assert_eq!(miss, None);
}

#[test]
fn contact_at_the_limits_of_the_coordinate_range() {
    let rect = Rect { x: -COORD_LIMIT, y: -COORD_LIMIT, w: 2 * COORD_LIMIT, h: 2 * COORD_LIMIT };
    let c = first_contact(
        &rect,
        Point::new(-COORD_LIMIT + 1, -COORD_LIMIT + 1),
        Point::new(COORD_LIMIT, COORD_LIMIT - 1),
    );
    assert_eq!(c, Some(Point { x: COORD_LIMIT, y: COORD_LIMIT - 1 }));
    let diagonal = first_contact(
        &Rect { x: 0, y: 0, w: COORD_LIMIT, h: COORD_LIMIT },
        Point::new(-COORD_LIMIT, -COORD_LIMIT),
        Point::new(COORD_LIMIT, COORD_LIMIT),
    );
    assert_eq!(diagonal, Some(Point { x: 0, y: 0 }));
}

#[test]
fn classify_names_each_edge() {
    let r = paddle();
    assert_eq!(classify(&r, Point::new(0, 505)), EdgeHits { left: true, ..no_hits() });
    assert_eq!(classify(&r, Point::new(100, 505)), EdgeHits { right: true, ..no_hits() });
    assert_eq!(classify(&r, Point::new(50, 500)), EdgeHits { top: true, ..no_hits() });
    assert_eq!(classify(&r, Point::new(50, 510)), EdgeHits { bottom: true, ..no_hits() });
}

#[test]
fn classify_names_both_edges_at_a_corner() {
    let r = paddle();
    assert_eq!(
        classify(&r, Point::new(100, 510)),
        EdgeHits { left: false, right: true, top: false, bottom: true }
    );
    assert_eq!(
        classify(&r, Point::new(0, 500)),
        EdgeHits { left: true, right: false, top: true, bottom: false }
    );
}

#[test]
fn classify_names_no_edge_away_from_the_perimeter() {
    let r = paddle();
    assert_eq!(classify(&r, Point::new(50, 505)), no_hits());
    assert_eq!(classify(&r, Point::new(-1, 499)), no_hits());
    assert_eq!(classify(&r, Point::new(1, 501)), no_hits());
}

#[test]
fn classify_goes_by_the_tolerance() {
    assert_eq!(CONTACT_EPSILON, 1);
    let r = paddle();
    // One unit off the left edge is not within the tolerance.
    assert!(!classify(&r, Point::new(1, 505)).left);
    assert!(!classify(&r, Point::new(-1, 505)).left);
    assert!(classify(&r, Point::new(0, 505)).left);
}

#[test]
fn rect_new_accepts_what_is_well_formed() {
    assert_eq!(Rect::new(0, 500, 100, 10), Some(Rect { x: 0, y: 500, w: 100, h: 10 }));
    assert_eq!(Rect::new(5, 5, 0, 0), Some(Rect { x: 5, y: 5, w: 0, h: 0 }));
    assert!(Rect::new(-COORD_LIMIT, -COORD_LIMIT, 2 * COORD_LIMIT, 2 * COORD_LIMIT).is_some());
}

#[test]
fn rect_new_refuses_negative_extents_and_what_is_out_of_range() {
    assert_eq!(Rect::new(0, 0, -1, 10), None);
    assert_eq!(Rect::new(0, 0, 10, -1), None);
    assert_eq!(Rect::new(COORD_LIMIT + 1, 0, 0, 0), None);
    assert_eq!(Rect::new(0, -COORD_LIMIT - 1, 0, 0), None);
    assert_eq!(Rect::new(COORD_LIMIT, 0, 1, 0), None);
    assert_eq!(Rect::new(0, 1, 0, COORD_LIMIT), None);
    assert_eq!(Rect::new(0, 0, i64::MAX, 0), None);
}

#[test]
fn arena_new_refuses_negative_extents_and_what_is_out_of_range() {
    assert_eq!(Arena::new(800, 600), Some(Arena { width: 800, height: 600 }));
    assert_eq!(Arena::new(0, 0), Some(Arena { width: 0, height: 0 }));
    assert_eq!(Arena::new(-1, 600), None);
    assert_eq!(Arena::new(800, -1), None);
    assert_eq!(Arena::new(COORD_LIMIT + 1, 600), None);
}

#[test]
fn point_in_range_goes_by_the_coordinate_limit() {
    assert!(Point::new(COORD_LIMIT, -COORD_LIMIT).in_range());
    assert!(!Point::new(COORD_LIMIT + 1, 0).in_range());
    assert!(!Point::new(0, -COORD_LIMIT - 1).in_range());
}
