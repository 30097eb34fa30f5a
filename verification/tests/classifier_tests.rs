use polycycle::classifier::{
    angle_between, direction_between, direction_signs, FULL_TURN, HALF_TURN, QUARTER_TURN,
    THREE_QUARTER_TURN,
};
use polycycle::geometry::Point;

/// The arctangent of the slope from `p1` to `p2`, in millionths of a degree,
/// as a caller of the library computes it.
fn slope_angle(p1: Point, p2: Point) -> i32 {
    let dx = p2.x as f64 - p1.x as f64;
    let dy = p2.y as f64 - p1.y as f64;
    if dx == 0.0 {
        return 0;
    }
    ((dy / dx).atan().to_degrees() * 1_000_000.0).round() as i32
}

#[test]
fn turns_are_parts_of_the_full_turn() {
    assert_eq!(FULL_TURN, 360_000_000);
    assert_eq!(HALF_TURN * 2, FULL_TURN);
    assert_eq!(QUARTER_TURN * 4, FULL_TURN);
    assert_eq!(THREE_QUARTER_TURN, HALF_TURN + QUARTER_TURN);
}

#[test]
fn angle_to_the_same_point_is_a_quarter_turn() {
    let p = Point { x: 12, y: -7 };
    assert_eq!(angle_between(p, p, 0), QUARTER_TURN);
    assert_eq!(angle_between(p, p, 45_000_000), QUARTER_TURN);
    assert_eq!(angle_between(p, p, -QUARTER_TURN), QUARTER_TURN);
}

#[test]
fn angle_of_a_vertical_line() {
    let p = Point { x: 5, y: 5 };
    assert_eq!(angle_between(p, Point { x: 5, y: 9 }, 0), QUARTER_TURN);
    assert_eq!(angle_between(p, Point { x: 5, y: 1 }, 0), THREE_QUARTER_TURN);
}

#[test]
fn angle_along_the_axes() {
    let p = Point { x: 0, y: 0 };
    assert_eq!(angle_between(p, Point { x: 10, y: 0 }, 0), 0);
    assert_eq!(angle_between(p, Point { x: -10, y: 0 }, 0), HALF_TURN);
}

#[test]
fn angle_in_each_quadrant() {
    let p = Point { x: 0, y: 0 };
    assert_eq!(angle_between(p, Point { x: 10, y: 10 }, 45_000_000), 45_000_000);
    assert_eq!(angle_between(p, Point { x: -10, y: 10 }, -45_000_000), 135_000_000);
    assert_eq!(angle_between(p, Point { x: -10, y: -10 }, 45_000_000), 225_000_000);
    assert_eq!(angle_between(p, Point { x: 10, y: -10 }, -45_000_000), 315_000_000);
}

#[test]
fn angle_with_the_steepest_slopes() {
    let p = Point { x: 0, y: 0 };
    assert_eq!(angle_between(p, Point { x: 1, y: 9 }, QUARTER_TURN), QUARTER_TURN);
    assert_eq!(angle_between(p, Point { x: 1, y: -9 }, -QUARTER_TURN), THREE_QUARTER_TURN);
    assert_eq!(angle_between(p, Point { x: -1, y: 9 }, -QUARTER_TURN), QUARTER_TURN);
    assert_eq!(angle_between(p, Point { x: -1, y: -9 }, QUARTER_TURN), THREE_QUARTER_TURN);
}

#[test]
fn angle_is_always_within_one_turn() {
    let p = Point { x: 3, y: 4 };
    for x in -6..7 {
        for y in -6..7 {
            let q = Point { x, y };
            let angle = angle_between(p, q, slope_angle(p, q));
            assert!(0 <= angle && angle < FULL_TURN);
        }
    }
}

#[test]
fn angle_back_differs_by_half_a_turn() {
    let p = Point { x: 3, y: 4 };
    for x in -6..7 {
        for y in -6..7 {
            let q = Point { x, y };
            if q == p {
                continue;
            }
            let slope = slope_angle(p, q);
            let there = angle_between(p, q, slope);
            let back = angle_between(q, p, slope);
            assert_eq!(back, (there + HALF_TURN) % FULL_TURN);
        }
    }
}

#[test]
fn angle_of_the_sides_of_a_triangle() {
    let a = Point { x: 138_564, y: 80_000 };
    let b = Point { x: -138_564, y: 80_000 };
    let c = Point { x: 0, y: -160_000 };
    assert_eq!(angle_between(a, b, slope_angle(a, b)), HALF_TURN);
    let down = angle_between(b, c, slope_angle(b, c));
    assert!((down - 300_000_000).abs() < 1_000);
    let up = angle_between(c, a, slope_angle(c, a));
    assert!((up - 60_000_000).abs() < 1_000);
}

#[test]
fn direction_signs_by_quadrant() {
    assert_eq!(direction_signs(45_000_000), (1, 1));
    assert_eq!(direction_signs(135_000_000), (-1, 1));
    assert_eq!(direction_signs(225_000_000), (-1, -1));
    assert_eq!(direction_signs(315_000_000), (1, -1));
}

#[test]
fn direction_signs_at_the_bounds() {
    assert_eq!(direction_signs(0), (1, 1));
    assert_eq!(direction_signs(QUARTER_TURN), (1, 1));
    assert_eq!(direction_signs(QUARTER_TURN + 1), (-1, 1));
    assert_eq!(direction_signs(HALF_TURN), (-1, 1));
    assert_eq!(direction_signs(HALF_TURN + 1), (-1, -1));
    assert_eq!(direction_signs(THREE_QUARTER_TURN), (-1, -1));
    assert_eq!(direction_signs(THREE_QUARTER_TURN + 1), (1, -1));
    assert_eq!(direction_signs(FULL_TURN), (1, -1));
}

#[test]
fn direction_between_points_by_quadrant() {
    let p = Point { x: 0, y: 0 };
    assert_eq!(direction_between(p, Point { x: 2, y: 3 }), (1, 1));
    assert_eq!(direction_between(p, Point { x: -2, y: 3 }), (-1, 1));
    assert_eq!(direction_between(p, Point { x: -2, y: -3 }), (-1, -1));
    assert_eq!(direction_between(p, Point { x: 2, y: -3 }), (1, -1));
}

#[test]
fn direction_between_points_on_the_axes() {
    let p = Point { x: 0, y: 0 };
    assert_eq!(direction_between(p, p), (1, 1));
    assert_eq!(direction_between(p, Point { x: 4, y: 0 }), (1, 1));
    assert_eq!(direction_between(p, Point { x: 0, y: 4 }), (1, 1));
    assert_eq!(direction_between(p, Point { x: -4, y: 0 }), (-1, 1));
    assert_eq!(direction_between(p, Point { x: 0, y: -4 }), (-1, -1));
}

#[test]
fn direction_between_points_is_that_of_the_bearing() {
    let p = Point { x: -1, y: 2 };
    for x in -40..41 {
        for y in -40..41 {
            let q = Point { x, y };
            let angle = angle_between(p, q, slope_angle(p, q));
            assert_eq!(direction_between(p, q), direction_signs(angle));
        }
    }
}
