//! Bearings between points and the direction signs that follow from them.
//!
//! Angles are whole numbers of millionths of a degree, so that the quarter
//! turns that bound the quadrants are exact. The one thing that integer
//! arithmetic cannot give is the arctangent of a slope: `angle_between` takes
//! it from the caller and does the rest.

use vstd::prelude::*;
use crate::geometry::Point;

verus! {

/// A full turn, 360 degrees.
pub const FULL_TURN: i32 = 360_000_000;

/// Half a turn, 180 degrees.
pub const HALF_TURN: i32 = 180_000_000;

/// A quarter of a turn, 90 degrees.
pub const QUARTER_TURN: i32 = 90_000_000;

/// Three quarters of a turn, 270 degrees.
pub const THREE_QUARTER_TURN: i32 = 270_000_000;

/// The bearing from `p1` to `p2`, measured from the positive x axis, where
/// `slope_angle` is the arctangent of the slope of the line through them:
/// a quarter turn up or down for a vertical line, else the arctangent,
/// turned by half a turn when `p2` lies to the left of `p1`; a negative
/// angle is then raised by a full turn.
pub open spec fn bearing(p1: (int, int), p2: (int, int), slope_angle: int) -> int {
    let dx = p2.0 - p1.0;
    let dy = p2.1 - p1.1;
    let raw = if dx == 0 {
        if dy >= 0 {
            QUARTER_TURN as int
        } else {
            -QUARTER_TURN
        }
    } else if dx < 0 {
        slope_angle + HALF_TURN
    } else {
        slope_angle
    };
    if raw < 0 {
        raw + FULL_TURN
    } else {
        raw
    }
}

/// The direction signs of an angle, by quadrant. The bounds belong to the
/// quadrant below them: the first row that holds the angle decides.
pub open spec fn signs_of(angle: int) -> (int, int) {
    if angle <= QUARTER_TURN {
        (1, 1)
    } else if angle <= HALF_TURN {
        (-1, 1)
    } else if angle <= THREE_QUARTER_TURN {
        (-1, -1)
    } else {
        (1, -1)
    }
}

/// The direction signs of the step from `p1` to `p2`, read off the
/// coordinates: the signs that the bearing from `p1` to `p2` has.
pub open spec fn direction(p1: (int, int), p2: (int, int)) -> (int, int) {
    let dx = p2.0 - p1.0;
    let dy = p2.1 - p1.1;
    (
        if dx > 0 || (dx == 0 && dy >= 0) {
            1int
        } else {
            -1int
        },
        if dy >= 0 {
            1int
        } else {
            -1int
        },
    )
}

/// Whether `slope_angle` can be the arctangent of the slope from `p1` to
/// `p2`: it has the sign of the slope and, the line not being vertical, lies
/// strictly within a quarter turn of zero. Of a vertical line nothing is
/// asked.
pub open spec fn slope_agrees(p1: (int, int), p2: (int, int), slope_angle: int) -> bool {
    let dx = p2.0 - p1.0;
    let dy = p2.1 - p1.1;
    dx != 0 ==> {
        &&& -QUARTER_TURN < slope_angle < QUARTER_TURN
        &&& (slope_angle > 0 <==> (dx > 0 && dy > 0) || (dx < 0 && dy < 0))
        &&& (slope_angle < 0 <==> (dx > 0 && dy < 0) || (dx < 0 && dy > 0))
    }
}

/// The bearing from `p1` to `p2` in `[0, FULL_TURN)`, given the arctangent of
/// the slope between them. For a vertical line, and so for `p1 == p2` too,
/// the arctangent is not looked at.
pub fn angle_between(p1: Point, p2: Point, slope_angle: i32) -> (angle: i32)
    requires
        -QUARTER_TURN <= slope_angle <= QUARTER_TURN,
    ensures
        angle == bearing(p1@, p2@, slope_angle as int),
        0 <= angle < FULL_TURN,
{
    let dx: i64 = p2.x as i64 - p1.x as i64;
    let dy: i64 = p2.y as i64 - p1.y as i64;
    let mut angle: i32;
    if dx == 0 {
        if dy >= 0 {
            angle = QUARTER_TURN;
        } else {
            angle = -QUARTER_TURN;
        }
    } else {
        angle = slope_angle;
        if dx < 0 {
            angle = angle + HALF_TURN;
        }
    }
    if angle < 0 {
        angle = angle + FULL_TURN;
    }
    angle
}

/// The direction signs `(x, y)` of an angle in `[0, FULL_TURN]`, each `1` or
/// `-1`.
pub fn direction_signs(angle: i32) -> (signs: (i8, i8))
    requires
        0 <= angle <= FULL_TURN,
    ensures
        (signs.0 as int, signs.1 as int) == signs_of(angle as int),
        signs.0 == 1 || signs.0 == -1,
        signs.1 == 1 || signs.1 == -1,
{
    if angle <= QUARTER_TURN {
        (1, 1)
    } else if angle <= HALF_TURN {
        (-1, 1)
    } else if angle <= THREE_QUARTER_TURN {
        (-1, -1)
    } else {
        (1, -1)
    }
}

/// The direction signs `(x, y)` of the step from `p1` to `p2`, each `1` or
/// `-1`.
pub fn direction_between(p1: Point, p2: Point) -> (signs: (i8, i8))
    ensures
        (signs.0 as int, signs.1 as int) == direction(p1@, p2@),
        signs.0 == 1 || signs.0 == -1,
        signs.1 == 1 || signs.1 == -1,
{
    let x_sign: i8 = if p2.x > p1.x || (p2.x == p1.x && p2.y >= p1.y) {
        1
    } else {
        -1
    };
    let y_sign: i8 = if p2.y >= p1.y {
        1
    } else {
        -1
    };
    (x_sign, y_sign)
}

/// The bearing from a point to itself is a quarter turn, whatever is given
/// for the arctangent.
pub proof fn bearing_to_itself(p: (int, int), slope_angle: int)
    ensures
        bearing(p, p, slope_angle) == QUARTER_TURN,
{
}

/// Going back turns the bearing by half a turn: the bearing from `p2` to `p1`
/// is the bearing from `p1` to `p2` plus half a turn, reduced to one turn.
/// Both lines have the same slope, hence the one arctangent.
pub proof fn bearing_reverses(p1: (int, int), p2: (int, int), slope_angle: int)
    requires
        p1 != p2,
        -QUARTER_TURN <= slope_angle <= QUARTER_TURN,
    ensures
        bearing(p2, p1, slope_angle) == (bearing(p1, p2, slope_angle) + HALF_TURN) % (
        FULL_TURN as int),
{
}

/// The signs read off the coordinates are those of the bearing: whichever
/// arctangent the caller computed for the slope, the quadrant of the bearing
/// gives the direction of the step.
pub proof fn direction_is_signs_of_bearing(p1: (int, int), p2: (int, int), slope_angle: int)
    requires
        slope_agrees(p1, p2, slope_angle),
    ensures
        signs_of(bearing(p1, p2, slope_angle)) == direction(p1, p2),
{
}

} // verus!
