//! Positions on the straight line between two points.
//!
//! A position is not blended from the end points. The line is taken as the
//! hypotenuse of a right triangle: its legs give the ratios `run` and `rise`,
//! the distance travelled along the line is split by them into a shift along
//! each axis, and the direction signs say which way each shift goes.

use vstd::prelude::*;
use crate::classifier::{direction, direction_between};
use crate::geometry::{
    hypotenuse_bounds, side_length, side_length_of, span, span_of, Point, MAX_SPAN,
};
use crate::units::{clamp, clamp_to, round_div, HALF, ONE};

verus! {

/// The value that stands for `1.0` in the ratio of a leg to the hypotenuse.
/// With forty binary places the rounding of a ratio never moves a position
/// by a whole unit.
pub const RATIO_ONE: u64 = 1_099_511_627_776;

/// The product of `ONE` and `RATIO_ONE`, by which a distance times a ratio is
/// divided to give a shift in whole units.
pub const SHIFT_SCALE: u128 = 1_099_511_627_776_000_000;

/// The width of the travelling band, as a fraction of the line's length.
pub const BAND_WIDTH: u32 = 800_000;

/// Half of `BAND_WIDTH`: how far the band reaches to each side of its
/// centre.
pub const HALF_BAND: u32 = 400_000;

/// The ratio of a leg to the hypotenuse `side`, in units of `1 / RATIO_ONE`,
/// rounded down.
pub open spec fn ratio(leg: int, side: int) -> int {
    leg * RATIO_ONE / side
}

/// The shift along one axis after `travel` millionths of a unit along the
/// line, rounded to the nearest whole unit.
pub open spec fn shift(travel: int, ratio: int) -> int {
    round_div(travel * ratio, SHIFT_SCALE as int)
}

/// The point reached from `p1` after `travel` millionths of a unit along the
/// line towards `p2`. Where the two points are one, it is that point.
pub open spec fn position_at(p1: (int, int), p2: (int, int), travel: int) -> (int, int) {
    let side = side_length(p1, p2);
    if side == 0 {
        p1
    } else {
        let run = ratio(span(p1.0, p2.0), side);
        let rise = ratio(span(p1.1, p2.1), side);
        let signs = direction(p1, p2);
        (p1.0 + signs.0 * shift(travel, run), p1.1 + signs.1 * shift(travel, rise))
    }
}

/// The point that lies the fraction `t` of the way from `p1` to `p2`.
pub open spec fn position_along(p1: (int, int), p2: (int, int), t: int) -> (int, int) {
    position_at(p1, p2, t * side_length(p1, p2))
}

/// The centre of the band at time `t`, as a fraction of the line: `t` is
/// stretched from `[0, 1]` to `[-window, 1 + window]`, so that the band
/// comes in from before the start and goes out past the end.
pub open spec fn remapped(t: int, window: int) -> int {
    t * (ONE + 2 * window) / (ONE as int) - window
}

/// How far along a line of length `side` the band starts, in millionths of a
/// unit.
pub open spec fn band_start(side: int, t: int, window: int) -> int {
    clamp(side * remapped(t, window) - side * HALF_BAND, 0, side * ONE)
}

/// How far along a line of length `side` the band ends, in millionths of a
/// unit.
pub open spec fn band_end(side: int, t: int, window: int) -> int {
    clamp(side * remapped(t, window) + side * HALF_BAND, 0, side * ONE)
}

/// Whether `p` lies in the rectangle that `p1` and `p2` span.
pub open spec fn within_box(p: (int, int), p1: (int, int), p2: (int, int)) -> bool {
    &&& (p1.0 <= p.0 <= p2.0 || p2.0 <= p.0 <= p1.0)
    &&& (p1.1 <= p.1 <= p2.1 || p2.1 <= p.1 <= p1.1)
}

/// What is left over when a leg is divided by the hypotenuse is less than the
/// hypotenuse, and a leg is never longer than it.
proof fn ratio_bounds(leg: int, side: int)
    requires
        0 <= leg,
        side > 0,
    ensures
        ratio(leg, side) * side <= leg * RATIO_ONE,
        leg * RATIO_ONE < ratio(leg, side) * side + side,
        leg <= side ==> ratio(leg, side) <= RATIO_ONE,
{
    let n = leg * RATIO_ONE;
    let q = ratio(leg, side);
    vstd::arithmetic::div_mod::lemma_fundamental_div_mod(n, side);
    vstd::arithmetic::div_mod::lemma_mod_bound(n, side);
    assert(q * side == side * q) by (nonlinear_arith);
    if leg <= side {
        assert(q <= RATIO_ONE) by (nonlinear_arith)
            requires
                q * side <= leg * RATIO_ONE,
                leg <= side,
                side > 0,
        ;
    }
}

/// A shift never goes past the end of its leg.
proof fn shift_within_leg(travel: int, leg: int, side: int)
    requires
        side > 0,
        0 <= leg <= side,
        0 <= travel <= side * ONE,
    ensures
        0 <= shift(travel, ratio(leg, side)) <= leg,
{
    let q = ratio(leg, side);
    ratio_bounds(leg, side);
    assert(0 <= q) by (nonlinear_arith)
        requires
            leg * RATIO_ONE < q * side + side,
            0 <= leg,
            side > 0,
    ;
    assert(0 <= travel * q <= leg * SHIFT_SCALE) by (nonlinear_arith)
        requires
            0 <= q,
            q * side <= leg * RATIO_ONE,
            0 <= travel <= side * ONE,
            SHIFT_SCALE == ONE * RATIO_ONE,
    ;
}

/// The point reached from `p1` after `travel` millionths of a unit along the
/// line towards `p2`.
pub fn point_at_distance(p1: Point, p2: Point, travel: u64) -> (p: Point)
    requires
        travel <= side_length(p1@, p2@) * ONE,
    ensures
        p@ == position_at(p1@, p2@, travel as int),
        within_box(p@, p1@, p2@),
{
    let a: u64 = span_of(p1.x, p2.x);
    let b: u64 = span_of(p1.y, p2.y);
    let side: u64 = side_length_of(p1, p2);
    if side == 0 {
        return p1;
    }
    assert(a * RATIO_ONE <= u128::MAX && b * RATIO_ONE <= u128::MAX) by (nonlinear_arith)
        requires
            a <= 0xffff_ffff,
            b <= 0xffff_ffff,
            RATIO_ONE == 1_099_511_627_776,
    ;
    let run: u128 = a as u128 * RATIO_ONE as u128 / side as u128;
    let rise: u128 = b as u128 * RATIO_ONE as u128 / side as u128;
    proof {
        ratio_bounds(a as int, side as int);
        ratio_bounds(b as int, side as int);
        shift_within_leg(travel as int, a as int, side as int);
        shift_within_leg(travel as int, b as int, side as int);
        assert(travel * run <= 0xffff_ffff_ffff_ffff * 1_099_511_627_776) by (nonlinear_arith)
            requires
                travel <= 0xffff_ffff_ffff_ffff,
                run <= 1_099_511_627_776,
        ;
        assert(travel * rise <= 0xffff_ffff_ffff_ffff * 1_099_511_627_776) by (nonlinear_arith)
            requires
                travel <= 0xffff_ffff_ffff_ffff,
                rise <= 1_099_511_627_776,
        ;
    }
    let shift_x: u128 = (travel as u128 * run + SHIFT_SCALE / 2) / SHIFT_SCALE;
    let shift_y: u128 = (travel as u128 * rise + SHIFT_SCALE / 2) / SHIFT_SCALE;
    let signs = direction_between(p1, p2);
    let x: i64 = if signs.0 > 0 {
        p1.x as i64 + shift_x as i64
    } else {
        p1.x as i64 - shift_x as i64
    };
    let y: i64 = if signs.1 > 0 {
        p1.y as i64 + shift_y as i64
    } else {
        p1.y as i64 - shift_y as i64
    };
    Point { x: x as i32, y: y as i32 }
}

/// The point that lies the fraction `t` of the way from `p1` to `p2`.
pub fn point_along(p1: Point, p2: Point, t: u32) -> (p: Point)
    requires
        t <= ONE,
    ensures
        p@ == position_along(p1@, p2@, t as int),
        within_box(p@, p1@, p2@),
        t == 0 ==> p == p1,
        t == ONE ==> p == p2,
{
    proof {
        position_along_starts_at_first(p1, p2);
        position_along_ends_at_second(p1, p2);
    }
    let side: u64 = side_length_of(p1, p2);
    assert(t * side <= side * ONE && side * ONE <= u64::MAX) by (nonlinear_arith)
        requires
            t <= ONE,
            side <= 2 * 0xffff_ffff,
            ONE == 1_000_000,
    ;
    point_at_distance(p1, p2, t as u64 * side)
}

/// The band at time `t`: the points where it starts and where it ends.
pub open spec fn band(p1: (int, int), p2: (int, int), t: int, window: int) -> (
    (int, int),
    (int, int),
) {
    let side = side_length(p1, p2);
    (
        position_at(p1, p2, band_start(side, t, window)),
        position_at(p1, p2, band_end(side, t, window)),
    )
}

/// The centre of the band at time `t`, as a fraction of the line, for a
/// window of the given width. It runs from `-window` to `ONE + window`.
pub fn remap(t: u32, window: u32) -> (u: i64)
    requires
        t <= ONE,
        window <= ONE,
    ensures
        u == remapped(t as int, window as int),
        -window <= u <= ONE + window,
        t == 0 ==> u == -window,
        t == ONE ==> u == ONE + window,
{
    let stretch: i64 = ONE as i64 + 2 * window as i64;
    assert(0 <= t * stretch <= ONE * stretch) by (nonlinear_arith)
        requires
            0 <= t <= ONE,
            0 <= stretch,
    ;
    (t as i64 * stretch) / ONE as i64 - window as i64
}

/// The travelling band at time `t`: the two points between which the line
/// from `p1` to `p2` is lit. The band is `BAND_WIDTH` of the line long and
/// each of its ends is held on the line by itself, so at either end of the
/// journey the band shrinks, down to a single point.
pub fn windowed_segment(p1: Point, p2: Point, t: u32, window: u32) -> (ends: (Point, Point))
    requires
        t <= ONE,
        window <= ONE,
    ensures
        (ends.0@, ends.1@) == band(p1@, p2@, t as int, window as int),
        within_box(ends.0@, p1@, p2@),
        within_box(ends.1@, p1@, p2@),
{
    let side: u64 = side_length_of(p1, p2);
    let u: i64 = remap(t, window);
    assert(side * ONE <= i64::MAX && side * HALF_BAND <= side * ONE && -(side * (2 * ONE))
        <= side * u <= side * (2 * ONE) && side * (2 * ONE) + side * ONE <= i64::MAX)
        by (nonlinear_arith)
        requires
            side <= 2 * 0xffff_ffff,
            ONE == 1_000_000,
            HALF_BAND == 400_000,
            -ONE <= u <= 2 * ONE,
    ;
    let whole: i64 = side as i64 * ONE as i64;
    let centre: i64 = side as i64 * u;
    let reach: i64 = side as i64 * HALF_BAND as i64;
    let start: i64 = clamp_to(centre - reach, 0, whole);
    let end: i64 = clamp_to(centre + reach, 0, whole);
    (point_at_distance(p1, p2, start as u64), point_at_distance(p1, p2, end as u64))
}

/// The square of the distance between two points.
pub open spec fn distance_squared(p: (int, int), q: (int, int)) -> int {
    (q.0 - p.0) * (q.0 - p.0) + (q.1 - p.1) * (q.1 - p.1)
}

/// On a line no longer than two coordinates can make it, the shift of one
/// axis at the fraction `t` stays within one unit of `t` times the leg.
proof fn shift_near_blend(t: int, leg: int, side: int)
    requires
        0 < side <= 2 * MAX_SPAN,
        0 <= leg <= side,
        0 <= t <= ONE,
    ensures
        -ONE < ONE * shift(t * side, ratio(leg, side)) - t * leg,
        2 * (ONE * shift(t * side, ratio(leg, side)) - t * leg) <= ONE,
        0 <= shift(t * side, ratio(leg, side)) <= leg,
{
    let q = ratio(leg, side);
    let travel = t * side;
    ratio_bounds(leg, side);
    assert(0 <= travel <= side * ONE) by (nonlinear_arith)
        requires
            travel == t * side,
            0 <= t <= ONE,
            0 < side,
    ;
    shift_within_leg(travel, leg, side);
    let product = travel * q;
    let blend = t * leg;
    assert(product <= RATIO_ONE * blend && RATIO_ONE * blend - travel <= product)
        by (nonlinear_arith)
        requires
            product == travel * q,
            travel == t * side,
            blend == t * leg,
            0 <= t,
            q * side <= leg * RATIO_ONE,
            leg * RATIO_ONE < q * side + side,
    ;
    assert(travel <= 2 * MAX_SPAN * ONE);
}

/// A shift grows with the distance travelled.
proof fn shift_grows(near: int, far: int, ratio: int)
    requires
        0 <= near <= far,
        0 <= ratio,
    ensures
        shift(near, ratio) <= shift(far, ratio),
{
    assert(near * ratio <= far * ratio) by (nonlinear_arith)
        requires
            0 <= near <= far,
            0 <= ratio,
    ;
}

/// At the fraction zero the position is the first point.
pub proof fn position_along_starts_at_first(p1: Point, p2: Point)
    ensures
        position_along(p1@, p2@, 0) == p1@,
{
    let side = side_length(p1@, p2@);
    assert(0 * side == 0);
    if side != 0 {
        let run = ratio(span(p1@.0, p2@.0), side);
        let rise = ratio(span(p1@.1, p2@.1), side);
        assert(0 * run == 0 && 0 * rise == 0);
        assert(shift(0, run) == 0);
        assert(shift(0, rise) == 0);
        let signs = direction(p1@, p2@);
        assert(signs.0 * 0 == 0 && signs.1 * 0 == 0);
    }
}

/// At the fraction one the position is the second point, exactly: the
/// rounding of the ratios costs less than half a unit.
pub proof fn position_along_ends_at_second(p1: Point, p2: Point)
    ensures
        position_along(p1@, p2@, ONE as int) == p2@,
{
    let side = side_length(p1@, p2@);
    let a = span(p1@.0, p2@.0);
    let b = span(p1@.1, p2@.1);
    hypotenuse_bounds(a, b);
    if side != 0 {
        shift_near_blend(ONE as int, a, side);
        shift_near_blend(ONE as int, b, side);
        let signs = direction(p1@, p2@);
        let sx = shift(ONE * side, ratio(a, side));
        let sy = shift(ONE * side, ratio(b, side));
        assert(sx == a);
        assert(sy == b);
        assert(signs.0 * sx == p2@.0 - p1@.0) by (nonlinear_arith)
            requires
                sx == a,
                a == span(p1@.0, p2@.0),
                signs == direction(p1@, p2@),
        ;
        assert(signs.1 * sy == p2@.1 - p1@.1) by (nonlinear_arith)
            requires
                sy == b,
                b == span(p1@.1, p2@.1),
                signs == direction(p1@, p2@),
        ;
    }
}

/// The position at the fraction `t` lies within one unit, on each axis, of
/// the point that a straight blend of the two end points would give.
pub proof fn position_along_is_near_blend(p1: Point, p2: Point, t: int)
    requires
        0 <= t <= ONE,
    ensures
        -ONE < ONE * (position_along(p1@, p2@, t).0 - p1@.0) - t * (p2@.0 - p1@.0) < ONE,
        -ONE < ONE * (position_along(p1@, p2@, t).1 - p1@.1) - t * (p2@.1 - p1@.1) < ONE,
{
    let side = side_length(p1@, p2@);
    let a = span(p1@.0, p2@.0);
    let b = span(p1@.1, p2@.1);
    hypotenuse_bounds(a, b);
    if side == 0 {
        assert(t * (p2@.0 - p1@.0) == 0 && t * (p2@.1 - p1@.1) == 0) by (nonlinear_arith)
            requires
                p2@.0 - p1@.0 == 0,
                p2@.1 - p1@.1 == 0,
        ;
    } else {
        shift_near_blend(t, a, side);
        shift_near_blend(t, b, side);
        let signs = direction(p1@, p2@);
        let sx = shift(t * side, ratio(a, side));
        let sy = shift(t * side, ratio(b, side));
        let dx = p2@.0 - p1@.0;
        let dy = p2@.1 - p1@.1;
        assert(-ONE < ONE * (signs.0 * sx) - t * dx < ONE) by (nonlinear_arith)
            requires
                -ONE < ONE * sx - t * a,
                2 * (ONE * sx - t * a) <= ONE,
                0 <= sx <= a,
                a == if dx >= 0 {
                    dx
                } else {
                    -dx
                },
                signs.0 == 1 || signs.0 == -1,
                dx > 0 ==> signs.0 == 1,
                dx < 0 ==> signs.0 == -1,
        ;
        assert(-ONE < ONE * (signs.1 * sy) - t * dy < ONE) by (nonlinear_arith)
            requires
                -ONE < ONE * sy - t * b,
                2 * (ONE * sy - t * b) <= ONE,
                0 <= sy <= b,
                b == if dy >= 0 {
                    dy
                } else {
                    -dy
                },
                signs.1 == 1 || signs.1 == -1,
                dy > 0 ==> signs.1 == 1,
                dy < 0 ==> signs.1 == -1,
        ;
    }
}

/// The position never comes nearer to the first point as `t` grows: the
/// distance from `p1` at `t1` is at most the distance at any later `t2`.
pub proof fn position_along_moves_away(p1: Point, p2: Point, t1: int, t2: int)
    requires
        0 <= t1 <= t2 <= ONE,
    ensures
        distance_squared(p1@, position_along(p1@, p2@, t1)) <= distance_squared(
            p1@,
            position_along(p1@, p2@, t2),
        ),
{
    let side = side_length(p1@, p2@);
    let a = span(p1@.0, p2@.0);
    let b = span(p1@.1, p2@.1);
    hypotenuse_bounds(a, b);
    if side != 0 {
        let run = ratio(a, side);
        let rise = ratio(b, side);
        shift_near_blend(t1, a, side);
        shift_near_blend(t1, b, side);
        ratio_bounds(a, side);
        ratio_bounds(b, side);
        assert(0 <= run && 0 <= rise) by (nonlinear_arith)
            requires
                a * RATIO_ONE < run * side + side,
                b * RATIO_ONE < rise * side + side,
                0 <= a,
                0 <= b,
                side > 0,
        ;
        assert(0 <= t1 * side <= t2 * side) by (nonlinear_arith)
            requires
                0 <= t1 <= t2,
                0 < side,
        ;
        shift_grows(t1 * side, t2 * side, run);
        shift_grows(t1 * side, t2 * side, rise);
        let signs = direction(p1@, p2@);
        let x1 = shift(t1 * side, run);
        let x2 = shift(t2 * side, run);
        let y1 = shift(t1 * side, rise);
        let y2 = shift(t2 * side, rise);
        assert((signs.0 * x1) * (signs.0 * x1) <= (signs.0 * x2) * (signs.0 * x2))
            by (nonlinear_arith)
            requires
                0 <= x1 <= x2,
                signs.0 == 1 || signs.0 == -1,
        ;
        assert((signs.1 * y1) * (signs.1 * y1) <= (signs.1 * y2) * (signs.1 * y2))
            by (nonlinear_arith)
            requires
                0 <= y1 <= y2,
                signs.1 == 1 || signs.1 == -1,
        ;
    }
}

/// Whenever the position moves at all between `t1` and `t2`, it moves away
/// from the first point: the position at `t2` lies strictly farther from
/// `p1` than the position at `t1`. Two fractions that round to one position
/// are the only ones that do not part.
pub proof fn position_along_moves_strictly_away(p1: Point, p2: Point, t1: int, t2: int)
    requires
        0 <= t1 < t2 <= ONE,
        position_along(p1@, p2@, t1) != position_along(p1@, p2@, t2),
    ensures
        distance_squared(p1@, position_along(p1@, p2@, t1)) < distance_squared(
            p1@,
            position_along(p1@, p2@, t2),
        ),
{
    let side = side_length(p1@, p2@);
    let a = span(p1@.0, p2@.0);
    let b = span(p1@.1, p2@.1);
    hypotenuse_bounds(a, b);
    if side != 0 {
        let run = ratio(a, side);
        let rise = ratio(b, side);
        shift_near_blend(t1, a, side);
        shift_near_blend(t1, b, side);
        ratio_bounds(a, side);
        ratio_bounds(b, side);
        assert(0 <= run && 0 <= rise) by (nonlinear_arith)
            requires
                a * RATIO_ONE < run * side + side,
                b * RATIO_ONE < rise * side + side,
                0 <= a,
                0 <= b,
                side > 0,
        ;
        assert(0 <= t1 * side <= t2 * side) by (nonlinear_arith)
            requires
                0 <= t1 <= t2,
                0 < side,
        ;
        shift_grows(t1 * side, t2 * side, run);
        shift_grows(t1 * side, t2 * side, rise);
        let signs = direction(p1@, p2@);
        let x1 = shift(t1 * side, run);
        let x2 = shift(t2 * side, run);
        let y1 = shift(t1 * side, rise);
        let y2 = shift(t2 * side, rise);
        assert(x1 < x2 || y1 < y2);
        assert((signs.0 * x1) * (signs.0 * x1) + (signs.1 * y1) * (signs.1 * y1) < (signs.0 * x2)
            * (signs.0 * x2) + (signs.1 * y2) * (signs.1 * y2)) by (nonlinear_arith)
            requires
                0 <= x1 <= x2,
                0 <= y1 <= y2,
                x1 < x2 || y1 < y2,
                signs.0 == 1 || signs.0 == -1,
                signs.1 == 1 || signs.1 == -1,
        ;
    }
}

/// Where the straight blend moves by two units or more on one axis between
/// `t1` and `t2`, the position moves too.
pub proof fn position_along_moves_on(p1: Point, p2: Point, t1: int, t2: int)
    requires
        0 <= t1 < t2 <= ONE,
        (t2 - t1) * span(p1@.0, p2@.0) >= 2 * ONE || (t2 - t1) * span(p1@.1, p2@.1) >= 2 * ONE,
    ensures
        position_along(p1@, p2@, t1) != position_along(p1@, p2@, t2),
{
    let side = side_length(p1@, p2@);
    let a = span(p1@.0, p2@.0);
    let b = span(p1@.1, p2@.1);
    hypotenuse_bounds(a, b);
    if side == 0 {
        assert((t2 - t1) * a == 0 && (t2 - t1) * b == 0) by (nonlinear_arith)
            requires
                a == 0,
                b == 0,
        ;
    } else {
        shift_near_blend(t1, a, side);
        shift_near_blend(t1, b, side);
        shift_near_blend(t2, a, side);
        shift_near_blend(t2, b, side);
        let signs = direction(p1@, p2@);
        let x1 = shift(t1 * side, ratio(a, side));
        let x2 = shift(t2 * side, ratio(a, side));
        let y1 = shift(t1 * side, ratio(b, side));
        let y2 = shift(t2 * side, ratio(b, side));
        assert((t2 - t1) * a == t2 * a - t1 * a && (t2 - t1) * b == t2 * b - t1 * b)
            by (nonlinear_arith);
        assert(x1 < x2 || y1 < y2);
        assert(signs.0 * x1 != signs.0 * x2 || signs.1 * y1 != signs.1 * y2) by (nonlinear_arith)
            requires
                x1 < x2 || y1 < y2,
                signs.0 == 1 || signs.0 == -1,
                signs.1 == 1 || signs.1 == -1,
        ;
    }
}

/// The band never runs backwards and never leaves the line: it starts no
/// later than it ends, both within the line's length, and it is at most
/// `BAND_WIDTH` of the line long. Where neither end is held back, it is
/// exactly that long.
pub proof fn band_is_ordered(side: int, t: int, window: int)
    requires
        0 <= side,
        0 <= t <= ONE,
        0 <= window <= ONE,
    ensures
        0 <= band_start(side, t, window) <= band_end(side, t, window) <= side * ONE,
        band_end(side, t, window) - band_start(side, t, window) <= side * BAND_WIDTH,
        0 <= side * remapped(t, window) - side * HALF_BAND && side * remapped(t, window) + side
            * HALF_BAND <= side * ONE ==> band_end(side, t, window) - band_start(side, t, window)
            == side * BAND_WIDTH,
{
    let centre = side * remapped(t, window);
    let reach = side * HALF_BAND;
    assert(0 <= reach && 0 <= side * ONE && side * BAND_WIDTH == 2 * reach) by (nonlinear_arith)
        requires
            0 <= side,
            reach == side * HALF_BAND,
            HALF_BAND == 400_000,
            BAND_WIDTH == 800_000,
            ONE == 1_000_000,
    ;
}

/// The centre of the band goes from `-window` at the fraction zero to
/// `ONE + window` at the fraction one, never back, and at no time is it
/// farther than `window` from the time itself.
pub proof fn remapped_spans_the_window(t1: int, t2: int, window: int)
    requires
        0 <= t1 <= t2 <= ONE,
        0 <= window <= ONE,
    ensures
        remapped(0, window) == -window,
        remapped(ONE as int, window) == ONE + window,
        remapped(t1, window) <= remapped(t2, window),
        t1 - window <= remapped(t1, window) <= t1 + window,
{
    let stretch = ONE + 2 * window;
    assert(t1 * stretch == t1 * ONE + 2 * (t1 * window) && 0 <= t1 * window <= ONE * window)
        by (nonlinear_arith)
        requires
            stretch == ONE + 2 * window,
            0 <= t1 <= ONE,
            0 <= window,
    ;
    assert(0 * stretch == 0);
    assert(ONE * stretch / (ONE as int) == stretch) by (nonlinear_arith)
        requires
            ONE == 1_000_000,
    ;
    assert(t1 * stretch <= t2 * stretch) by (nonlinear_arith)
        requires
            0 <= t1 <= t2,
            0 <= stretch,
    ;
}

/// On a line no longer than two coordinates can make it, the shift of one
/// axis after `travel` stays within one unit of the leg's share of the
/// travel.
proof fn shift_near_line(travel: int, leg: int, side: int)
    requires
        0 < side <= 2 * MAX_SPAN,
        0 <= leg <= side,
        0 <= travel <= side * ONE,
    ensures
        -(ONE * side) < ONE * side * shift(travel, ratio(leg, side)) - travel * leg,
        2 * (ONE * side * shift(travel, ratio(leg, side)) - travel * leg) <= ONE * side,
        0 <= shift(travel, ratio(leg, side)) <= leg,
{
    let q = ratio(leg, side);
    let s = shift(travel, q);
    ratio_bounds(leg, side);
    shift_within_leg(travel, leg, side);
    let product = travel * q;
    let exact = travel * leg;
    let across = travel * side;
    assert(product * side <= RATIO_ONE * exact && RATIO_ONE * exact - across <= product * side)
        by (nonlinear_arith)
        requires
            product == travel * q,
            exact == travel * leg,
            across == travel * side,
            0 <= travel,
            q * side <= leg * RATIO_ONE,
            leg * RATIO_ONE < q * side + side,
    ;
    // the rounding of the shift: D * s <= product + D / 2 < D * s + D
    let scale = SHIFT_SCALE as int;
    assert(scale * s <= product + scale / 2 < scale * s + scale);
    let whole = ONE * side;
    assert(scale * s * side <= product * side + (scale / 2) * side && product * side + (scale
        / 2) * side < scale * s * side + scale * side) by (nonlinear_arith)
        requires
            scale * s <= product + scale / 2 < scale * s + scale,
            0 < side,
    ;
    assert(scale * s * side == RATIO_ONE * (whole * s) && (scale / 2) * side == RATIO_ONE * (
    HALF * side) && scale * side == RATIO_ONE * whole && across <= whole * side)
        by (nonlinear_arith)
        requires
            scale == ONE * RATIO_ONE,
            scale / 2 == HALF * RATIO_ONE,
            whole == ONE * side,
            across == travel * side,
            0 <= travel <= side * ONE,
            0 < side,
    ;
    assert(whole * side < RATIO_ONE * (HALF * side)) by (nonlinear_arith)
        requires
            whole == ONE * side,
            0 < side <= 2 * 0xffff_ffff,
            RATIO_ONE == 1_099_511_627_776,
            HALF == 500_000,
            ONE == 1_000_000,
    ;
    assert(whole * s == ONE * side * s) by (nonlinear_arith)
        requires
            whole == ONE * side,
    ;
    assert(2 * (HALF * side) == whole) by (nonlinear_arith)
        requires
            whole == ONE * side,
            HALF + HALF == ONE,
    ;
}

/// The position after `travel` lies within one unit, on each axis, of the
/// point of the straight line that is `travel` away from the first point:
/// read back from its coordinates, the position gives the travel again to
/// within a unit of length.
pub proof fn position_at_is_near_line(p1: Point, p2: Point, travel: int)
    requires
        0 <= travel <= side_length(p1@, p2@) * ONE,
    ensures
        ({
            let whole = ONE * side_length(p1@, p2@);
            let p = position_at(p1@, p2@, travel);
            &&& -whole <= whole * (p.0 - p1@.0) - travel * (p2@.0 - p1@.0) <= whole
            &&& -whole <= whole * (p.1 - p1@.1) - travel * (p2@.1 - p1@.1) <= whole
            &&& within_box(p, p1@, p2@)
        }),
{
    let side = side_length(p1@, p2@);
    let a = span(p1@.0, p2@.0);
    let b = span(p1@.1, p2@.1);
    hypotenuse_bounds(a, b);
    if side == 0 {
        let whole = ONE * side;
        let p = position_at(p1@, p2@, travel);
        assert(travel == 0 && whole == 0 && p == p1@);
        assert(whole * (p.0 - p1@.0) == 0 && whole * (p.1 - p1@.1) == 0 && travel * (p2@.0
            - p1@.0) == 0 && travel * (p2@.1 - p1@.1) == 0) by (nonlinear_arith)
            requires
                travel == 0,
                whole == 0,
        ;
    } else {
        shift_near_line(travel, a, side);
        shift_near_line(travel, b, side);
        let signs = direction(p1@, p2@);
        let sx = shift(travel, ratio(a, side));
        let sy = shift(travel, ratio(b, side));
        let dx = p2@.0 - p1@.0;
        let dy = p2@.1 - p1@.1;
        let whole = ONE * side;
        assert(-whole <= whole * (signs.0 * sx) - travel * dx <= whole && (signs.0 * sx == sx
            || signs.0 * sx == -sx)) by (nonlinear_arith)
            requires
                -whole < whole * sx - travel * a,
                2 * (whole * sx - travel * a) <= whole,
                0 <= sx <= a,
                0 < whole,
                a == if dx >= 0 {
                    dx
                } else {
                    -dx
                },
                signs.0 == 1 || signs.0 == -1,
                dx > 0 ==> signs.0 == 1,
                dx < 0 ==> signs.0 == -1,
        ;
        assert(-whole <= whole * (signs.1 * sy) - travel * dy <= whole && (signs.1 * sy == sy
            || signs.1 * sy == -sy)) by (nonlinear_arith)
            requires
                -whole < whole * sy - travel * b,
                2 * (whole * sy - travel * b) <= whole,
                0 <= sy <= b,
                0 < whole,
                b == if dy >= 0 {
                    dy
                } else {
                    -dy
                },
                signs.1 == 1 || signs.1 == -1,
                dy > 0 ==> signs.1 == 1,
                dy < 0 ==> signs.1 == -1,
        ;
    }
}

} // verus!
