//! Points of the plane and the lengths between them.

use vstd::prelude::*;
use crate::units::{floor_sqrt, floor_sqrt_exists, isqrt};

verus! {

/// A point of the plane. Its coordinates are whole numbers of the caller's
/// unit of length.
#[derive(Clone, Copy, Debug, PartialEq, Eq, Structural)]
pub struct Point {
    pub x: i32,
    pub y: i32,
}

impl View for Point {
    type V = (int, int);

    open spec fn view(&self) -> (int, int) {
        (self.x as int, self.y as int)
    }
}

/// The largest distance that two coordinates can lie apart.
pub const MAX_SPAN: u64 = 0xffff_ffff;

/// The distance between two coordinates on one axis.
pub open spec fn span(from: int, to: int) -> int {
    if to >= from {
        to - from
    } else {
        from - to
    }
}

/// The length of the straight line from `p1` to `p2`, rounded down to a whole
/// number.
pub open spec fn side_length(p1: (int, int), p2: (int, int)) -> int {
    let a = span(p1.0, p2.0);
    let b = span(p1.1, p2.1);
    floor_sqrt(a * a + b * b)
}

/// The distance between two coordinates on one axis.
pub fn span_of(from: i32, to: i32) -> (s: u64)
    ensures
        s == span(from as int, to as int),
        s <= MAX_SPAN,
{
    if to >= from {
        (to as i64 - from as i64) as u64
    } else {
        (from as i64 - to as i64) as u64
    }
}

/// The hypotenuse over the legs `a` and `b`, rounded down, is at least as
/// long as each leg, no longer than both together, and zero only when both
/// legs are.
pub proof fn hypotenuse_bounds(a: int, b: int)
    requires
        0 <= a,
        0 <= b,
    ensures
        a <= floor_sqrt(a * a + b * b),
        b <= floor_sqrt(a * a + b * b),
        floor_sqrt(a * a + b * b) <= a + b,
        floor_sqrt(a * a + b * b) == 0 <==> a == 0 && b == 0,
{
    let n = a * a + b * b;
    let r = floor_sqrt(n);
    assert(0 <= n) by (nonlinear_arith)
        requires
            n == a * a + b * b,
    ;
    floor_sqrt_exists(n);
    assert(a <= r && b <= r && r <= a + b) by (nonlinear_arith)
        requires
            0 <= a,
            0 <= b,
            0 <= r,
            n == a * a + b * b,
            r * r <= n < (r + 1) * (r + 1),
    ;
    assert(r == 0 <==> a == 0 && b == 0) by (nonlinear_arith)
        requires
            0 <= a <= r,
            0 <= b <= r,
            r <= a + b,
    ;
}

/// The length of the straight line from `p1` to `p2`, rounded down to a whole
/// number.
pub fn side_length_of(p1: Point, p2: Point) -> (side: u64)
    ensures
        side == side_length(p1@, p2@),
        side == 0 <==> p1 == p2,
        span(p1.x as int, p2.x as int) <= side,
        span(p1.y as int, p2.y as int) <= side,
        side <= 2 * MAX_SPAN,
{
    let a: u64 = span_of(p1.x, p2.x);
    let b: u64 = span_of(p1.y, p2.y);
    assert(a * a + b * b <= u128::MAX) by (nonlinear_arith)
        requires
            a <= 0xffff_ffff,
            b <= 0xffff_ffff,
    ;
    assert(a * a <= u128::MAX && b * b <= u128::MAX) by (nonlinear_arith)
        requires
            a <= 0xffff_ffff,
            b <= 0xffff_ffff,
    ;
    let side: u64 = isqrt(a as u128 * a as u128 + b as u128 * b as u128);
    proof {
        hypotenuse_bounds(a as int, b as int);
    }
    side
}

} // verus!
