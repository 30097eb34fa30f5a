//! Units of measure and integer arithmetic shared by the whole engine.
//!
//! The engine works in fixed point. A fraction of the unit interval is a
//! count of millionths, so that `ONE` stands for `1.0`. Coordinates are whole
//! numbers of whatever unit the caller draws in.

use vstd::prelude::*;

verus! {

/// The value that stands for the whole, `1.0`, in every fraction of the
/// engine.
pub const ONE: u32 = 1_000_000;

/// Half of `ONE`.
pub const HALF: u32 = 500_000;

/// Brings `value` into the closed range from `low` to `high`.
pub open spec fn clamp(value: int, low: int, high: int) -> int {
    if value < low {
        low
    } else if value > high {
        high
    } else {
        value
    }
}

/// Brings `value` into the closed range from `low` to `high`.
pub fn clamp_to(value: i64, low: i64, high: i64) -> (clamped: i64)
    requires
        low <= high,
    ensures
        clamped == clamp(value as int, low as int, high as int),
        low <= clamped <= high,
{
    if value < low {
        low
    } else if value > high {
        high
    } else {
        value
    }
}

/// The quotient `num / den`, rounded to the nearest whole number, a tie
/// going up.
pub open spec fn round_div(num: int, den: int) -> int {
    (num + den / 2) / den
}

/// Whether `root` is the whole part of the square root of `n`.
pub open spec fn is_floor_sqrt(n: int, root: int) -> bool {
    0 <= root && root * root <= n < (root + 1) * (root + 1)
}

/// The whole part of the square root of `n`.
pub open spec fn floor_sqrt(n: int) -> int {
    choose|root: int| is_floor_sqrt(n, root)
}

/// Every number from zero on has a whole square root.
pub proof fn floor_sqrt_exists(n: int)
    requires
        0 <= n,
    ensures
        is_floor_sqrt(n, floor_sqrt(n)),
    decreases n,
{
    if n == 0 {
        assert(is_floor_sqrt(0, 0)) by (nonlinear_arith);
    } else {
        floor_sqrt_exists(n - 1);
        let r = floor_sqrt(n - 1);
        if (r + 1) * (r + 1) <= n {
            assert(n < (r + 2) * (r + 2)) by (nonlinear_arith)
                requires
                    0 <= r,
                    n - 1 < (r + 1) * (r + 1),
            ;
            assert(is_floor_sqrt(n, r + 1));
        } else {
            assert(is_floor_sqrt(n, r));
        }
    }
}

/// A number has only one whole square root.
pub proof fn floor_sqrt_unique(n: int, root: int)
    requires
        is_floor_sqrt(n, root),
    ensures
        floor_sqrt(n) == root,
{
    let other = floor_sqrt(n);
    assert(is_floor_sqrt(n, other));
    assert(other == root) by (nonlinear_arith)
        requires
            0 <= root,
            0 <= other,
            root * root <= n < (root + 1) * (root + 1),
            other * other <= n < (other + 1) * (other + 1),
    ;
}

/// The whole part of the square root of `n`, found by bisection.
pub fn isqrt(n: u128) -> (root: u64)
    ensures
        root == floor_sqrt(n as int),
        is_floor_sqrt(n as int, root as int),
{
    let mut low: u128 = 0;
    let mut high: u128 = 0x1_0000_0000_0000_0000;
    assert(n < high * high) by (nonlinear_arith)
        requires
            high == 0x1_0000_0000_0000_0000,
            n <= u128::MAX,
    ;
    while high - low > 1
        invariant
            low < high <= 0x1_0000_0000_0000_0000,
            low * low <= n,
            n < high * high,
        decreases high - low,
    {
        let mid: u128 = low + (high - low) / 2;
        assert(mid * mid <= u128::MAX) by (nonlinear_arith)
            requires
                mid < 0x1_0000_0000_0000_0000,
        ;
        if mid * mid <= n {
            low = mid;
        } else {
            high = mid;
        }
    }
    proof {
        assert(high == low + 1);
        floor_sqrt_unique(n as int, low as int);
    }
    low as u64
}

} // verus!
