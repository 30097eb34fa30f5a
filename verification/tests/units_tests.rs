use polycycle::units::{clamp_to, isqrt, HALF, ONE};

#[test]
fn one_is_a_million_and_half_is_half_of_it() {
    assert_eq!(ONE, 1_000_000);
    assert_eq!(HALF * 2, ONE);
}

#[test]
fn isqrt_of_small_numbers() {
    let expected: [u64; 17] = [0, 1, 1, 1, 2, 2, 2, 2, 2, 3, 3, 3, 3, 3, 3, 3, 4];
    for n in 0..17u128 {
        assert_eq!(isqrt(n), expected[n as usize]);
    }
}

#[test]
fn isqrt_of_squares_and_their_neighbours() {
    for root in [1u64, 2, 7, 1_000, 1_000_000, 0xffff_ffff, 0x1_0000_0000, u64::MAX] {
        let square = root as u128 * root as u128;
        assert_eq!(isqrt(square), root);
        assert_eq!(isqrt(square - 1), root - 1);
        if let Some(next) = square.checked_add(1) {
            assert_eq!(isqrt(next), root);
        }
    }
}

#[test]
fn isqrt_of_the_largest_number() {
    assert_eq!(isqrt(u128::MAX), u64::MAX);
}

#[test]
fn isqrt_brackets_its_argument() {
    let mut n: u128 = 3;
    for _ in 0..120 {
        let root = isqrt(n) as u128;
        assert!(root * root <= n);
        assert!((root + 1).checked_mul(root + 1).map_or(true, |above| n < above));
        n = n.saturating_mul(2).saturating_add(n / 3);
    }
}

#[test]
fn clamp_to_leaves_a_value_in_range() {
    assert_eq!(clamp_to(5, 0, 10), 5);
    assert_eq!(clamp_to(0, 0, 10), 0);
    assert_eq!(clamp_to(10, 0, 10), 10);
}

#[test]
fn clamp_to_stops_at_the_bounds() {
    assert_eq!(clamp_to(-1, 0, 10), 0);
    assert_eq!(clamp_to(11, 0, 10), 10);
    assert_eq!(clamp_to(i64::MIN, -3, -3), -3);
    assert_eq!(clamp_to(i64::MAX, -3, -3), -3);
}
