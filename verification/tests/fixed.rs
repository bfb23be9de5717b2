use texture_crossfade::fixed::{div_floor, fixed_sqrt, isqrt, SCALE};

#[test]
fn integer_square_root_rounds_down() {
    assert_eq!(isqrt(0), 0);
    assert_eq!(isqrt(1), 1);
    assert_eq!(isqrt(3), 1);
    assert_eq!(isqrt(4), 2);
    assert_eq!(isqrt(15), 3);
    assert_eq!(isqrt(16), 4);
    assert_eq!(isqrt(17), 4);
    assert_eq!(isqrt(999_999_999_999), 999_999);
    assert_eq!(isqrt(1_000_000_000_000), 1_000_000);
    assert_eq!(isqrt(u64::MAX), 4_294_967_295);
}

#[test]
fn integer_square_root_brackets_its_argument() {
    for n in (0..200_000u64).chain([1 << 40, (1 << 52) + 12345, u64::MAX - 1]) {
        let r = isqrt(n) as u128;
        assert!(r * r <= n as u128);
        assert!((n as u128) < (r + 1) * (r + 1));
    }
}

#[test]
fn floor_division_rounds_toward_negative_infinity() {
    assert_eq!(div_floor(7, 2), 3);
    assert_eq!(div_floor(-7, 2), -4);
    assert_eq!(div_floor(-8, 2), -4);
    assert_eq!(div_floor(-1, 1_000_000), -1);
    assert_eq!(div_floor(0, 5), 0);
    assert_eq!(div_floor(1, 5), 0);
    assert_eq!(div_floor(i128::MIN + 1, 1), i128::MIN + 1);
    assert_eq!(div_floor(i128::MAX, i128::MAX), 1);
}

#[test]
fn fixed_square_root_of_known_values() {
    assert_eq!(fixed_sqrt(SCALE), SCALE as i64);
    assert_eq!(fixed_sqrt(250_000), 500_000);
    assert_eq!(fixed_sqrt(500_000), 707_106);
    assert_eq!(fixed_sqrt(2 * SCALE), 1_414_213);
    assert_eq!(fixed_sqrt(4 * SCALE), 2_000_000);
    assert_eq!(fixed_sqrt(1), 1000);
    assert_eq!(fixed_sqrt(i32::MAX), 46_340_950);
}

#[test]
fn fixed_square_root_of_nothing_positive_is_zero() {
    assert_eq!(fixed_sqrt(0), 0);
    assert_eq!(fixed_sqrt(-1), 0);
    assert_eq!(fixed_sqrt(i32::MIN), 0);
}
