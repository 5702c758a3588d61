use camera_rig::scalar::{
    fx_abs, fx_add, fx_clamp, fx_div, fx_div_int, fx_max, fx_mix, fx_mul, fx_mul_near, fx_neg,
    fx_rescale, fx_sqrt, fx_sub, isqrt, isqrt_near, MINUS_ONE, ONE,
};

#[test]
fn one_is_a_million() {
    assert_eq!(ONE, 1_000_000);
    assert_eq!(MINUS_ONE, -1_000_000);
}

#[test]
fn sums_and_differences_are_exact_in_range() {
    assert_eq!(fx_add(1_500_000, 2_250_000), 3_750_000);
    assert_eq!(fx_sub(1_500_000, 2_250_000), -750_000);
    assert_eq!(fx_neg(42), -42);
    assert_eq!(fx_abs(-42), 42);
    assert_eq!(fx_abs(42), 42);
}

#[test]
fn sums_saturate_at_the_limits() {
    assert_eq!(fx_add(i64::MAX, 1), i64::MAX);
    assert_eq!(fx_add(i64::MIN, -1), i64::MIN);
    assert_eq!(fx_sub(i64::MIN, 1), i64::MIN);
    assert_eq!(fx_sub(i64::MAX, -1), i64::MAX);
    assert_eq!(fx_neg(i64::MIN), i64::MAX);
    assert_eq!(fx_abs(i64::MIN), i64::MAX);
}

#[test]
fn products_are_scaled_and_truncated_toward_zero() {
    assert_eq!(fx_mul(1_500_000, 2_000_000), 3_000_000);
    assert_eq!(fx_mul(-1_500_000, 2_000_000), -3_000_000);
    assert_eq!(fx_mul(3, 500_000), 1);
    assert_eq!(fx_mul(-3, 500_000), -1);
    assert_eq!(fx_mul(1, 500_000), 0);
    assert_eq!(fx_mul(-1, 500_000), 0);
    assert_eq!(fx_mul(ONE, 123_456_789), 123_456_789);
    assert_eq!(fx_mul(0, i64::MIN), 0);
}

#[test]
fn products_saturate_at_the_limits() {
    assert_eq!(fx_mul(i64::MAX, 2_000_000), i64::MAX);
    assert_eq!(fx_mul(i64::MAX, -2_000_000), i64::MIN);
    assert_eq!(fx_mul(i64::MIN, i64::MIN), i64::MAX);
    assert_eq!(fx_mul(i64::MIN, ONE), i64::MIN);
}

#[test]
fn quotients_are_scaled_and_truncated_toward_zero() {
    assert_eq!(fx_div(1_000_000, 3_000_000), 333_333);
    assert_eq!(fx_div(-1_000_000, 3_000_000), -333_333);
    assert_eq!(fx_div(1_000_000, -3_000_000), -333_333);
    assert_eq!(fx_div(-1_000_000, -3_000_000), 333_333);
    assert_eq!(fx_div(5_000_000, 2_000_000), 2_500_000);
    assert_eq!(fx_div(i64::MAX, 1), i64::MAX);
    assert_eq!(fx_div(i64::MIN, 1), i64::MIN);
}

#[test]
fn dividing_by_zero_gives_zero() {
    assert_eq!(fx_div(5_000_000, 0), 0);
    assert_eq!(fx_div(0, 0), 0);
    assert_eq!(fx_div_int(5_000_000, 0), 0);
}

#[test]
fn whole_quotients_truncate_toward_zero() {
    assert_eq!(fx_div_int(7, 2), 3);
    assert_eq!(fx_div_int(-7, 2), -3);
    assert_eq!(fx_div_int(7, -2), -3);
    assert_eq!(fx_div_int(-7, -2), 3);
    assert_eq!(fx_div_int(i64::MIN, -1), i64::MAX);
}

#[test]
fn clamp_and_max_pick_the_right_end() {
    assert_eq!(fx_clamp(5, 0, 10), 5);
    assert_eq!(fx_clamp(-5, 0, 10), 0);
    assert_eq!(fx_clamp(15, 0, 10), 10);
    assert_eq!(fx_max(3, 7), 7);
    assert_eq!(fx_max(7, 3), 7);
}

#[test]
fn square_roots_are_floors() {
    assert_eq!(isqrt(0), 0);
    assert_eq!(isqrt(1), 1);
    assert_eq!(isqrt(15), 3);
    assert_eq!(isqrt(16), 4);
    assert_eq!(isqrt(17), 4);
    assert_eq!(isqrt(1_000_000_000_000), 1_000_000);
    assert_eq!(isqrt(999_999_999_999), 999_999);
    assert_eq!(isqrt(u128::MAX), u64::MAX);
}

#[test]
fn square_root_brackets_its_argument() {
    let samples: [u128; 6] = [2, 99, 12_345_678_901_234_567_890, 1 << 100, (1 << 127) + 12345, u128::MAX - 1];
    for n in samples {
        let r = isqrt(n) as u128;
        assert!(r * r <= n);
        assert!(r == u64::MAX as u128 || (r + 1) * (r + 1) > n);
    }
}

#[test]
fn mix_keeps_the_given_share() {
    assert_eq!(fx_mix(10_000_000, 0, 500_000), 5_000_000);
    assert_eq!(fx_mix(7, 0, 500_000), 3);
    assert_eq!(fx_mix(-7, 0, 500_000), -3);
    assert_eq!(fx_mix(3, 10, 250_000), 9);
    assert_eq!(fx_mix(123, 456, 0), 456);
    assert_eq!(fx_mix(123, 456, ONE), 123);
}

#[test]
fn mix_limits_the_weight_and_never_leaves_its_ends() {
    assert_eq!(fx_mix(123, 456, -5), 456);
    assert_eq!(fx_mix(123, 456, 5 * ONE), 123);
    assert_eq!(fx_mix(i64::MIN, i64::MAX, 500_000), 0);
    assert_eq!(fx_mix(i64::MAX, i64::MIN, ONE), i64::MAX);
    let weights = [0, 1, 333_333, 999_999, ONE];
    for w in weights {
        let m = fx_mix(-17, 29, w);
        assert!(-17 <= m && m <= 29);
    }
}

#[test]
fn nearest_square_roots() {
    assert_eq!(isqrt_near(0), 0);
    assert_eq!(isqrt_near(2), 1);
    assert_eq!(isqrt_near(3), 2);
    assert_eq!(isqrt_near(6), 2);
    assert_eq!(isqrt_near(7), 3);
    assert_eq!(isqrt_near(16), 4);
    assert_eq!(isqrt_near(u128::MAX), 1 << 64);
}

#[test]
fn fixed_point_square_roots() {
    assert_eq!(fx_sqrt(0), 0);
    assert_eq!(fx_sqrt(-5), 0);
    assert_eq!(fx_sqrt(1), 1_000);
    assert_eq!(fx_sqrt(250_000), 500_000);
    assert_eq!(fx_sqrt(500_000), 707_107);
    assert_eq!(fx_sqrt(ONE), ONE);
    assert_eq!(fx_sqrt(2 * ONE), 1_414_214);
    assert_eq!(fx_sqrt(4 * ONE), 2 * ONE);
    assert_eq!(fx_sqrt(999_999), 999_999);
    assert_eq!(fx_sqrt(i64::MAX), 3_037_000_499_976);
}

#[test]
fn products_to_the_nearest_unit() {
    assert_eq!(fx_mul_near(1_500_000, 2_000_000), 3_000_000);
    assert_eq!(fx_mul_near(3, 500_000), 2);
    assert_eq!(fx_mul_near(-3, 500_000), -2);
    assert_eq!(fx_mul_near(1, 500_000), 1);
    assert_eq!(fx_mul_near(-1, 500_000), -1);
    assert_eq!(fx_mul_near(1, 499_999), 0);
    assert_eq!(fx_mul_near(ONE, 123), 123);
    assert_eq!(fx_mul_near(i64::MAX, 2 * ONE), i64::MAX);
    assert_eq!(fx_mul_near(i64::MIN, 2 * ONE), i64::MIN);
}

#[test]
fn rescaled_components() {
    assert_eq!(fx_rescale(3 * ONE, 10 * ONE, 5 * ONE), 6 * ONE);
    assert_eq!(fx_rescale(-3, 10, 5), -6);
    assert_eq!(fx_rescale(1, ONE, 3), 333_333);
    assert_eq!(fx_rescale(2, ONE, 3), 666_667);
    assert_eq!(fx_rescale(-2, ONE, 3), -666_667);
    assert_eq!(fx_rescale(1, 1, 2), 1);
    assert_eq!(fx_rescale(7, 7, 0), 0);
    assert_eq!(fx_rescale(7, 7, -1), 0);
    assert_eq!(fx_rescale(ONE, i64::MAX, ONE), i64::MAX);
    assert_eq!(fx_rescale(i64::MIN, i64::MAX, 1), i64::MIN);
}
