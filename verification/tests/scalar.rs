use physics_core::fixed::{isqrt, Fixed, SCALE};

fn fx(raw: i64) -> Fixed {
    Fixed::from_raw(raw)
}

#[test]
fn scale_is_one_million() {
    assert_eq!(SCALE, 1_000_000);
    assert_eq!(Fixed::one().raw(), 1_000_000);
    assert_eq!(Fixed::zero().raw(), 0);
}

#[test]
fn from_int_scales_whole_numbers() {
    assert_eq!(Fixed::from_int(3), Some(fx(3_000_000)));
    assert_eq!(Fixed::from_int(-7), Some(fx(-7_000_000)));
    assert_eq!(Fixed::from_int(i64::MAX), None);
}

#[test]
fn sums_and_differences_are_exact() {
    assert_eq!(fx(1_500_000).checked_add(fx(250_000)), Some(fx(1_750_000)));
    assert_eq!(fx(1_500_000).checked_sub(fx(2_000_000)), Some(fx(-500_000)));
}

#[test]
fn sums_out_of_range_are_none() {
    assert_eq!(fx(i64::MAX).checked_add(fx(1)), None);
    assert_eq!(fx(i64::MIN).checked_sub(fx(1)), None);
    assert_eq!(fx(i64::MAX).checked_add(fx(0)), Some(fx(i64::MAX)));
}

#[test]
fn negation_fails_only_for_the_least_value() {
    assert_eq!(fx(5).checked_neg(), Some(fx(-5)));
    assert_eq!(fx(i64::MIN).checked_neg(), None);
    assert_eq!(fx(0).checked_neg(), Some(fx(0)));
}

#[test]
fn product_rounds_toward_zero() {
    // 1.5 * -0.333333 = -0.4999995
    assert_eq!(fx(1_500_000).checked_mul(fx(-333_333)), Some(fx(-499_999)));
    assert_eq!(fx(-1_500_000).checked_mul(fx(333_333)), Some(fx(-499_999)));
    assert_eq!(fx(1_500_000).checked_mul(fx(333_333)), Some(fx(499_999)));
    assert_eq!(fx(-1_500_000).checked_mul(fx(-333_333)), Some(fx(499_999)));
}

#[test]
fn product_of_exact_values_is_exact() {
    // 9.8 * 0.25 = 2.45
    assert_eq!(fx(9_800_000).checked_mul(fx(250_000)), Some(fx(2_450_000)));
    assert_eq!(fx(2_000_000).checked_mul(fx(0)), Some(fx(0)));
}

#[test]
fn product_out_of_range_is_none() {
    assert_eq!(fx(i64::MAX).checked_mul(fx(2_000_000)), None);
    assert_eq!(fx(i64::MIN).checked_mul(fx(i64::MIN)), None);
    assert_eq!(fx(i64::MAX).checked_mul(fx(1_000_000)), Some(fx(i64::MAX)));
}

#[test]
fn quotient_rounds_toward_zero() {
    // 1 / 3 = 0.333333...
    assert_eq!(fx(1_000_000).checked_div(fx(3_000_000)), Some(fx(333_333)));
    assert_eq!(fx(-1_000_000).checked_div(fx(3_000_000)), Some(fx(-333_333)));
    assert_eq!(fx(1_000_000).checked_div(fx(-3_000_000)), Some(fx(-333_333)));
    assert_eq!(fx(-1_000_000).checked_div(fx(-3_000_000)), Some(fx(333_333)));
    // 2 / 0.01 = 200
    assert_eq!(fx(2_000_000).checked_div(fx(10_000)), Some(fx(200_000_000)));
}

#[test]
fn quotient_by_zero_is_none() {
    assert_eq!(fx(1_000_000).checked_div(fx(0)), None);
    assert_eq!(fx(0).checked_div(fx(0)), None);
}

#[test]
fn quotient_out_of_range_is_none() {
    assert_eq!(fx(i64::MAX).checked_div(fx(1)), None);
    assert_eq!(fx(i64::MIN).checked_div(fx(-1_000_000)), None);
}

#[test]
fn times_multiplies_by_a_plain_integer() {
    assert_eq!(fx(250_000).checked_times(-2), Some(fx(-500_000)));
    assert_eq!(fx(i64::MAX).checked_times(2), None);
}

#[test]
fn isqrt_rounds_down() {
    assert_eq!(isqrt(0), 0);
    assert_eq!(isqrt(1), 1);
    assert_eq!(isqrt(2), 1);
    assert_eq!(isqrt(3), 1);
    assert_eq!(isqrt(4), 2);
    assert_eq!(isqrt(99), 9);
    assert_eq!(isqrt(100), 10);
    assert_eq!(isqrt(1_000_000_000_000), 1_000_000);
    assert_eq!(isqrt(999_999_999_999), 999_999);
}

#[test]
fn isqrt_of_the_greatest_value() {
    assert_eq!(isqrt(u128::MAX), u64::MAX);
    let r = u64::MAX as u128;
    assert_eq!(isqrt(r * r), u64::MAX);
    assert_eq!(isqrt(r * r - 1), u64::MAX - 1);
}
