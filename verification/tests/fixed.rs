use couture_core::fixed::Fixed;

fn raw(v: i64) -> Fixed {
    Fixed::from_raw(v)
}

#[test]
fn test_fixed_constructors() {
    assert_eq!(Fixed::zero().raw(), 0);
    assert_eq!(Fixed::one().raw(), 1_000_000_000);
    assert_eq!(Fixed::from_int(-3).raw(), -3_000_000_000);
    assert_eq!(Fixed::from_hundredths(925).raw(), 9_250_000_000);
    assert_eq!(Fixed::from_ratio(1, 3).raw(), 333_333_333);
    assert_eq!(Fixed::from_ratio(2, 3).raw(), 666_666_667);
    assert_eq!(Fixed::from_ratio(-2, 3).raw(), -666_666_667);
    assert_eq!(Fixed::from_ratio(1, 1_000_000).raw(), 1_000);
    assert_eq!(Fixed::from_wide(1i128 << 100).raw(), i64::MAX);
}

#[test]
fn test_fixed_add_sub_saturate() {
    assert_eq!(raw(5).add(raw(-7)), raw(-2));
    assert_eq!(raw(i64::MAX).add(raw(1)), raw(i64::MAX));
    assert_eq!(raw(i64::MIN).sub(raw(1)), raw(i64::MIN));
    assert_eq!(raw(i64::MIN).neg(), raw(i64::MAX));
    assert_eq!(raw(i64::MIN).abs(), raw(i64::MAX));
    assert_eq!(raw(-5).abs(), raw(5));
    assert_eq!(Fixed::from_int(i64::MAX), raw(i64::MAX));
}

#[test]
fn test_fixed_mul_rounds_to_nearest() {
    assert_eq!(Fixed::from_int(3).mul(Fixed::from_hundredths(50)), Fixed::from_hundredths(150));
    // 0.000000001 * 0.5 = 0.0000000005, a tie: away from zero
    assert_eq!(raw(1).mul(Fixed::from_hundredths(50)), raw(1));
    assert_eq!(raw(-1).mul(Fixed::from_hundredths(50)), raw(-1));
    assert_eq!(raw(1).mul(Fixed::from_hundredths(49)), raw(0));
    assert_eq!(Fixed::from_int(100_000).mul(Fixed::from_int(100_000)), raw(i64::MAX));
    assert_eq!(Fixed::from_int(-100_000).mul(Fixed::from_int(100_000)), raw(i64::MIN));
}

#[test]
fn test_fixed_div() {
    assert_eq!(Fixed::from_int(1).div(Fixed::from_int(4)), Fixed::from_hundredths(25));
    assert_eq!(Fixed::from_int(-1).div(Fixed::from_int(3)), raw(-333_333_333));
    assert_eq!(Fixed::from_int(1).div(Fixed::from_int(-3)), raw(-333_333_333));
    assert_eq!(Fixed::from_int(2).div(Fixed::from_int(3)), raw(666_666_667));
    assert_eq!(Fixed::from_int(1).div(raw(0)), raw(i64::MAX));
    assert_eq!(Fixed::from_int(-1).div(raw(0)), raw(i64::MIN));
    assert_eq!(raw(0).div(raw(0)), raw(0));
    assert_eq!(Fixed::from_int(1_000_000).div(raw(1)), raw(i64::MAX));
}

#[test]
fn test_fixed_sqrt_rounds_down() {
    assert_eq!(Fixed::from_int(4).sqrt(), Fixed::from_int(2));
    assert_eq!(Fixed::from_int(2).sqrt(), raw(1_414_213_562));
    assert_eq!(raw(0).sqrt(), raw(0));
    assert_eq!(Fixed::from_int(-4).sqrt(), raw(0));
    assert_eq!(raw(i64::MAX).sqrt(), raw(96_038_388_349_944));
    assert_eq!(raw(1).sqrt(), raw(31_622));
}

#[test]
fn test_fixed_midpoint_and_order() {
    assert_eq!(raw(3).midpoint(raw(8)), raw(5));
    assert_eq!(raw(-3).midpoint(raw(-8)), raw(-6));
    assert_eq!(raw(i64::MAX).midpoint(raw(i64::MAX)), raw(i64::MAX));
    assert_eq!(raw(i64::MIN).midpoint(raw(i64::MAX)), raw(-1));
    assert!(raw(1).lt(raw(2)) && !raw(2).lt(raw(2)) && raw(2).le(raw(2)));
    assert!(raw(-1).is_negative() && !raw(0).is_negative() && raw(1).is_positive());
    assert_eq!(raw(1).min(raw(2)), raw(1));
    assert_eq!(raw(1).max(raw(2)), raw(2));
}
