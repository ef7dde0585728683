use couture_core::decimal::to_decimal;
use couture_core::fixed::Fixed;

#[test]
fn test_decimal_two_places() {
    assert_eq!(to_decimal(Fixed::from_raw(0), 2), "0.00");
    assert_eq!(to_decimal(Fixed::from_raw(123_456_000_000), 2), "123.46");
    assert_eq!(to_decimal(Fixed::from_raw(-7_004_999_999), 2), "-7.00");
    assert_eq!(to_decimal(Fixed::from_raw(999_995_000_001), 2), "1000.00");
    assert_eq!(to_decimal(Fixed::from_hundredths(5), 2), "0.05");
}

#[test]
fn test_decimal_ties_go_to_the_even_digit() {
    assert_eq!(to_decimal(Fixed::from_raw(125_000_000), 2), "0.12");
    assert_eq!(to_decimal(Fixed::from_raw(135_000_000), 2), "0.14");
    assert_eq!(to_decimal(Fixed::from_raw(9_250_000_000), 1), "9.2");
    assert_eq!(to_decimal(Fixed::from_raw(9_350_000_000), 1), "9.4");
    assert_eq!(to_decimal(Fixed::from_raw(2_500_000_000), 0), "2");
    assert_eq!(to_decimal(Fixed::from_raw(3_500_000_000), 0), "4");
}

#[test]
fn test_decimal_keeps_the_sign_of_what_rounds_to_zero() {
    assert_eq!(to_decimal(Fixed::from_raw(-1_000_000), 2), "-0.00");
    assert_eq!(to_decimal(Fixed::from_raw(-1), 9), "-0.000000001");
}

#[test]
fn test_decimal_extremes() {
    assert_eq!(to_decimal(Fixed::from_raw(i64::MAX), 9), "9223372036.854775807");
    assert_eq!(to_decimal(Fixed::from_raw(i64::MIN), 9), "-9223372036.854775808");
    assert_eq!(to_decimal(Fixed::from_raw(i64::MIN), 0), "-9223372037");
}

#[test]
fn test_integer_text() {
    assert_eq!(couture_core::decimal::integer_text(0), "0");
    assert_eq!(couture_core::decimal::integer_text(48), "48");
    assert_eq!(couture_core::decimal::integer_text(-305), "-305");
    assert_eq!(couture_core::decimal::integer_text(i32::MAX), "2147483647");
    assert_eq!(couture_core::decimal::integer_text(i32::MIN), "-2147483648");
}
