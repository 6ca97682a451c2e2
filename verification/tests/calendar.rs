use transat::date::{Date, Span};
use transat::decimal::Decimal;

#[test]
fn date_new_checks_the_calendar() {
    assert!(Date::new(2024, 2, 29).is_some());
    assert!(Date::new(2023, 2, 29).is_none());
    assert!(Date::new(2000, 2, 29).is_some());
    assert!(Date::new(1900, 2, 29).is_none());
    assert!(Date::new(2025, 4, 31).is_none());
    assert!(Date::new(2025, 13, 1).is_none());
    assert!(Date::new(2025, 0, 1).is_none());
    assert!(Date::new(10000, 1, 1).is_none());
    assert!(Date::new(-9999, 1, 1).is_some());
}

#[test]
fn date_text() {
    assert_eq!(Date::new(2025, 12, 1).unwrap().to_string(), "2025-12-01");
    assert_eq!(Date::new(7, 3, 9).unwrap().to_string(), "0007-03-09");
    assert_eq!(Date::new(-5, 1, 1).unwrap().to_string(), "-000005-01-01");
}

#[test]
fn date_order() {
    let a = Date::new(2024, 12, 31).unwrap();
    let b = Date::new(2025, 1, 1).unwrap();
    assert!(a.is_on_or_before(&b));
    assert!(!b.is_on_or_before(&a));
    assert!(a.is_on_or_before(&a));
    let c = Date::new(2025, 1, 2).unwrap();
    assert!(b.is_on_or_before(&c) && a.is_on_or_before(&c));
}

#[test]
fn date_minus_days() {
    let d = Date::new(2025, 12, 1).unwrap();
    let week = Span::from_days(7).unwrap();
    assert_eq!(d.saturating_sub(&week), Date::new(2025, 11, 24).unwrap());
    let zero = Span::from_days(0).unwrap();
    assert_eq!(d.saturating_sub(&zero), d);
}

#[test]
fn date_minus_month_clamps() {
    let d = Date::new(2024, 3, 31).unwrap();
    let mut month = Span::from_days(0).unwrap();
    month.months = 1;
    assert_eq!(d.saturating_sub(&month), Date::new(2024, 2, 29).unwrap());
}

#[test]
fn date_minus_saturates() {
    let d = Date::new(-9999, 1, 5).unwrap();
    let many = Span::from_days(30).unwrap();
    assert_eq!(d.saturating_sub(&many), Date::new(-9999, 1, 1).unwrap());
}

#[test]
fn span_from_days_bounds() {
    assert!(Span::from_days(7_304_484).is_some());
    assert!(Span::from_days(7_304_485).is_none());
}

#[test]
fn decimal_bounds() {
    assert!(Decimal::try_from_i128_with_scale(1, 28).is_some());
    assert!(Decimal::try_from_i128_with_scale(1, 29).is_none());
    assert!(Decimal::try_from_i128_with_scale(transat::decimal::MAX_MANTISSA + 1, 0).is_none());
    assert!(Decimal::try_from_i128_with_scale(-transat::decimal::MAX_MANTISSA, 0).is_some());
}

#[test]
fn decimal_arithmetic() {
    let a = Decimal::new(15, 1);
    let b = Decimal::new(2, 0);
    assert_eq!(a.checked_mul(&b), Some(Decimal::new(30, 1)));
    assert_eq!(Decimal::one().checked_div(&Decimal::new(4, 0)), Some(Decimal::new(25, 2)));
    assert_eq!(a.checked_div(&Decimal::new(0, 0)), None);
    assert_eq!(Decimal::new(0, 5).checked_div(&b), Some(Decimal::new(0, 0)));
}

#[test]
fn decimal_display_fits() {
    let max = Decimal::try_from_i128_with_scale(transat::decimal::MAX_MANTISSA, 0).unwrap();
    assert!(max.display_fits(0));
    assert!(max.display_fits(2));
    assert!(!max.display_fits(4));
    assert_eq!(max.to_string_with_precision(2), "79228162514264337593543950335.00");
    let tiny = Decimal::try_from_i128_with_scale(1, 28).unwrap();
    assert!(tiny.display_fits(28));
    assert_eq!(tiny.to_string_with_precision(4), "0.0000");
    assert_eq!(Decimal::new(5, 0).to_string_with_precision(30), "5.000000000000000000000000000000");
}

#[test]
fn date_parse() {
    assert_eq!(Date::parse("2025-12-01"), Date::new(2025, 12, 1));
    assert_eq!(Date::parse("tomorrow-ish"), None);
}

#[test]
fn span_parse_and_abs() {
    let s = Span::parse("3 days ago").unwrap();
    assert_eq!(s.days, -3);
    assert_eq!(s.abs().days, 3);
    assert_eq!(s.abs(), Span::from_days(3).unwrap());
    let p = Span::parse("P1W").unwrap();
    assert_eq!(p.weeks, 1);
    assert!(Span::parse("soon").is_none());
}

#[test]
fn date_checked_sub() {
    let d = Date::new(2025, 12, 1).unwrap();
    assert_eq!(d.checked_sub(&Span::from_days(3).unwrap()), Date::new(2025, 11, 28));
    let first = Date::new(-9999, 1, 1).unwrap();
    assert_eq!(first.checked_sub(&Span::from_days(1).unwrap()), None);
}

#[test]
fn decimal_numeric_equality() {
    assert_eq!(Decimal::new(10, 1), Decimal::new(100, 2));
    assert_eq!(Decimal::new(1, 0), Decimal::new(1_000_000, 6));
    assert_ne!(Decimal::new(1, 0), Decimal::new(2, 0));
    assert_ne!(Decimal::new(-1, 0), Decimal::new(1, 0));
    assert_eq!(Decimal { mantissa: 0, scale: 3, negative: true }, Decimal::new(0, 0));
    assert_ne!(Decimal::new(1, 28), Decimal::new(0, 0));
    let max = Decimal::try_from_i128_with_scale(transat::decimal::MAX_MANTISSA, 0).unwrap();
    assert_ne!(max, Decimal::new(1, 28));
}

#[test]
fn decimal_negative_zero() {
    let nz = Decimal { mantissa: 0, scale: 2, negative: true };
    assert_eq!(nz.to_string_with_precision(4), "-0.0000");
    let tiny = Decimal::try_from_i128_with_scale(-1, 28).unwrap();
    let tenth = Decimal::new(1, 1);
    let p = tiny.checked_mul(&tenth).unwrap();
    let expected = rust_decimal::Decimal::from_i128_with_scale(-1, 28)
        * rust_decimal::Decimal::from_i128_with_scale(1, 1);
    assert_eq!(p.mantissa, expected.mantissa());
    assert_eq!(p.negative, expected.is_sign_negative());
    assert_eq!(p.to_string_with_precision(4), format!("{:.4}", expected));
}
