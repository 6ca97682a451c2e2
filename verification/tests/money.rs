use transat::date::Date;
use transat::decimal::Decimal;
use transat::money::{Amount, Currency, Eur, Rate, Usd};

fn dec(m: i128, s: u32) -> Decimal {
    Decimal::try_from_i128_with_scale(m, s).unwrap()
}

fn day(y: i16, m: i8, d: i8) -> Date {
    Date::new(y, m, d).unwrap()
}

#[test]
fn labels() {
    assert_eq!(Eur::label(), "EUR");
    assert_eq!(Usd::label(), "USD");
}

#[test]
fn amount_keeps_its_value() {
    let a = Amount::<Eur>::new(dec(12345, 2));
    assert_eq!(a.value(), dec(12345, 2));
}

#[test]
fn amount_from_decimal_round_trip() {
    let d = dec(-987, 1);
    let a: Amount<Usd> = Amount::from(d);
    let back: Decimal = Decimal::from(a);
    assert_eq!(back, d);
}

#[test]
fn convert_multiplies_by_the_rate() {
    let rate: Rate<Eur, Usd> = Rate::new(day(2025, 12, 1), dec(11234, 4));
    let usd = Amount::<Eur>::new(dec(100, 0)).convert(&rate);
    assert_eq!(usd.value(), dec(1123400, 4));
    assert_eq!(usd.to_string(), "112.3400 USD");
}

#[test]
fn convert_zero_is_zero() {
    let rate: Rate<Eur, Usd> = Rate::new(day(2025, 12, 1), dec(11234, 4));
    let usd = Amount::<Eur>::new(dec(0, 3)).convert(&rate);
    assert_eq!(usd.value(), dec(0, 0));
}

#[test]
fn checked_convert_overflow() {
    let rate: Rate<Eur, Usd> = Rate::new(day(2025, 12, 1), dec(transat::decimal::MAX_MANTISSA, 0));
    let big = Amount::<Eur>::new(dec(transat::decimal::MAX_MANTISSA, 0));
    assert!(big.checked_convert(&rate).is_none());
}

#[test]
fn rate_getters() {
    let rate: Rate<Eur, Usd> = Rate::new(day(2024, 2, 29), dec(108, 2));
    assert_eq!(rate.date(), day(2024, 2, 29));
    assert_eq!(rate.value(), dec(108, 2));
}

#[test]
fn invert_keeps_the_date() {
    let rate: Rate<Eur, Usd> = Rate::new(day(2025, 1, 2), dec(125, 2));
    let inv: Rate<Usd, Eur> = rate.invert();
    assert_eq!(inv.date(), day(2025, 1, 2));
    assert_eq!(inv.value().to_string_with_precision(4), "0.8000");
    assert_eq!(inv.to_string(), "USD/EUR = 0.8000");
}

#[test]
fn invert_of_zero_fails() {
    let rate: Rate<Eur, Usd> = Rate::new(day(2025, 1, 2), dec(0, 0));
    assert!(rate.checked_invert().is_none());
}

#[test]
fn rate_text() {
    let rate: Rate<Eur, Usd> = Rate::new(day(2025, 12, 1), dec(11562, 4));
    assert_eq!(rate.to_string(), "EUR/USD = 1.1562");
    assert_eq!(rate.to_string_with(Some(2)), "EUR/USD = 1.15");
    assert_eq!(rate.to_string_with(Some(6)), "EUR/USD = 1.156200");
}

#[test]
fn amount_text_truncates() {
    let a = Amount::<Usd>::new(dec(-123456789, 6));
    assert_eq!(a.to_string(), "-123.4567 USD");
    assert_eq!(a.to_string_with(Some(0)), "-123 USD");
}

#[test]
fn amounts_and_rates_compare_by_value() {
    assert_eq!(Amount::<Eur>::new(dec(10, 1)), Amount::<Eur>::new(dec(1, 0)));
    assert_ne!(Amount::<Eur>::new(dec(10, 1)), Amount::<Eur>::new(dec(2, 0)));
    let a: Rate<Eur, Usd> = Rate::new(day(2025, 1, 2), dec(1250, 3));
    let b: Rate<Eur, Usd> = Rate::new(day(2025, 1, 2), dec(125, 2));
    let c: Rate<Eur, Usd> = Rate::new(day(2025, 1, 3), dec(125, 2));
    assert_eq!(a, b);
    assert_ne!(b, c);
}
