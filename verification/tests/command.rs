use transat::date::{Date, DateTime, Span, Time};
use transat::decimal::Decimal;
use transat::ecb::endpoints::{EurUsd, ExrResponse};
use transat::ecb::models::{
    ExrDatasetSeries, ExrDimensionObservation, ExrObservationId, ExrObservationValue,
    ExrResponse as Model, ExrResponseDataset, ExrResponseStructure, ExrSeriesObservation,
    ExrStructureDimension,
};
use transat::money::{Eur, Rate, Usd};
use transat::transat::{exchange_request, report, select_rate, target_date, CurrencyArg, TransatError};

fn day(y: i16, m: i8, d: i8) -> Date {
    Date::new(y, m, d).unwrap()
}

fn rate(value: i64, scale: u32) -> Rate<Eur, Usd> {
    Rate::new(day(2025, 12, 1), Decimal::new(value, scale))
}

#[test]
fn target_date_defaults_to_today() {
    let today = day(2025, 12, 1);
    assert_eq!(target_date(None, today), Ok(today));
    assert_eq!(target_date(Some(day(2025, 11, 1)), today), Ok(day(2025, 11, 1)));
    assert_eq!(target_date(Some(today), today), Ok(today));
}

#[test]
fn target_date_in_the_future_is_refused() {
    let today = day(2025, 12, 1);
    let e = target_date(Some(day(2025, 12, 2)), today).unwrap_err();
    assert_eq!(e, TransatError::DateInFuture(day(2025, 12, 2)));
    assert_eq!(e.to_string(), "date 2025-12-02 is in the future");
}

#[test]
fn request_spans_the_lookback() {
    let today = day(2025, 12, 1);
    let req = exchange_request(None, today, &Span::from_days(7).unwrap()).unwrap();
    assert_eq!(*req.dataset(), EurUsd::Daily);
    assert_eq!(req.start(), day(2025, 11, 24));
    assert_eq!(req.end(), today);
    let req = exchange_request(Some(day(2025, 3, 1)), today, &Span::from_days(0).unwrap()).unwrap();
    assert_eq!(req.start(), req.end());
    assert!(exchange_request(Some(day(2026, 1, 1)), today, &Span::from_days(7).unwrap()).is_err());
}

#[test]
fn no_rate_is_an_error() {
    let midnight = Time { hour: 0, minute: 0, second: 0, subsec_nanosecond: 0 };
    let p = DateTime { date: day(2025, 11, 28), time: midnight };
    let obs = ExrSeriesObservation::new(Decimal::new(11562, 4), 0, 0, None, None);
    let m = Model {
        data_sets: [ExrResponseDataset::new(vec![(
            "D.USD.EUR.SP00.A".to_string(),
            ExrDatasetSeries::new(vec![(0, obs)]).unwrap(),
        )])
        .unwrap()],
        structure: ExrResponseStructure {
            dimensions: ExrStructureDimension {
                observation: [ExrDimensionObservation {
                    id: ExrObservationId::TimePeriod,
                    values: vec![ExrObservationValue { start: p, end: p }],
                }],
            },
        },
    };
    let resp: ExrResponse<Eur, Usd> = ExrResponse::new(m);
    let e = select_rate(&resp, day(2025, 11, 27)).err().unwrap();
    assert_eq!(e, TransatError::NoRate(day(2025, 11, 27)));
    assert_eq!(e.to_string(), "no exchange rate available for 2025-11-27");
    let r = select_rate(&resp, day(2025, 11, 30)).ok().unwrap();
    assert_eq!(r.value(), Decimal::new(11562, 4));
}

#[test]
fn report_rate_only() {
    assert_eq!(report(&rate(11562, 4), None).unwrap(), "EUR/USD = 1.1562");
}

#[test]
fn report_euros() {
    assert_eq!(
        report(&rate(11234, 4), Some((Decimal::new(100, 0), CurrencyArg::Eur))).unwrap(),
        "112.3400 USD (EUR/USD = 1.1234)"
    );
}

#[test]
fn report_dollars() {
    assert_eq!(
        report(&rate(125, 2), Some((Decimal::new(100, 0), CurrencyArg::Usd))).unwrap(),
        "80.0000 EUR (EUR/USD = 1.2500)"
    );
}

#[test]
fn report_zero_rate_cannot_convert_dollars() {
    assert_eq!(report(&rate(0, 0), Some((Decimal::new(100, 0), CurrencyArg::Usd))), None);
    assert_eq!(report(&rate(0, 0), None).unwrap(), "EUR/USD = 0.0000");
}

#[test]
fn report_too_long_to_print() {
    let big = Decimal::try_from_i128_with_scale(transat::decimal::MAX_MANTISSA, 0).unwrap();
    assert_eq!(report(&rate(1, 0), Some((big, CurrencyArg::Eur))), None);
}

#[test]
fn parse_date_reads_dates_and_spans() {
    let today = day(2025, 12, 1);
    assert_eq!(transat::transat::parse_date("2025-11-15", today), Some(day(2025, 11, 15)));
    assert_eq!(transat::transat::parse_date("3 days ago", today), Some(day(2025, 11, 28)));
    assert_eq!(transat::transat::parse_date("3 days", today), Some(day(2025, 11, 28)));
    assert_eq!(transat::transat::parse_date("1 week", today), Some(day(2025, 11, 24)));
    assert_eq!(transat::transat::parse_date("next tuesday", today), None);
}
