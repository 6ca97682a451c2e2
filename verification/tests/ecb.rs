use transat::date::{Date, DateTime, Time};
use transat::decimal::Decimal;
use transat::ecb::endpoints::{
    request_path_segments, request_query_pairs, request_url, EurUsd, ExrDataset, ExrRequest,
    ExrResponse, UrlError,
};
use transat::ecb::models::{
    text_less, ExrDatasetSeries, ExrDimensionObservation, ExrObservationId,
    ExrObservationValue, ExrResponse as Model, ExrResponseDataset, ExrResponseStructure,
    ExrSeriesObservation, ExrStructureDimension,
};
use transat::money::{Eur, Usd};

fn day(y: i16, m: i8, d: i8) -> Date {
    Date::new(y, m, d).unwrap()
}

fn period(d: Date) -> ExrObservationValue {
    let midnight = Time { hour: 0, minute: 0, second: 0, subsec_nanosecond: 0 };
    let last = Time { hour: 23, minute: 59, second: 59, subsec_nanosecond: 999_999_999 };
    ExrObservationValue {
        start: DateTime { date: d, time: midnight },
        end: DateTime { date: d, time: last },
    }
}

fn obs(rate: i64) -> ExrSeriesObservation {
    ExrSeriesObservation::new(Decimal::new(rate, 4), 0, 0, None, None)
}

fn model(periods: Vec<Date>, series: Vec<(&str, Vec<(usize, i64)>)>) -> Model {
    let series = series
        .into_iter()
        .map(|(k, o)| {
            let o = o.into_iter().map(|(i, r)| (i, obs(r))).collect();
            (k.to_string(), ExrDatasetSeries::new(o).unwrap())
        })
        .collect();
    Model {
        data_sets: [ExrResponseDataset::new(series).unwrap()],
        structure: ExrResponseStructure {
            dimensions: ExrStructureDimension {
                observation: [ExrDimensionObservation {
                    id: ExrObservationId::TimePeriod,
                    values: periods.into_iter().map(period).collect(),
                }],
            },
        },
    }
}

fn week() -> Vec<Date> {
    vec![day(2025, 11, 24), day(2025, 11, 25), day(2025, 11, 26), day(2025, 11, 27), day(2025, 11, 28)]
}

#[test]
fn dataset_key() {
    assert_eq!(EurUsd::Daily.key(), "D.USD.EUR.SP00.A");
}

#[test]
fn request_fields() {
    let r = ExrRequest::new(EurUsd::Daily, day(2025, 11, 24), day(2025, 12, 1));
    assert_eq!(*r.dataset(), EurUsd::Daily);
    assert_eq!(r.start(), day(2025, 11, 24));
    assert_eq!(r.end(), day(2025, 12, 1));
}

#[test]
fn path_and_query() {
    assert_eq!(request_path_segments(EurUsd::Daily), vec!["service", "data", "EXR", "D.USD.EUR.SP00.A"]);
    let q = request_query_pairs(day(2025, 11, 24), day(2025, 12, 1));
    assert_eq!(
        q,
        vec![
            ("startPeriod".to_string(), "2025-11-24".to_string()),
            ("endPeriod".to_string(), "2025-12-01".to_string()),
            ("format".to_string(), "jsondata".to_string()),
        ]
    );
}

#[test]
fn url_of_a_request() {
    let r = ExrRequest::new(EurUsd::Daily, day(2025, 11, 24), day(2025, 12, 1));
    assert_eq!(
        request_url("https://data-api.ecb.europa.eu/", r.clone()).unwrap(),
        "https://data-api.ecb.europa.eu/service/data/EXR/D.USD.EUR.SP00.A?startPeriod=2025-11-24&endPeriod=2025-12-01&format=jsondata"
    );
    assert_eq!(
        request_url("https://example.org/api/", r.clone()).unwrap(),
        "https://example.org/api/service/data/EXR/D.USD.EUR.SP00.A?startPeriod=2025-11-24&endPeriod=2025-12-01&format=jsondata"
    );
    assert_eq!(request_url("mailto:someone@example.org", r.clone()), Err(UrlError::CannotBeABase));
    assert_eq!(request_url("not a url", r), Err(UrlError::CannotBeABase));
}

#[test]
fn find_rate_on_the_day() {
    let m = model(week(), vec![("D.USD.EUR.SP00.A", vec![(0, 11500), (1, 11510), (2, 11520)])]);
    let resp: ExrResponse<Eur, Usd> = ExrResponse::new(m);
    let r = resp.find_rate(day(2025, 11, 25)).unwrap();
    assert_eq!(r.date(), day(2025, 11, 25));
    assert_eq!(r.value(), Decimal::new(11510, 4));
}

#[test]
fn find_rate_falls_back_to_the_preceding_day() {
    let m = model(week(), vec![("D.USD.EUR.SP00.A", vec![(0, 11500), (2, 11520)])]);
    let resp: ExrResponse<Eur, Usd> = ExrResponse::new(m);
    let r = resp.find_rate(day(2025, 11, 30)).unwrap();
    assert_eq!(r.date(), day(2025, 11, 26));
    assert_eq!(r.value(), Decimal::new(11520, 4));
    let r = resp.find_rate(day(2025, 11, 25)).unwrap();
    assert_eq!(r.date(), day(2025, 11, 24));
}

#[test]
fn find_rate_none_before_the_first_day() {
    let m = model(week(), vec![("D.USD.EUR.SP00.A", vec![(0, 11500)])]);
    let resp: ExrResponse<Eur, Usd> = ExrResponse::new(m);
    assert!(resp.find_rate(day(2025, 11, 23)).is_none());
}

#[test]
fn find_rate_skips_unknown_periods() {
    let m = model(week(), vec![("D.USD.EUR.SP00.A", vec![(1, 11510), (9, 99999)])]);
    let resp: ExrResponse<Eur, Usd> = ExrResponse::new(m);
    let r = resp.find_rate(day(2030, 1, 1)).unwrap();
    assert_eq!(r.date(), day(2025, 11, 25));
}

#[test]
fn find_rate_last_of_equal_days_wins() {
    let periods = vec![day(2025, 11, 24), day(2025, 11, 24)];
    let m = model(periods, vec![("D.USD.EUR.SP00.A", vec![(0, 11500), (1, 11600)])]);
    let resp: ExrResponse<Eur, Usd> = ExrResponse::new(m);
    let r = resp.find_rate(day(2025, 11, 24)).unwrap();
    assert_eq!(r.value(), Decimal::new(11600, 4));
}

#[test]
fn find_rate_highest_index_of_equal_days_wins() {
    let periods = vec![day(2025, 11, 25), day(2025, 11, 24), day(2025, 11, 25)];
    let m = model(periods, vec![("D.USD.EUR.SP00.A", vec![(0, 11500), (1, 11600), (2, 11700)])]);
    let resp: ExrResponse<Eur, Usd> = ExrResponse::new(m);
    let r = resp.find_rate(day(2025, 11, 26)).unwrap();
    assert_eq!(r.date(), day(2025, 11, 25));
    assert_eq!(r.value(), Decimal::new(11700, 4));
}

#[test]
fn find_rate_uses_the_first_series() {
    let m = model(
        week(),
        vec![("A", vec![(0, 10000)]), ("B", vec![(1, 20000)])],
    );
    let resp: ExrResponse<Eur, Usd> = ExrResponse::new(m);
    let r = resp.find_rate(day(2025, 11, 28)).unwrap();
    assert_eq!(r.value(), Decimal::new(10000, 4));
}

#[test]
fn find_rate_without_series() {
    let m = model(week(), vec![]);
    let resp: ExrResponse<Eur, Usd> = ExrResponse::new(m);
    assert!(resp.find_rate(day(2025, 11, 28)).is_none());
}

#[test]
fn maps_hold_their_keys_in_order() {
    assert!(ExrDatasetSeries::new(vec![(2, obs(1)), (1, obs(2))]).is_none());
    assert!(ExrDatasetSeries::new(vec![(1, obs(1)), (1, obs(2))]).is_none());
    assert!(ExrDatasetSeries::new(vec![(1, obs(1)), (4, obs(2))]).is_some());
    let s = || ExrDatasetSeries::new(vec![]).unwrap();
    assert!(ExrResponseDataset::new(vec![("b".to_string(), s()), ("a".to_string(), s())]).is_none());
    assert!(ExrResponseDataset::new(vec![("a".to_string(), s()), ("ab".to_string(), s())]).is_some());
}

#[test]
fn text_order() {
    assert!(text_less("a", "b"));
    assert!(text_less("a", "ab"));
    assert!(!text_less("ab", "a"));
    assert!(!text_less("a", "a"));
    assert!(text_less("", "a"));
    assert!(text_less("Z", "a"));
    assert!(text_less("é", "ê"));
}

#[test]
fn observation_rate() {
    assert_eq!(obs(11562).rate(), Decimal::new(11562, 4));
}
