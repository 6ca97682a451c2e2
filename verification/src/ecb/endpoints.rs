//! The exchange-rate endpoint: requests, the URL that asks for them, and the
//! typed response with its rate lookup.

use super::models;
use crate::date::{date_le, date_lt, date_text, Date};
use crate::decimal::Decimal;
use crate::money::{Currency, Eur, Rate, Usd};
use std::marker::PhantomData;
use vstd::prelude::*;

verus! {

/// A request to the ECB exchange rate API for a given dataset and date range.
#[derive(Clone, PartialEq, Debug)]
pub struct ExrRequest<D> {
    dataset: D,
    start: Date,
    end: Date,
}

impl<D> View for ExrRequest<D> {
    type V = (D, Date, Date);

    closed spec fn view(&self) -> (D, Date, Date) {
        (self.dataset, self.start, self.end)
    }
}

impl<D> ExrRequest<D> {
    pub fn new(dataset: D, start: Date, end: Date) -> (r: Self)
        ensures
            r@ == (dataset, start, end),
    {
        ExrRequest { dataset, start, end }
    }

    pub fn dataset(&self) -> (r: &D)
        ensures
            *r == self@.0,
    {
        &self.dataset
    }

    pub fn start(&self) -> (r: Date)
        ensures
            r == self@.1,
    {
        self.start
    }

    pub fn end(&self) -> (r: Date)
        ensures
            r == self@.2,
    {
        self.end
    }
}

/// An ECB exchange rate dataset, mapping to a specific API series key.
pub trait ExrDataset {
    type Base: Currency;
    type Quote: Currency;

    /// The series key's text.
    spec fn key_spec(self) -> Seq<char>;

    /// The series key of the dataset.
    fn key(self) -> (r: &'static str)
        ensures
            r@ == self.key_spec(),
    ;
}

/// The EUR/USD exchange rate dataset.
#[derive(Copy, Clone, Eq, PartialEq, Ord, PartialOrd, Hash, Debug)]
pub enum EurUsd {
    Daily,
}

impl ExrDataset for EurUsd {
    type Base = Eur;
    type Quote = Usd;

    open spec fn key_spec(self) -> Seq<char> {
        match self {
            EurUsd::Daily => seq![
                'D', '.', 'U', 'S', 'D', '.', 'E', 'U', 'R', '.', 'S', 'P', '0', '0', '.', 'A'
            ],
        }
    }

    fn key(self) -> (r: &'static str) {
        match self {
            EurUsd::Daily => {
                let k = "D.USD.EUR.SP00.A";
                proof {
                    reveal_strlit("D.USD.EUR.SP00.A");
                }
                k
            },
        }
    }
}

/// `service`, `data`, `EXR`: the path of the exchange-rate service.
pub open spec fn service_path() -> Seq<Seq<char>> {
    seq![
        seq!['s', 'e', 'r', 'v', 'i', 'c', 'e'],
        seq!['d', 'a', 't', 'a'],
        seq!['E', 'X', 'R'],
    ]
}

/// The path segments that name a dataset: the service path, then its key.
pub open spec fn request_path(key: Seq<char>) -> Seq<Seq<char>> {
    service_path().push(key)
}

/// The query of a request: its first and last day, and the JSON format.
pub open spec fn request_query(start: Date, end: Date) -> Seq<(Seq<char>, Seq<char>)> {
    seq![
        (seq!['s', 't', 'a', 'r', 't', 'P', 'e', 'r', 'i', 'o', 'd'], date_text(start)),
        (seq!['e', 'n', 'd', 'P', 'e', 'r', 'i', 'o', 'd'], date_text(end)),
        (seq!['f', 'o', 'r', 'm', 'a', 't'], seq!['j', 's', 'o', 'n', 'd', 'a', 't', 'a']),
    ]
}

/// The query of a request carries the request's own days: the first pair is
/// `startPeriod` with the first day's text, the second `endPeriod` with the
/// last day's text, the third `format=jsondata`; changing the first day
/// changes only the first pair, and changing the last only the second.
pub proof fn law_request_query_carries_the_days(start: Date, end: Date, start2: Date, end2: Date)
    ensures
        request_query(start, end).len() == 3,
        request_query(start, end)[0].1 == date_text(start),
        request_query(start, end)[1].1 == date_text(end),
        request_query(start, end)[0].0 == request_query(start2, end2)[0].0,
        request_query(start, end)[1].0 == request_query(start2, end2)[1].0,
        request_query(start, end)[2] == request_query(start2, end2)[2],
        request_query(start, end)[0] == request_query(start, end2)[0],
        request_query(start, end)[1] == request_query(start2, end)[1],
{
}

/// The URL of a request made from a base URL: the base with the request's
/// path segments and then its query pairs appended.
pub open spec fn request_url_spec(base: Seq<char>, key: Seq<char>, start: Date, end: Date) -> Option<
    Seq<char>,
> {
    match url_path_extended(base, request_path(key)) {
        Some(with_path) => url_query_extended(with_path, request_query(start, end)),
        None => None,
    }
}

/// Why no request URL could be made.
#[derive(Clone, Copy, Debug, PartialEq, Eq, Structural)]
pub enum UrlError {
    /// The base URL takes no path segments (it is not a base URL).
    CannotBeABase,
}

/// The path segments of a dataset's request.
pub fn request_path_segments<D: ExrDataset>(dataset: D) -> (r: Vec<&'static str>)
    ensures
        r@.len() == 4,
        r@.map_values(|s: &'static str| s@) == request_path(dataset.key_spec()),
{
    let key = dataset.key();
    let mut r: Vec<&'static str> = Vec::new();
    r.push("service");
    r.push("data");
    r.push("EXR");
    r.push(key);
    proof {
        reveal_strlit("service");
        reveal_strlit("data");
        reveal_strlit("EXR");
        assert("service"@ =~= seq!['s', 'e', 'r', 'v', 'i', 'c', 'e']);
        assert("data"@ =~= seq!['d', 'a', 't', 'a']);
        assert("EXR"@ =~= seq!['E', 'X', 'R']);
        assert(r@.map_values(|s: &'static str| s@) =~= request_path(dataset.key_spec()));
    }
    r
}

/// The query pairs of a request for these days.
pub fn request_query_pairs(start: Date, end: Date) -> (r: Vec<(String, String)>)
    requires
        start.wf(),
        end.wf(),
    ensures
        r@.len() == 3,
        r@.map_values(|p: (String, String)| (p.0@, p.1@)) == request_query(start, end),
        r@[0].1@ == date_text(start),
        r@[1].1@ == date_text(end),
{
    let mut r: Vec<(String, String)> = Vec::new();
    r.push((String::from_str("startPeriod"), start.to_string()));
    r.push((String::from_str("endPeriod"), end.to_string()));
    r.push((String::from_str("format"), String::from_str("jsondata")));
    proof {
        reveal_strlit("startPeriod");
        reveal_strlit("endPeriod");
        reveal_strlit("format");
        reveal_strlit("jsondata");
        assert("startPeriod"@ =~= seq!['s', 't', 'a', 'r', 't', 'P', 'e', 'r', 'i', 'o', 'd']);
        assert("endPeriod"@ =~= seq!['e', 'n', 'd', 'P', 'e', 'r', 'i', 'o', 'd']);
        assert("format"@ =~= seq!['f', 'o', 'r', 'm', 'a', 't']);
        assert("jsondata"@ =~= seq!['j', 's', 'o', 'n', 'd', 'a', 't', 'a']);
        assert(r@.map_values(|p: (String, String)| (p.0@, p.1@)) =~= request_query(start, end));
    }
    r
}

/// The URL that asks the service at `base_url` for `request`: the base URL
/// with the path `service/data/EXR/<key>` appended (after dropping an empty
/// last segment) and the query `startPeriod`, `endPeriod` and `format`.
pub fn request_url<D: ExrDataset>(base_url: &str, request: ExrRequest<D>) -> (r: Result<
    String,
    UrlError,
>)
    requires
        request@.1.wf(),
        request@.2.wf(),
    ensures
        r is Ok <==> request_url_spec(base_url@, request@.0.key_spec(), request@.1, request@.2) is Some,
        r matches Ok(u) ==> u@ == request_url_spec(
            base_url@,
            request@.0.key_spec(),
            request@.1,
            request@.2,
        )->0,
{
    let ExrRequest { dataset, start, end } = request;
    let segments = request_path_segments(dataset);
    let with_path = match url_extend_path(base_url, &segments) {
        Some(u) => u,
        None => {
            return Err(UrlError::CannotBeABase);
        },
    };
    let pairs = request_query_pairs(start, end);
    match url_extend_query(with_path.as_str(), &pairs) {
        Some(u) => Ok(u),
        None => Err(UrlError::CannotBeABase),
    }
}

/// The URL that `url` serializes to after `url::Url::path_segments_mut`,
/// `pop_if_empty` and `extend` with these segments; `None` where `url` does
/// not parse or takes no path segments.
pub uninterp spec fn url_path_extended(url: Seq<char>, segments: Seq<Seq<char>>) -> Option<
    Seq<char>,
>;

/// The URL that `url` serializes to after `url::Url::query_pairs_mut` and
/// `extend_pairs` with these pairs; `None` where `url` is no URL.
pub uninterp spec fn url_query_extended(url: Seq<char>, pairs: Seq<(Seq<char>, Seq<char>)>) -> Option<
    Seq<char>,
>;

/// `url::Url::path_segments_mut` then `pop_if_empty` and `extend`, on the URL
/// that `url` parses to: the result is named by `url_path_extended`.
#[verifier::external_body]
fn url_extend_path(url: &str, segments: &Vec<&'static str>) -> (r: Option<String>)
    ensures
        r matches Some(u) ==> url_path_extended(url@, segments@.map_values(|s: &'static str| s@))
            == Some(u@),
        r is None ==> url_path_extended(url@, segments@.map_values(|s: &'static str| s@)) is None,
{
    let mut u = url::Url::parse(url).ok()?;
    u.path_segments_mut().ok()?.pop_if_empty().extend(segments.iter());
    Some(u.into())
}

/// `url::Url::query_pairs_mut` then `extend_pairs`, on the URL that `url`
/// parses to: the result is named by `url_query_extended`.
#[verifier::external_body]
fn url_extend_query(url: &str, pairs: &Vec<(String, String)>) -> (r: Option<String>)
    ensures
        r matches Some(u) ==> url_query_extended(url@, pairs@.map_values(|p: (String, String)| (p.0@, p.1@)))
            == Some(u@),
        r is None ==> url_query_extended(url@, pairs@.map_values(|p: (String, String)| (p.0@, p.1@))) is None,
{
    let mut u = url::Url::parse(url).ok()?;
    u.query_pairs_mut().extend_pairs(pairs.iter());
    Some(u.into())
}

/// The dated rates of a series, in index order: one for each observation
/// whose index names a time period, dated by the day that period starts,
/// with the observation's index.
pub open spec fn observation_rates(
    observations: Seq<(usize, models::ExrSeriesObservation)>,
    periods: Seq<models::ExrObservationValue>,
) -> Seq<(Date, Decimal, usize)>
    decreases observations.len(),
{
    if observations.len() == 0 {
        Seq::empty()
    } else {
        let rest = observation_rates(observations.drop_last(), periods);
        let last = observations.last();
        if (last.0 as int) < periods.len() {
            rest.push((periods[last.0 as int].start.date, last.1.rate_spec(), last.0))
        } else {
            rest
        }
    }
}

/// The dated rates of a response: those of the first series of its data
/// set, none where it has no series.
pub open spec fn response_rates(model: models::ExrResponse) -> Seq<(Date, Decimal, usize)> {
    let series = model.data_sets@[0].values();
    if series.len() == 0 {
        Seq::empty()
    } else {
        observation_rates(series[0]@, model.structure.dimensions.observation@[0].values@)
    }
}

/// `rates[i]` is the rate of the latest date on or before `target`, and the
/// last of the rates of that date.
pub open spec fn is_latest_on_or_before(rates: Seq<(Date, Decimal, usize)>, target: Date, i: int) -> bool {
    &&& 0 <= i < rates.len()
    &&& date_le(rates[i].0, target)
    &&& forall|j: int|
        0 <= j < rates.len() && date_le(#[trigger] rates[j].0, target) ==> date_le(
            rates[j].0,
            rates[i].0,
        )
    &&& forall|j: int| i < j < rates.len() && date_le(#[trigger] rates[j].0, target) ==> rates[j].0 != rates[i].0
}

/// Every dated rate of a series comes from one of its observations: it has
/// that observation's index, that observation's decimal unchanged (mantissa,
/// scale and sign bit), and the start day of the time period the index
/// names; so well-formed observations give well-formed rates.
pub proof fn law_rates_come_from_observations(
    observations: Seq<(usize, models::ExrSeriesObservation)>,
    periods: Seq<models::ExrObservationValue>,
)
    ensures
        forall|j: int|
            0 <= j < observation_rates(observations, periods).len() ==> exists|k: int|
                0 <= k < observations.len() && (observations[k].0 as int) < periods.len()
                    && #[trigger] observation_rates(observations, periods)[j] == (
                    periods[observations[k].0 as int].start.date,
                    observations[k].1@.0,
                    observations[k].0,
                ),
        (forall|k: int| 0 <= k < observations.len() ==> (#[trigger] observations[k]).1@.0.wf())
            ==> forall|j: int|
            0 <= j < observation_rates(observations, periods).len() ==> (
            #[trigger] observation_rates(observations, periods)[j]).1.wf(),
        observation_rates(observations, periods).len() <= observations.len(),
    decreases observations.len(),
{
    if observations.len() > 0 {
        let init = observations.drop_last();
        law_rates_come_from_observations(init, periods);
        let rest = observation_rates(init, periods);
        let rates = observation_rates(observations, periods);
        let n = observations.len() - 1;
        assert forall|j: int| 0 <= j < rates.len() implies exists|k: int|
            0 <= k < observations.len() && (observations[k].0 as int) < periods.len() && #[trigger] rates[j]
                == (periods[observations[k].0 as int].start.date, observations[k].1@.0, observations[k].0) by {
            if j < rest.len() {
                assert(rates[j] == rest[j]);
                let k = choose|k: int|
                    0 <= k < init.len() && (init[k].0 as int) < periods.len() && rest[j] == (
                        periods[init[k].0 as int].start.date,
                        init[k].1@.0,
                        init[k].0,
                    );
                assert(observations[k] == init[k]);
            } else {
                assert(observations[n] == observations.last());
                assert(rates[j] == (periods[observations[n].0 as int].start.date, observations[n].1@.0, observations[n].0));
            }
        }
        if forall|k: int| 0 <= k < observations.len() ==> (#[trigger] observations[k]).1@.0.wf() {
            assert forall|k: int| 0 <= k < init.len() implies (#[trigger] init[k]).1@.0.wf() by {
                assert(init[k] == observations[k]);
            }
            assert forall|j: int| 0 <= j < rates.len() implies (#[trigger] rates[j]).1.wf() by {
                let k = choose|k: int|
                    0 <= k < observations.len() && (observations[k].0 as int) < periods.len()
                        && rates[j] == (periods[observations[k].0 as int].start.date, observations[k].1@.0, observations[k].0);
                assert(observations[k].1@.0.wf());
            }
        }
    }
}

/// The indices of a series' observations, in order.
pub open spec fn observation_indices(observations: Seq<(usize, models::ExrSeriesObservation)>) -> Seq<
    usize,
> {
    observations.map_values(|e: (usize, models::ExrSeriesObservation)| e.0)
}

/// The observation indices of dated rates, in order.
pub open spec fn rate_indices(rates: Seq<(Date, Decimal, usize)>) -> Seq<usize> {
    rates.map_values(|r: (Date, Decimal, usize)| r.2)
}

/// Of the rates dated like `rates[i]` on or before `target`, `rates[i]` has
/// the highest observation index.
pub open spec fn has_highest_index_of_its_date(
    rates: Seq<(Date, Decimal, usize)>,
    target: Date,
    i: int,
) -> bool {
    forall|j: int|
        0 <= j < rates.len() && date_le(#[trigger] rates[j].0, target) && rates[j].0 == rates[i].0
            ==> rates[j].2 <= rates[i].2
}

/// Where a series' indices ascend, so do those of its dated rates, each of
/// which is the index of one of its observations.
pub proof fn lemma_rate_indices_ascend(
    observations: Seq<(usize, models::ExrSeriesObservation)>,
    periods: Seq<models::ExrObservationValue>,
)
    requires
        models::indices_ascending(observation_indices(observations)),
    ensures
        models::indices_ascending(rate_indices(observation_rates(observations, periods))),
        forall|j: int|
            0 <= j < observation_rates(observations, periods).len() ==> exists|k: int|
                0 <= k < observations.len() && #[trigger] observation_rates(observations, periods)[j].2
                    == observations[k].0,
    decreases observations.len(),
{
    if observations.len() > 0 {
        let init = observations.drop_last();
        let keys = observation_indices(observations);
        assert forall|a: int, b: int| 0 <= a < b < init.len() implies #[trigger] observation_indices(init)[a]
            < #[trigger] observation_indices(init)[b] by {
            assert(keys[a] < keys[b]);
        }
        lemma_rate_indices_ascend(init, periods);
        let rest = observation_rates(init, periods);
        let last = observations.last();
        let rates = observation_rates(observations, periods);
        if (last.0 as int) < periods.len() {
            assert(rates == rest.push((periods[last.0 as int].start.date, last.1.rate_spec(), last.0)));
            assert forall|j: int| 0 <= j < rest.len() implies rest[j].2 < last.0 by {
                let k = choose|k: int| 0 <= k < init.len() && rest[j].2 == init[k].0;
                assert(keys[k] < keys[observations.len() - 1]);
            }
            assert forall|a: int, b: int| 0 <= a < b < rates.len() implies #[trigger] rate_indices(rates)[a]
                < #[trigger] rate_indices(rates)[b] by {
                assert(rates[a] == rest[a]);
                if b < rest.len() {
                    assert(rates[b] == rest[b]);
                    assert(rate_indices(rest)[a] < rate_indices(rest)[b]);
                }
            }
            assert forall|j: int| 0 <= j < rates.len() implies exists|k: int|
                0 <= k < observations.len() && #[trigger] rates[j].2 == observations[k].0 by {
                if j < rest.len() {
                    assert(rates[j] == rest[j]);
                    let k = choose|k: int| 0 <= k < init.len() && rest[j].2 == init[k].0;
                    assert(observations[k] == init[k]);
                } else {
                    assert(rates[j].2 == observations[observations.len() - 1].0);
                }
            }
        } else {
            assert(rates == rest);
            assert forall|a: int, b: int| 0 <= a < b < rates.len() implies #[trigger] rate_indices(rates)[a]
                < #[trigger] rate_indices(rates)[b] by {
                assert(rate_indices(rest)[a] < rate_indices(rest)[b]);
            }
            assert forall|j: int| 0 <= j < rates.len() implies exists|k: int|
                0 <= k < observations.len() && #[trigger] rates[j].2 == observations[k].0 by {
                let k = choose|k: int| 0 <= k < init.len() && rest[j].2 == init[k].0;
                assert(observations[k] == init[k]);
            }
        }
    }
}

/// Where the indices ascend, the latest rate on or before a day has the
/// highest index among the rates of its date: the rate found is the one of
/// the highest observation index among those of the latest date.
pub proof fn law_latest_has_highest_index(rates: Seq<(Date, Decimal, usize)>, target: Date, i: int)
    requires
        is_latest_on_or_before(rates, target, i),
        models::indices_ascending(rate_indices(rates)),
    ensures
        has_highest_index_of_its_date(rates, target, i),
        forall|j: int|
            0 <= j < rates.len() && date_le(#[trigger] rates[j].0, target) ==> date_lt(
                rates[j].0,
                rates[i].0,
            ) || (rates[j].0 == rates[i].0 && rates[j].2 <= rates[i].2),
{
    assert forall|j: int|
        0 <= j < rates.len() && date_le(#[trigger] rates[j].0, target) && rates[j].0 == rates[i].0
            implies rates[j].2 <= rates[i].2 by {
        if j < i {
            assert(rate_indices(rates)[j] < rate_indices(rates)[i]);
        }
    }
}

/// At most one rate is the latest on or before a day: the rate that
/// `find_rate` returns is determined by the response and the day.
pub proof fn law_latest_is_unique(rates: Seq<(Date, Decimal, usize)>, target: Date, i: int, j: int)
    requires
        is_latest_on_or_before(rates, target, i),
        is_latest_on_or_before(rates, target, j),
    ensures
        i == j,
{
    assert(date_le(rates[i].0, rates[j].0));
    assert(date_le(rates[j].0, rates[i].0));
    crate::date::law_date_order(rates[i].0, rates[j].0, rates[j].0);
}

/// A rate published on the day asked about is the one found: the latest
/// rate on or before a day that has a rate is dated that day.
pub proof fn law_rate_of_the_day_wins(rates: Seq<(Date, Decimal, usize)>, target: Date, i: int, k: int)
    requires
        is_latest_on_or_before(rates, target, i),
        0 <= k < rates.len(),
        rates[k].0 == target,
    ensures
        rates[i].0 == target,
{
    assert(date_le(rates[k].0, target));
    crate::date::law_date_order(rates[i].0, target, target);
}

/// A typed wrapper around the raw ECB exchange rate response.
#[derive(Debug)]
pub struct ExrResponse<B, Q> {
    model: models::ExrResponse,
    _phantom: PhantomData<(B, Q)>,
}

impl<B, Q> View for ExrResponse<B, Q> {
    type V = models::ExrResponse;

    closed spec fn view(&self) -> models::ExrResponse {
        self.model
    }
}

impl<B, Q> ExrResponse<B, Q> {
    pub fn new(model: models::ExrResponse) -> (r: Self)
        ensures
            r@ == model,
    {
        ExrResponse { model, _phantom: PhantomData }
    }

    pub fn model(&self) -> (r: &models::ExrResponse)
        ensures
            *r == self@,
    {
        &self.model
    }

    /// Finds the exchange rate for `date`, or the closest preceding date
    /// if unavailable (e.g. weekends or holidays). Of several rates of that
    /// date, the last one wins.
    pub fn find_rate(&self, date: Date) -> (r: Option<Rate<B, Q>>)
        ensures
            r is None <==> forall|i: int|
                0 <= i < response_rates(self@).len() ==> !date_le(
                    #[trigger] response_rates(self@)[i].0,
                    date,
                ),
            r matches Some(rate) ==> exists|i: int|
                is_latest_on_or_before(response_rates(self@), date, i)
                    && has_highest_index_of_its_date(response_rates(self@), date, i) && rate@ == (
                    #[trigger] response_rates(self@)[i].0,
                    response_rates(self@)[i].1,
                ),
            models::indices_ascending(rate_indices(response_rates(self@))),
    {
        let dimension = &self.model.structure.dimensions.observation[0];
        let series = match self.model.data_sets[0].first_series() {
            Some(s) => s,
            None => {
                assert(response_rates(self@) =~= Seq::<(Date, Decimal, usize)>::empty());
                return None;
            },
        };
        let observations = series.observations();
        let ghost periods = dimension.values@;
        proof {
            lemma_rate_indices_ascend(observations@, periods);
        }
        let ghost all = observations@;
        assert(all.take(all.len() as int) =~= all);
        let mut best: Option<Rate<B, Q>> = None;
        let ghost mut best_index: int = 0;
        let mut k: usize = 0;
        while k < observations.len()
            invariant
                0 <= k <= observations.len(),
                all == observations@,
                periods == dimension.values@,
                response_rates(self@) == observation_rates(all, periods),
                best is None <==> forall|i: int|
                    0 <= i < observation_rates(all.take(k as int), periods).len() ==> !date_le(
                        #[trigger] observation_rates(all.take(k as int), periods)[i].0,
                        date,
                    ),
                best matches Some(b) ==> is_latest_on_or_before(
                    observation_rates(all.take(k as int), periods),
                    date,
                    best_index,
                ) && b@ == (
                    observation_rates(all.take(k as int), periods)[best_index].0,
                    observation_rates(all.take(k as int), periods)[best_index].1,
                ),
            decreases observations.len() - k,
        {
            let ghost before = observation_rates(all.take(k as int), periods);
            assert(all.take(k + 1).drop_last() =~= all.take(k as int));
            assert(all.take(k + 1).last() == all[k as int]);
            let idx = observations[k].0;
            if idx < dimension.values.len() {
                let obs_date = dimension.values[idx].start.date();
                let obs_rate = observations[k].1.rate();
                let ghost after = before.push((obs_date, obs_rate, idx));
                assert(observation_rates(all.take(k + 1), periods) == after);
                assert(after[before.len() as int] == (obs_date, obs_rate, idx));
                assert(forall|i: int| 0 <= i < before.len() ==> after[i] == before[i]);
                if obs_date.is_on_or_before(&date) {
                    let better = match &best {
                        None => true,
                        Some(b) => b.date().is_on_or_before(&obs_date),
                    };
                    if better {
                        best = Some(Rate::new(obs_date, obs_rate));
                        proof {
                            best_index = before.len() as int;
                        }
                    }
                }
            } else {
                assert(observation_rates(all.take(k + 1), periods) == before);
            }
            proof {
                let now = observation_rates(all.take(k + 1), periods);
                if best is Some {
                    assert(is_latest_on_or_before(now, date, best_index));
                    assert(date_le(now[best_index].0, date));
                }
                if best is None {
                    assert forall|i: int| 0 <= i < now.len() implies !date_le(#[trigger] now[i].0, date) by {
                        if i < before.len() {
                            assert(now[i] == before[i]);
                        }
                    }
                }
            }
            k = k + 1;
        }
        proof {
            if best is Some {
                assert(is_latest_on_or_before(response_rates(self@), date, best_index));
                law_latest_has_highest_index(response_rates(self@), date, best_index);
            }
        }
        best
    }
}

} // verus!
