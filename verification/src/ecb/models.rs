//! The exchange-rate response of the ECB data API, as plain values. The maps
//! of the JSON document are held as vectors of entries in ascending key
//! order, which their constructors check.

use crate::date::DateTime;
use crate::decimal::Decimal;
use vstd::prelude::*;

verus! {

/// A whole response: one data set and the structure that describes it.
#[derive(Debug)]
pub struct ExrResponse {
    pub data_sets: [ExrResponseDataset; 1],
    pub structure: ExrResponseStructure,
}

/// `a` sorts strictly before `b`: the first differing character is smaller,
/// or `a` is a proper prefix of `b` (the order of `String`).
pub open spec fn text_lt(a: Seq<char>, b: Seq<char>) -> bool
    decreases a.len(),
{
    if a.len() == 0 {
        b.len() > 0
    } else if b.len() == 0 {
        false
    } else if a[0] != b[0] {
        (a[0] as u32) < (b[0] as u32)
    } else {
        text_lt(a.drop_first(), b.drop_first())
    }
}

/// The texts strictly ascend.
pub open spec fn texts_ascending(keys: Seq<Seq<char>>) -> bool {
    forall|i: int, j: int| 0 <= i < j < keys.len() ==> text_lt(#[trigger] keys[i], #[trigger] keys[j])
}

/// The keys strictly ascend.
pub open spec fn indices_ascending(keys: Seq<usize>) -> bool {
    forall|i: int, j: int| 0 <= i < j < keys.len() ==> #[trigger] keys[i] < #[trigger] keys[j]
}

/// The data set: its series keyed by series key, in key order.
#[derive(Debug)]
pub struct ExrResponseDataset {
    series: Vec<(String, ExrDatasetSeries)>,
}

impl ExrResponseDataset {
    /// The series keys, in order.
    pub closed spec fn keys(self) -> Seq<Seq<char>> {
        self.series@.map_values(|e: (String, ExrDatasetSeries)| e.0@)
    }

    /// The series, in key order.
    pub closed spec fn values(self) -> Seq<ExrDatasetSeries> {
        self.series@.map_values(|e: (String, ExrDatasetSeries)| e.1)
    }

    #[verifier::type_invariant]
    closed spec fn inv(self) -> bool {
        texts_ascending(self.keys())
    }

    /// The data set of these series, or `None` where their keys do not
    /// strictly ascend (a map holds each key once, in order).
    pub fn new(series: Vec<(String, ExrDatasetSeries)>) -> (r: Option<Self>)
        ensures
            r is Some <==> texts_ascending(series@.map_values(|e: (String, ExrDatasetSeries)| e.0@)),
            r matches Some(d) ==> d.keys() == series@.map_values(|e: (String, ExrDatasetSeries)| e.0@)
                && d.values() == series@.map_values(|e: (String, ExrDatasetSeries)| e.1),
    {
        let ghost keys = series@.map_values(|e: (String, ExrDatasetSeries)| e.0@);
        let mut i: usize = 1;
        while i < series.len()
            invariant
                1 <= i,
                keys == series@.map_values(|e: (String, ExrDatasetSeries)| e.0@),
                series.len() == 0 || i <= series.len(),
                forall|a: int, b: int| 0 <= a < b < i && b < keys.len() ==> text_lt(#[trigger] keys[a], #[trigger] keys[b]),
            decreases series.len() - i,
        {
            let ordered = text_less(series[i - 1].0.as_str(), series[i].0.as_str());
            assert(keys[i - 1] == series@[i - 1].0@);
            assert(keys[i as int] == series@[i as int].0@);
            if !ordered {
                return None;
            }
            proof {
                assert forall|a: int, b: int| 0 <= a < b < i + 1 && b < keys.len() implies text_lt(
                    #[trigger] keys[a],
                    #[trigger] keys[b],
                ) by {
                    if b == i && a < i - 1 {
                        lemma_text_lt_transitive(keys[a], keys[i - 1], keys[b]);
                    }
                }
            }
            i = i + 1;
        }
        Some(ExrResponseDataset { series })
    }

    /// The entries, in key order: their keys strictly ascend.
    pub fn series(&self) -> (r: &Vec<(String, ExrDatasetSeries)>)
        ensures
            r@.map_values(|e: (String, ExrDatasetSeries)| e.0@) == self.keys(),
            r@.map_values(|e: (String, ExrDatasetSeries)| e.1) == self.values(),
            texts_ascending(self.keys()),
    {
        proof {
            use_type_invariant(self);
        }
        &self.series
    }

    /// The series of the smallest key, if there is one.
    pub fn first_series(&self) -> (r: Option<&ExrDatasetSeries>)
        ensures
            r is Some <==> self.values().len() > 0,
            r matches Some(s) ==> *s == self.values()[0],
    {
        if self.series.len() == 0 {
            None
        } else {
            Some(&self.series[0].1)
        }
    }
}

/// `<` on texts is transitive.
pub proof fn lemma_text_lt_transitive(a: Seq<char>, b: Seq<char>, c: Seq<char>)
    requires
        text_lt(a, b),
        text_lt(b, c),
    ensures
        text_lt(a, c),
    decreases a.len(),
{
    if a.len() > 0 && b.len() > 0 && c.len() > 0 && a[0] == b[0] && b[0] == c[0] {
        lemma_text_lt_transitive(a.drop_first(), b.drop_first(), c.drop_first());
    }
}

/// Whether `a` sorts strictly before `b`.
pub fn text_less(a: &str, b: &str) -> (r: bool)
    ensures
        r == text_lt(a@, b@),
{
    let n = a.unicode_len();
    let m = b.unicode_len();
    let mut i: usize = 0;
    assert(a@.skip(0) =~= a@);
    assert(b@.skip(0) =~= b@);
    while i < n && i < m
        invariant
            n == a@.len(),
            m == b@.len(),
            i <= n,
            i <= m,
            text_lt(a@, b@) == text_lt(a@.skip(i as int), b@.skip(i as int)),
        decreases n - i,
    {
        let x = a.get_char(i);
        let y = b.get_char(i);
        assert(a@.skip(i as int)[0] == x);
        assert(b@.skip(i as int)[0] == y);
        if x != y {
            return (x as u32) < (y as u32);
        }
        assert(a@.skip(i as int).drop_first() =~= a@.skip(i + 1));
        assert(b@.skip(i as int).drop_first() =~= b@.skip(i + 1));
        i = i + 1;
    }
    assert(a@.skip(i as int).len() == 0 || b@.skip(i as int).len() == 0);
    n - i == 0 && m - i > 0
}

/// A series: its observations keyed by their index into the time periods of
/// the structure, in index order.
#[derive(Debug)]
pub struct ExrDatasetSeries {
    observations: Vec<(usize, ExrSeriesObservation)>,
}

impl View for ExrDatasetSeries {
    type V = Seq<(usize, ExrSeriesObservation)>;

    closed spec fn view(&self) -> Seq<(usize, ExrSeriesObservation)> {
        self.observations@
    }
}

impl ExrDatasetSeries {
    #[verifier::type_invariant]
    closed spec fn inv(self) -> bool {
        indices_ascending(self.observations@.map_values(|e: (usize, ExrSeriesObservation)| e.0))
    }

    /// The series of these observations, or `None` where their indices do
    /// not strictly ascend (a map holds each key once, in order).
    pub fn new(observations: Vec<(usize, ExrSeriesObservation)>) -> (r: Option<Self>)
        ensures
            r is Some <==> indices_ascending(
                observations@.map_values(|e: (usize, ExrSeriesObservation)| e.0),
            ),
            r matches Some(s) ==> s@ == observations@,
    {
        let ghost keys = observations@.map_values(|e: (usize, ExrSeriesObservation)| e.0);
        let mut i: usize = 1;
        while i < observations.len()
            invariant
                1 <= i,
                keys == observations@.map_values(|e: (usize, ExrSeriesObservation)| e.0),
                observations.len() == 0 || i <= observations.len(),
                forall|a: int, b: int| 0 <= a < b < i && b < keys.len() ==> #[trigger] keys[a] < #[trigger] keys[b],
            decreases observations.len() - i,
        {
            assert(keys[i - 1] == observations@[i - 1].0);
            assert(keys[i as int] == observations@[i as int].0);
            if observations[i - 1].0 >= observations[i].0 {
                return None;
            }
            assert forall|a: int, b: int| 0 <= a < b < i + 1 && b < keys.len() implies #[trigger] keys[a]
                < #[trigger] keys[b] by {
                if b == i && a < i - 1 {
                    assert(keys[a] < keys[i - 1]);
                }
            }
            i = i + 1;
        }
        Some(ExrDatasetSeries { observations })
    }

    /// The observations, in index order: their indices strictly ascend.
    pub fn observations(&self) -> (r: &Vec<(usize, ExrSeriesObservation)>)
        ensures
            r@ == self@,
            indices_ascending(r@.map_values(|e: (usize, ExrSeriesObservation)| e.0)),
    {
        proof {
            use_type_invariant(self);
        }
        &self.observations
    }
}

/// One observation: the rate, then its status, confidentiality, pre-break
/// value and comment codes.
#[derive(Clone, Copy, Debug)]
pub struct ExrSeriesObservation(Decimal, u8, u8, Option<u8>, Option<u8>);

impl View for ExrSeriesObservation {
    type V = (Decimal, u8, u8, Option<u8>, Option<u8>);

    closed spec fn view(&self) -> (Decimal, u8, u8, Option<u8>, Option<u8>) {
        (self.0, self.1, self.2, self.3, self.4)
    }
}

impl ExrSeriesObservation {
    /// The observed rate.
    pub open spec fn rate_spec(self) -> Decimal {
        self@.0
    }

    pub fn new(
        rate: Decimal,
        status: u8,
        confidentiality: u8,
        pre_break: Option<u8>,
        comment: Option<u8>,
    ) -> (r: Self)
        ensures
            r@ == (rate, status, confidentiality, pre_break, comment),
    {
        ExrSeriesObservation(rate, status, confidentiality, pre_break, comment)
    }

    /// The observed rate.
    pub fn rate(&self) -> (r: Decimal)
        ensures
            r == self.rate_spec(),
            r == self@.0,
    {
        self.0
    }

    pub fn status(&self) -> (r: u8)
        ensures
            r == self@.1,
    {
        self.1
    }

    pub fn confidentiality(&self) -> (r: u8)
        ensures
            r == self@.2,
    {
        self.2
    }

    pub fn pre_break(&self) -> (r: Option<u8>)
        ensures
            r == self@.3,
    {
        self.3
    }

    pub fn comment(&self) -> (r: Option<u8>)
        ensures
            r == self@.4,
    {
        self.4
    }
}

/// An observation's rate is the decimal it was made with, field for field:
/// mantissa, scale and sign bit.
pub proof fn law_observation_rate(
    rate: Decimal,
    status: u8,
    confidentiality: u8,
    pre_break: Option<u8>,
    comment: Option<u8>,
    o: ExrSeriesObservation,
)
    requires
        o@ == (rate, status, confidentiality, pre_break, comment),
    ensures
        o.rate_spec() == rate,
        o.rate_spec().mantissa == rate.mantissa,
        o.rate_spec().scale == rate.scale,
        o.rate_spec().negative == rate.negative,
        rate.wf() ==> o.rate_spec().wf(),
{
}

/// The structure of the data set: its dimensions.
#[derive(Debug)]
pub struct ExrResponseStructure {
    pub dimensions: ExrStructureDimension,
}

/// The dimensions: the single observation dimension.
#[derive(Debug)]
pub struct ExrStructureDimension {
    pub observation: [ExrDimensionObservation; 1],
}

/// The observation dimension: the time periods, in order of index.
#[derive(Debug)]
pub struct ExrDimensionObservation {
    pub id: ExrObservationId,
    pub values: Vec<ExrObservationValue>,
}

/// The identifier of the observation dimension.
#[derive(Copy, Clone, Eq, PartialEq, Ord, PartialOrd, Hash, Debug)]
pub enum ExrObservationId {
    TimePeriod,
}

/// A time period: when it starts and when it ends.
#[derive(Clone, Copy, Debug)]
pub struct ExrObservationValue {
    pub start: DateTime,
    pub end: DateTime,
}

} // verus!
