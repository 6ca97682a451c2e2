//! The rules of the `transat` command: which day to ask about, the request
//! for it, the rate that answers it, and the line that is printed.

use crate::date::{
    date_le, date_minus_span, date_minus_span_checked, date_text, parsed_date, parsed_span, Date, Span,
};
use crate::decimal::{decimal_product, decimal_quotient, display_fits, Decimal};
use crate::ecb::endpoints::{
    has_highest_index_of_its_date,
    is_latest_on_or_before,
    response_rates,
    EurUsd,
    ExrRequest,
    ExrResponse,
};
use crate::money::{amount_text, rate_text, Amount, Eur, Rate, Usd, DEFAULT_PRECISION};
use vstd::prelude::*;

verus! {

/// The source currency of a conversion.
#[derive(Copy, Clone, Eq, PartialEq, Debug, Structural)]
pub enum CurrencyArg {
    Eur,
    Usd,
}

/// Why the command gives no answer.
#[derive(Copy, Clone, Eq, PartialEq, Debug, Structural)]
pub enum TransatError {
    /// The day asked about comes after today.
    DateInFuture(Date),
    /// No rate was published on or before the day asked about.
    NoRate(Date),
}

/// The message of an error.
pub open spec fn error_text(e: TransatError) -> Seq<char> {
    match e {
        TransatError::DateInFuture(d) => seq!['d', 'a', 't', 'e', ' '] + date_text(d) + seq![
            ' ', 'i', 's', ' ', 'i', 'n', ' ', 't', 'h', 'e', ' ', 'f', 'u', 't', 'u', 'r', 'e'
        ],
        TransatError::NoRate(d) => seq![
            'n', 'o', ' ', 'e', 'x', 'c', 'h', 'a', 'n', 'g', 'e', ' ', 'r', 'a', 't', 'e', ' ',
            'a', 'v', 'a', 'i', 'l', 'a', 'b', 'l', 'e', ' ', 'f', 'o', 'r', ' '
        ] + date_text(d),
    }
}

impl TransatError {
    /// The date the error is about.
    pub open spec fn date(self) -> Date {
        match self {
            TransatError::DateInFuture(d) => d,
            TransatError::NoRate(d) => d,
        }
    }

    /// The error's message, such as `date 2030-01-01 is in the future`.
    pub fn to_string(&self) -> (s: String)
        requires
            self.date().wf(),
        ensures
            s@ == error_text(*self),
    {
        match self {
            TransatError::DateInFuture(d) => {
                let mut s = String::from_str("date ");
                s.append(d.to_string().as_str());
                s.append(" is in the future");
                proof {
                    reveal_strlit("date ");
                    reveal_strlit(" is in the future");
                }
                s
            },
            TransatError::NoRate(d) => {
                let mut s = String::from_str("no exchange rate available for ");
                s.append(d.to_string().as_str());
                proof {
                    reveal_strlit("no exchange rate available for ");
                }
                s
            },
        }
    }
}

/// The day that the `-d` argument names: a date such as `2025-12-01`, or
/// else a span such as `3 days ago`, taken as a length and counted back from
/// `today`. `None` where the text is neither, or the day would leave the
/// range of dates.
pub fn parse_date(s: &str, today: Date) -> (r: Option<Date>)
    requires
        today.wf(),
    ensures
        parsed_date(s@) is Some ==> r == parsed_date(s@),
        parsed_date(s@) is None ==> r == match parsed_span(s@) {
            Some(sp) => date_minus_span_checked(today, sp.abs_spec()),
            None => None,
        },
        r matches Some(d) ==> d.wf(),
{
    if let Some(date) = Date::parse(s) {
        return Some(date);
    }
    match Span::parse(s) {
        Some(span) => today.checked_sub(&span.abs()),
        None => None,
    }
}

/// The day asked about: the one given, or today.
pub open spec fn requested_day(requested: Option<Date>, today: Date) -> Date {
    match requested {
        Some(d) => d,
        None => today,
    }
}

/// The day to ask about: the one given, or today; a day after today is
/// refused.
pub fn target_date(requested: Option<Date>, today: Date) -> (r: Result<Date, TransatError>)
    ensures
        date_le(requested_day(requested, today), today) ==> r == Ok::<Date, TransatError>(
            requested_day(requested, today),
        ),
        !date_le(requested_day(requested, today), today) ==> r == Err::<Date, TransatError>(
            TransatError::DateInFuture(requested_day(requested, today)),
        ),
{
    let date = match requested {
        Some(d) => d,
        None => today,
    };
    if date.is_on_or_before(&today) {
        Ok(date)
    } else {
        Err(TransatError::DateInFuture(date))
    }
}

/// The request for the daily EUR/USD rates from `lookback` before the day
/// asked about up to that day; a day after today is refused.
pub fn exchange_request(requested: Option<Date>, today: Date, lookback: &Span) -> (r: Result<
    ExrRequest<EurUsd>,
    TransatError,
>)
    requires
        today.wf(),
        requested matches Some(d) ==> d.wf(),
        lookback.wf(),
    ensures
        date_le(requested_day(requested, today), today) <==> r is Ok,
        r matches Ok(req) ==> req@ == (
            EurUsd::Daily,
            date_minus_span(requested_day(requested, today), *lookback),
            requested_day(requested, today),
        ),
        r matches Err(e) ==> e == TransatError::DateInFuture(requested_day(requested, today)),
        r matches Ok(req) ==> (lookback.is_zero() ==> req@.1 == req@.2),
{
    match target_date(requested, today) {
        Ok(date) => {
            let start = date.saturating_sub(lookback);
            Ok(ExrRequest::new(EurUsd::Daily, start, date))
        },
        Err(e) => Err(e),
    }
}

/// The rate for the day asked about: that of the latest day on or before it
/// in the response; none is an error.
pub fn select_rate(response: &ExrResponse<Eur, Usd>, date: Date) -> (r: Result<
    Rate<Eur, Usd>,
    TransatError,
>)
    ensures
        r is Err <==> forall|i: int|
            0 <= i < response_rates(response@).len() ==> !date_le(
                #[trigger] response_rates(response@)[i].0,
                date,
            ),
        r matches Err(e) ==> e == TransatError::NoRate(date),
        r matches Ok(rate) ==> exists|i: int|
            is_latest_on_or_before(response_rates(response@), date, i)
                && has_highest_index_of_its_date(response_rates(response@), date, i) && rate@ == (
                #[trigger] response_rates(response@)[i].0,
                response_rates(response@)[i].1,
            ),
{
    match response.find_rate(date) {
        Some(rate) => Ok(rate),
        None => Err(TransatError::NoRate(date)),
    }
}

/// The line that reports a rate, with a conversion where one is asked for:
/// `rate` alone, or `amount (rate)` where the amount is the given value times
/// the EUR/USD rate for euros, and times its inverse for dollars. `None`
/// where the arithmetic overflows, the rate cannot be inverted, or a number
/// is too long to print.
pub open spec fn report_text(rate: Decimal, conversion: Option<(Decimal, CurrencyArg)>) -> Option<
    Seq<char>,
> {
    let p = DEFAULT_PRECISION as nat;
    let rate_line = rate_text::<Eur, Usd>(rate, p);
    if !display_fits(rate, p) {
        None
    } else {
        match conversion {
            None => Some(rate_line),
            Some((value, CurrencyArg::Eur)) => match decimal_product(value, rate) {
                Some(amount) => if display_fits(amount, p) {
                    Some(amount_text::<Usd>(amount, p) + seq![' ', '('] + rate_line + seq![')'])
                } else {
                    None
                },
                None => None,
            },
            Some((value, CurrencyArg::Usd)) => match decimal_quotient(Decimal::one_spec(), rate) {
                Some(inverse) => match decimal_product(value, inverse) {
                    Some(amount) => if display_fits(amount, p) {
                        Some(
                            amount_text::<Eur>(amount, p) + seq![' ', '('] + rate_line + seq![')'],
                        )
                    } else {
                        None
                    },
                    None => None,
                },
                None => None,
            },
        }
    }
}

/// The line that the command prints for `rate` and an optional conversion.
pub fn report(rate: &Rate<Eur, Usd>, conversion: Option<(Decimal, CurrencyArg)>) -> (r: Option<String>)
    requires
        rate@.1.wf(),
        conversion matches Some((v, _)) ==> v.wf(),
    ensures
        r is Some <==> report_text(rate@.1, conversion) is Some,
        r matches Some(s) ==> s@ == report_text(rate@.1, conversion)->0,
{
    if !rate.value().display_fits(DEFAULT_PRECISION) {
        return None;
    }
    let rate_line = rate.to_string();
    match conversion {
        None => Some(rate_line),
        Some((value, CurrencyArg::Eur)) => {
            match Amount::<Eur>::new(value).checked_convert(rate) {
                Some(amount) => {
                    if !amount.value().display_fits(DEFAULT_PRECISION) {
                        return None;
                    }
                    Some(framed(amount.to_string(), rate_line))
                },
                None => None,
            }
        },
        Some((value, CurrencyArg::Usd)) => {
            match rate.checked_invert() {
                Some(inverse) => match Amount::<Usd>::new(value).checked_convert(&inverse) {
                    Some(amount) => {
                        if !amount.value().display_fits(DEFAULT_PRECISION) {
                            return None;
                        }
                        Some(framed(amount.to_string(), rate_line))
                    },
                    None => None,
                },
                None => None,
            }
        },
    }
}

/// `amount (rate)`.
fn framed(amount: String, rate: String) -> (s: String)
    ensures
        s@ == amount@ + seq![' ', '('] + rate@ + seq![')'],
{
    let mut s = amount;
    s.append(" (");
    s.append(rate.as_str());
    s.append(")");
    proof {
        reveal_strlit(" (");
        reveal_strlit(")");
    }
    s
}

} // verus!
