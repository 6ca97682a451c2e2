//! Civil dates, times and spans of the proleptic Gregorian calendar, held as
//! plain values, with the calendar arithmetic done by `jiff`.

use vstd::prelude::*;

verus! {

/// Whether `year` is a leap year of the proleptic Gregorian calendar.
pub open spec fn is_leap_year(year: int) -> bool {
    if year % 25 != 0 {
        year % 4 == 0
    } else {
        year % 16 == 0
    }
}

/// The number of days of `month` in `year`.
pub open spec fn days_in_month(year: int, month: int) -> int {
    if month == 2 {
        if is_leap_year(year) { 29 } else { 28 }
    } else if month == 4 || month == 6 || month == 9 || month == 11 {
        30
    } else {
        31
    }
}

/// A civil date: a year in `-9999..=9999`, a month and a day of that month.
#[derive(Clone, Copy, Debug, PartialEq, Eq, Structural)]
pub struct Date {
    pub year: i16,
    pub month: i8,
    pub day: i8,
}

/// `a` is on or before `b`: dates are ordered by year, then month, then day.
pub open spec fn date_le(a: Date, b: Date) -> bool {
    ||| a.year < b.year
    ||| a.year == b.year && a.month < b.month
    ||| a.year == b.year && a.month == b.month && a.day <= b.day
}

/// `a` is strictly before `b`.
pub open spec fn date_lt(a: Date, b: Date) -> bool {
    date_le(a, b) && a != b
}

/// Dates are totally ordered: `date_le` is reflexive, antisymmetric,
/// transitive and total, and `date_lt` is its strict part.
pub proof fn law_date_order(a: Date, b: Date, c: Date)
    ensures
        date_le(a, a),
        date_le(a, b) && date_le(b, a) ==> a == b,
        date_le(a, b) && date_le(b, c) ==> date_le(a, c),
        date_le(a, b) || date_le(b, a),
        date_lt(a, b) <==> !date_le(b, a),
{
}

/// Dates are ordered by the calendar: by year, then within a year by month
/// whatever the days, then by day. Equivalently, `date_le` compares the day
/// numbers `372 * year + 31 * month + day`, which grow with the calendar.
pub proof fn law_date_order_is_chronological(a: Date, b: Date)
    requires
        1 <= a.month <= 12,
        1 <= b.month <= 12,
        1 <= a.day <= 31,
        1 <= b.day <= 31,
    ensures
        date_le(a, b) <==> 372 * a.year + 31 * a.month + a.day <= 372 * b.year + 31 * b.month
            + b.day,
        a.year < b.year ==> date_lt(a, b),
        a.year == b.year && a.month < b.month ==> date_lt(a, b),
        a.year == b.year && a.month == b.month && a.day < b.day ==> date_lt(a, b),
{
}

/// The absolute value of a span keeps every unit's magnitude and makes it
/// non-negative: each unit is either kept or negated, and none is negative.
/// Taking it twice changes nothing, and a non-negative span is its own
/// absolute value.
pub proof fn law_span_abs(s: Span)
    requires
        s.wf(),
    ensures
        s.abs_spec().is_non_negative(),
        s.abs_spec().wf(),
        s.abs_spec().years * s.abs_spec().years == s.years * s.years,
        s.abs_spec().months * s.abs_spec().months == s.months * s.months,
        s.abs_spec().weeks * s.abs_spec().weeks == s.weeks * s.weeks,
        s.abs_spec().days * s.abs_spec().days == s.days * s.days,
        s.abs_spec().hours * s.abs_spec().hours == s.hours * s.hours,
        s.abs_spec().minutes * s.abs_spec().minutes == s.minutes * s.minutes,
        s.abs_spec().seconds * s.abs_spec().seconds == s.seconds * s.seconds,
        s.abs_spec().milliseconds * s.abs_spec().milliseconds == s.milliseconds * s.milliseconds,
        s.abs_spec().microseconds * s.abs_spec().microseconds == s.microseconds * s.microseconds,
        s.abs_spec().nanoseconds * s.abs_spec().nanoseconds == s.nanoseconds * s.nanoseconds,
        s.abs_spec().abs_spec() == s.abs_spec(),
        s.is_non_negative() ==> s.abs_spec() == s,
{
    let a = s.abs_spec();
    assert(a.years * a.years == s.years * s.years) by (nonlinear_arith)
        requires a.years == s.years || a.years == -s.years;
    assert(a.months * a.months == s.months * s.months) by (nonlinear_arith)
        requires a.months == s.months || a.months == -s.months;
    assert(a.weeks * a.weeks == s.weeks * s.weeks) by (nonlinear_arith)
        requires a.weeks == s.weeks || a.weeks == -s.weeks;
    assert(a.days * a.days == s.days * s.days) by (nonlinear_arith)
        requires a.days == s.days || a.days == -s.days;
    assert(a.hours * a.hours == s.hours * s.hours) by (nonlinear_arith)
        requires a.hours == s.hours || a.hours == -s.hours;
    assert(a.minutes * a.minutes == s.minutes * s.minutes) by (nonlinear_arith)
        requires a.minutes == s.minutes || a.minutes == -s.minutes;
    assert(a.seconds * a.seconds == s.seconds * s.seconds) by (nonlinear_arith)
        requires a.seconds == s.seconds || a.seconds == -s.seconds;
    assert(a.milliseconds * a.milliseconds == s.milliseconds * s.milliseconds) by (nonlinear_arith)
        requires a.milliseconds == s.milliseconds || a.milliseconds == -s.milliseconds;
    assert(a.microseconds * a.microseconds == s.microseconds * s.microseconds) by (nonlinear_arith)
        requires a.microseconds == s.microseconds || a.microseconds == -s.microseconds;
    assert(a.nanoseconds * a.nanoseconds == s.nanoseconds * s.nanoseconds) by (nonlinear_arith)
        requires a.nanoseconds == s.nanoseconds || a.nanoseconds == -s.nanoseconds;
}

/// The ASCII digit for `d` in `0..10`.
pub open spec fn digit(d: int) -> char {
    (d + 48) as char
}

/// `n` in `0..100` written with two digits.
pub open spec fn pad2(n: int) -> Seq<char> {
    seq![digit(n / 10), digit(n % 10)]
}

/// `n` in `0..10000` written with four digits.
pub open spec fn pad4(n: int) -> Seq<char> {
    seq![digit(n / 1000), digit((n / 100) % 10), digit((n / 10) % 10), digit(n % 10)]
}

/// The ISO 8601 text of a date, `YYYY-MM-DD`; a negative year is written
/// with a sign and six digits.
pub open spec fn date_text(d: Date) -> Seq<char> {
    let year_abs: int = if d.year < 0 { -d.year } else { d.year as int };
    let sign: Seq<char> = if d.year < 0 { seq!['-', '0', '0'] } else { Seq::empty() };
    sign + pad4(year_abs) + seq!['-'] + pad2(d.month as int) + seq!['-'] + pad2(d.day as int)
}

/// The value of an ASCII digit.
pub open spec fn digit_value(c: char) -> int {
    (c as int) - 48
}

/// `n` in `0..100` is two digits that read back as `n`.
proof fn lemma_pad2_reads_back(n: int)
    requires
        0 <= n < 100,
    ensures
        pad2(n).len() == 2,
        10 * digit_value(pad2(n)[0]) + digit_value(pad2(n)[1]) == n,
{
    assert(0 <= n / 10 < 10 && 0 <= n % 10 < 10);
    assert(10 * (n / 10) + n % 10 == n);
}

/// `n` in `0..10000` is four digits that read back as `n`.
proof fn lemma_pad4_reads_back(n: int)
    requires
        0 <= n < 10000,
    ensures
        pad4(n).len() == 4,
        1000 * digit_value(pad4(n)[0]) + 100 * digit_value(pad4(n)[1]) + 10 * digit_value(pad4(n)[2])
            + digit_value(pad4(n)[3]) == n,
{
    let a = n / 1000;
    let b = (n / 100) % 10;
    let c = (n / 10) % 10;
    let e = n % 10;
    assert(n == 10 * (n / 10) + e);
    assert(n / 10 == 10 * (n / 100) + c);
    assert(n / 100 == 10 * (n / 1000) + b);
    assert(0 <= a < 10 && 0 <= b < 10 && 0 <= c < 10 && 0 <= e < 10);
    assert(1000 * a + 100 * b + 10 * c + e == n);
}

/// The text of a date of a year from 0 on is `YYYY-MM-DD`, and its digits
/// read back as the date's year, month and day: the text names the date.
pub proof fn law_date_text_reads_back(d: Date)
    requires
        d.wf(),
        d.year >= 0,
    ensures
        date_text(d).len() == 10,
        date_text(d)[4] == '-',
        date_text(d)[7] == '-',
        1000 * digit_value(date_text(d)[0]) + 100 * digit_value(date_text(d)[1]) + 10 * digit_value(
            date_text(d)[2],
        ) + digit_value(date_text(d)[3]) == d.year,
        10 * digit_value(date_text(d)[5]) + digit_value(date_text(d)[6]) == d.month,
        10 * digit_value(date_text(d)[8]) + digit_value(date_text(d)[9]) == d.day,
{
    lemma_pad4_reads_back(d.year as int);
    lemma_pad2_reads_back(d.month as int);
    lemma_pad2_reads_back(d.day as int);
    let t = date_text(d);
    let y = pad4(d.year as int);
    let m = pad2(d.month as int);
    let dd = pad2(d.day as int);
    assert(t =~= y + seq!['-'] + m + seq!['-'] + dd);
    assert(t[0] == y[0] && t[1] == y[1] && t[2] == y[2] && t[3] == y[3]);
    assert(t[5] == m[0] && t[6] == m[1] && t[8] == dd[0] && t[9] == dd[1]);
}

impl Date {
    /// The date is a real day of the calendar and its year is in range.
    pub open spec fn wf(self) -> bool {
        &&& -9999 <= self.year <= 9999
        &&& 1 <= self.month <= 12
        &&& 1 <= self.day <= days_in_month(self.year as int, self.month as int)
    }

    /// The date with these parts, or `None` where they name no day of the
    /// calendar.
    pub fn new(year: i16, month: i8, day: i8) -> (r: Option<Date>)
        ensures
            r is Some <==> (Date { year, month, day }).wf(),
            r matches Some(d) ==> d == (Date { year, month, day }),
    {
        if year < -9999 || year > 9999 || month < 1 || month > 12 || day < 1 {
            return None;
        }
        let leap = if year % 25 != 0 { year % 4 == 0 } else { year % 16 == 0 };
        let last: i8 = if month == 2 {
            if leap { 29 } else { 28 }
        } else if month == 4 || month == 6 || month == 9 || month == 11 {
            30
        } else {
            31
        };
        if day > last {
            None
        } else {
            Some(Date { year, month, day })
        }
    }

    pub fn year(&self) -> (r: i16)
        ensures
            r == self.year,
    {
        self.year
    }

    pub fn month(&self) -> (r: i8)
        ensures
            r == self.month,
    {
        self.month
    }

    pub fn day(&self) -> (r: i8)
        ensures
            r == self.day,
    {
        self.day
    }

    /// Whether this date is on or before `other`.
    pub fn is_on_or_before(&self, other: &Date) -> (r: bool)
        ensures
            r == date_le(*self, *other),
            r ==> self.year <= other.year,
            (self.year == other.year && self.month < other.month) ==> r,
            (self.year == other.year && self.month > other.month) ==> !r,
    {
        self.year < other.year || (self.year == other.year && (self.month < other.month || (
        self.month == other.month && self.day <= other.day)))
    }

    /// The ISO 8601 text of this date.
    pub fn to_string(&self) -> (s: String)
        requires
            self.wf(),
        ensures
            s@ == date_text(*self),
    {
        iso_date_text(*self)
    }

    /// This date moved back by `span`, clamped to the range of dates.
    pub fn saturating_sub(&self, span: &Span) -> (r: Date)
        requires
            self.wf(),
            span.wf(),
        ensures
            r == date_minus_span(*self, *span),
            r.wf(),
            span.is_zero() ==> r == *self,
    {
        date_saturating_sub(*self, span)
    }
}

/// `jiff::civil::Date`'s `Display`: the date as `YYYY-MM-DD`, with a signed
/// six-digit year before year 0, as its printer writes it.
#[verifier::external_body]
fn iso_date_text(d: Date) -> (s: String)
    requires
        d.wf(),
    ensures
        s@ == date_text(d),
{
    jiff::civil::date(d.year, d.month, d.day).to_string()
}

/// A time of day.
#[derive(Clone, Copy, Debug, PartialEq, Eq, Structural)]
pub struct Time {
    pub hour: i8,
    pub minute: i8,
    pub second: i8,
    pub subsec_nanosecond: i32,
}

impl Time {
    pub open spec fn wf(self) -> bool {
        &&& 0 <= self.hour <= 23
        &&& 0 <= self.minute <= 59
        &&& 0 <= self.second <= 59
        &&& 0 <= self.subsec_nanosecond <= 999_999_999
    }
}

/// A civil date and time of day.
#[derive(Clone, Copy, Debug, PartialEq, Eq, Structural)]
pub struct DateTime {
    pub date: Date,
    pub time: Time,
}

impl DateTime {
    pub open spec fn wf(self) -> bool {
        self.date.wf() && self.time.wf()
    }

    /// The date part.
    pub fn date(&self) -> (r: Date)
        ensures
            r == self.date,
    {
        self.date
    }

    /// The time part.
    pub fn time(&self) -> (r: Time)
        ensures
            r == self.time,
    {
        self.time
    }
}

/// A span of calendar and clock units. All units carry the sign of the span.
#[derive(Clone, Copy, Debug, PartialEq, Eq, Structural)]
pub struct Span {
    pub years: i16,
    pub months: i32,
    pub weeks: i32,
    pub days: i32,
    pub hours: i32,
    pub minutes: i64,
    pub seconds: i64,
    pub milliseconds: i64,
    pub microseconds: i64,
    pub nanoseconds: i64,
}

impl Span {
    /// Every unit within its bounds, and no two units of opposite signs.
    pub open spec fn wf(self) -> bool {
        &&& -19_998 <= self.years <= 19_998
        &&& -239_976 <= self.months <= 239_976
        &&& -1_043_497 <= self.weeks <= 1_043_497
        &&& -7_304_484 <= self.days <= 7_304_484
        &&& -175_307_616 <= self.hours <= 175_307_616
        &&& -10_518_456_960 <= self.minutes <= 10_518_456_960
        &&& -631_107_417_600 <= self.seconds <= 631_107_417_600
        &&& -631_107_417_600_000 <= self.milliseconds <= 631_107_417_600_000
        &&& -631_107_417_600_000_000 <= self.microseconds <= 631_107_417_600_000_000
        &&& -9_223_372_036_854_775_807 <= self.nanoseconds
        &&& (self.is_non_negative() || self.is_non_positive())
    }

    pub open spec fn is_non_negative(self) -> bool {
        &&& self.years >= 0
        &&& self.months >= 0
        &&& self.weeks >= 0
        &&& self.days >= 0
        &&& self.hours >= 0
        &&& self.minutes >= 0
        &&& self.seconds >= 0
        &&& self.milliseconds >= 0
        &&& self.microseconds >= 0
        &&& self.nanoseconds >= 0
    }

    pub open spec fn is_non_positive(self) -> bool {
        &&& self.years <= 0
        &&& self.months <= 0
        &&& self.weeks <= 0
        &&& self.days <= 0
        &&& self.hours <= 0
        &&& self.minutes <= 0
        &&& self.seconds <= 0
        &&& self.milliseconds <= 0
        &&& self.microseconds <= 0
        &&& self.nanoseconds <= 0
    }

    pub open spec fn is_zero(self) -> bool {
        self.is_non_negative() && self.is_non_positive()
    }

    /// The span of `days` days.
    pub fn from_days(days: i32) -> (r: Option<Span>)
        ensures
            r is Some <==> -7_304_484 <= days <= 7_304_484,
            r matches Some(s) ==> s.wf() && s == Span::of_days(days as int),
    {
        if days < -7_304_484 || days > 7_304_484 {
            None
        } else {
            Some(
                Span {
                    years: 0,
                    months: 0,
                    weeks: 0,
                    days,
                    hours: 0,
                    minutes: 0,
                    seconds: 0,
                    milliseconds: 0,
                    microseconds: 0,
                    nanoseconds: 0,
                },
            )
        }
    }

    /// The span with every unit made non-negative.
    pub open spec fn abs_spec(self) -> Span {
        Span {
            years: abs_int(self.years as int) as i16,
            months: abs_int(self.months as int) as i32,
            weeks: abs_int(self.weeks as int) as i32,
            days: abs_int(self.days as int) as i32,
            hours: abs_int(self.hours as int) as i32,
            minutes: abs_int(self.minutes as int) as i64,
            seconds: abs_int(self.seconds as int) as i64,
            milliseconds: abs_int(self.milliseconds as int) as i64,
            microseconds: abs_int(self.microseconds as int) as i64,
            nanoseconds: abs_int(self.nanoseconds as int) as i64,
        }
    }

    /// The absolute value of the span, as `jiff::Span::abs` makes it: the
    /// same units, positive.
    pub fn abs(&self) -> (r: Span)
        requires
            self.wf(),
        ensures
            r == self.abs_spec(),
            r.wf(),
            r.is_non_negative(),
            r.years == self.years || r.years == -self.years,
            r.months == self.months || r.months == -self.months,
            r.weeks == self.weeks || r.weeks == -self.weeks,
            r.days == self.days || r.days == -self.days,
            r.hours == self.hours || r.hours == -self.hours,
            r.minutes == self.minutes || r.minutes == -self.minutes,
            r.seconds == self.seconds || r.seconds == -self.seconds,
            r.milliseconds == self.milliseconds || r.milliseconds == -self.milliseconds,
            r.microseconds == self.microseconds || r.microseconds == -self.microseconds,
            r.nanoseconds == self.nanoseconds || r.nanoseconds == -self.nanoseconds,
    {
        Span {
            years: if self.years < 0 { -self.years } else { self.years },
            months: if self.months < 0 { -self.months } else { self.months },
            weeks: if self.weeks < 0 { -self.weeks } else { self.weeks },
            days: if self.days < 0 { -self.days } else { self.days },
            hours: if self.hours < 0 { -self.hours } else { self.hours },
            minutes: if self.minutes < 0 { -self.minutes } else { self.minutes },
            seconds: if self.seconds < 0 { -self.seconds } else { self.seconds },
            milliseconds: if self.milliseconds < 0 { -self.milliseconds } else { self.milliseconds },
            microseconds: if self.microseconds < 0 { -self.microseconds } else { self.microseconds },
            nanoseconds: if self.nanoseconds < 0 { -self.nanoseconds } else { self.nanoseconds },
        }
    }

    /// The span of `days` days and no other unit.
    pub open spec fn of_days(days: int) -> Span {
        Span {
            years: 0,
            months: 0,
            weeks: 0,
            days: days as i32,
            hours: 0,
            minutes: 0,
            seconds: 0,
            milliseconds: 0,
            microseconds: 0,
            nanoseconds: 0,
        }
    }
}

/// `|x|`.
pub open spec fn abs_int(x: int) -> int {
    if x < 0 {
        -x
    } else {
        x
    }
}

/// The date that `jiff::civil::Date::saturating_sub` gives for a date and a
/// span.
pub uninterp spec fn date_minus_span(date: Date, span: Span) -> Date;

/// `jiff::civil::Date::saturating_sub` with a `jiff::Span` of the same units:
/// its result is named by `date_minus_span`; every `jiff` date is in range;
/// a zero span leaves the date as it is (`checked_add_span` returns the date
/// itself for a zero span). What the span does to other dates is left to the
/// name.
#[verifier::external_body]
fn date_saturating_sub(date: Date, span: &Span) -> (r: Date)
    requires
        date.wf(),
        span.wf(),
    ensures
        r == date_minus_span(date, *span),
        r.wf(),
        span.is_zero() ==> r == date,
{
    let d = jiff::civil::date(date.year, date.month, date.day);
    let s = jiff::Span::new().years(span.years).months(span.months).weeks(span.weeks).days(
        span.days,
    ).hours(span.hours).minutes(span.minutes).seconds(span.seconds).milliseconds(
        span.milliseconds,
    ).microseconds(span.microseconds).nanoseconds(span.nanoseconds);
    let r = d.saturating_sub(s);
    Date { year: r.year(), month: r.month(), day: r.day() }
}

/// The date that `jiff::civil::Date`'s `FromStr` reads from a text, or
/// `None` where it reads none.
pub uninterp spec fn parsed_date(s: Seq<char>) -> Option<Date>;

/// The span that `jiff::Span`'s `FromStr` reads from a text (ISO 8601 or the
/// friendly format, such as `3 days ago`), or `None` where it reads none.
pub uninterp spec fn parsed_span(s: Seq<char>) -> Option<Span>;

/// The date that `jiff::civil::Date::checked_sub` gives for a date and a
/// span, or `None` where it reports an error.
pub uninterp spec fn date_minus_span_checked(d: Date, s: Span) -> Option<Date>;

impl Date {
    /// The date that `s` denotes, as `jiff` reads it.
    pub fn parse(s: &str) -> (r: Option<Date>)
        ensures
            r == parsed_date(s@),
            r matches Some(d) ==> d.wf(),
    {
        parse_civil_date(s)
    }

    /// This date moved back by `span`, or `None` where that leaves the range
    /// of dates.
    pub fn checked_sub(&self, span: &Span) -> (r: Option<Date>)
        requires
            self.wf(),
            span.wf(),
        ensures
            r == date_minus_span_checked(*self, *span),
            r matches Some(d) ==> d.wf(),
    {
        date_checked_sub(*self, span)
    }
}

impl Span {
    /// The span that `s` denotes, as `jiff` reads it.
    pub fn parse(s: &str) -> (r: Option<Span>)
        ensures
            r == parsed_span(s@),
            r matches Some(sp) ==> sp.wf(),
    {
        parse_span_text(s)
    }
}

/// `jiff::civil::Date`'s `FromStr`: the result is named by `parsed_date`;
/// every `jiff` date is in range.
#[verifier::external_body]
fn parse_civil_date(s: &str) -> (r: Option<Date>)
    ensures
        r == parsed_date(s@),
        r matches Some(d) ==> d.wf(),
{
    match s.parse::<jiff::civil::Date>() {
        Ok(d) => Some(Date { year: d.year(), month: d.month(), day: d.day() }),
        Err(_) => None,
    }
}

/// `jiff::Span`'s `FromStr`: the result is named by `parsed_span`; the
/// getters of a `jiff` span give every unit within its bounds, with the sign
/// of the span.
#[verifier::external_body]
fn parse_span_text(s: &str) -> (r: Option<Span>)
    ensures
        r == parsed_span(s@),
        r matches Some(sp) ==> sp.wf(),
{
    match s.parse::<jiff::Span>() {
        Ok(x) => Some(Span { years: x.get_years(), months: x.get_months(), weeks: x.get_weeks(),
            days: x.get_days(), hours: x.get_hours(), minutes: x.get_minutes(),
            seconds: x.get_seconds(), milliseconds: x.get_milliseconds(),
            microseconds: x.get_microseconds(), nanoseconds: x.get_nanoseconds() }),
        Err(_) => None,
    }
}

/// `jiff::civil::Date::checked_sub` with a `jiff::Span` of the same units:
/// the result is named by `date_minus_span_checked`; every `jiff` date is in
/// range.
#[verifier::external_body]
fn date_checked_sub(date: Date, span: &Span) -> (r: Option<Date>)
    requires
        date.wf(),
        span.wf(),
    ensures
        r == date_minus_span_checked(date, *span),
        r matches Some(d) ==> d.wf(),
{
    let d = jiff::civil::date(date.year, date.month, date.day);
    let s = jiff::Span::new().years(span.years).months(span.months).weeks(span.weeks).days(
        span.days,
    ).hours(span.hours).minutes(span.minutes).seconds(span.seconds).milliseconds(
        span.milliseconds,
    ).microseconds(span.microseconds).nanoseconds(span.nanoseconds);
    match d.checked_sub(s) {
        Ok(r) => Some(Date { year: r.year(), month: r.month(), day: r.day() }),
        Err(_) => None,
    }
}

} // verus!
