//! Currencies, amounts of money in a currency, and exchange rates between
//! two currencies.

use crate::date::Date;
use crate::decimal::{decimal_product, decimal_quotient, decimal_text, display_fits, Decimal};
use std::marker::PhantomData;
use vstd::prelude::*;

verus! {

/// The precision with which amounts and rates are printed when none is given.
pub const DEFAULT_PRECISION: usize = 4;

/// A currency identified by a static label.
pub trait Currency {
    /// The label's text.
    spec fn label_spec() -> Seq<char>;

    /// The currency's label, such as `EUR`.
    fn label() -> (r: &'static str)
        ensures
            r@ == Self::label_spec(),
    ;
}

/// The euro (EUR).
#[derive(Copy, Clone, Eq, PartialEq, Ord, PartialOrd, Hash, Debug)]
pub struct Eur;

impl Currency for Eur {
    open spec fn label_spec() -> Seq<char> {
        seq!['E', 'U', 'R']
    }

    fn label() -> (r: &'static str) {
        let r = "EUR";
        proof {
            reveal_strlit("EUR");
        }
        r
    }
}

/// The US dollar (USD).
#[derive(Copy, Clone, Eq, PartialEq, Ord, PartialOrd, Hash, Debug)]
pub struct Usd;

impl Currency for Usd {
    open spec fn label_spec() -> Seq<char> {
        seq!['U', 'S', 'D']
    }

    fn label() -> (r: &'static str) {
        let r = "USD";
        proof {
            reveal_strlit("USD");
        }
        r
    }
}

/// The text of `value` printed with `precision` fractional digits, a space
/// and the label of the currency `C`.
pub open spec fn amount_text<C: Currency>(value: Decimal, precision: nat) -> Seq<char> {
    decimal_text(value, precision) + seq![' '] + C::label_spec()
}

/// The text `B/Q = value`, the value printed with `precision` fractional
/// digits.
pub open spec fn rate_text<B: Currency, Q: Currency>(value: Decimal, precision: nat) -> Seq<char> {
    B::label_spec() + seq!['/'] + Q::label_spec() + seq![' ', '=', ' '] + decimal_text(
        value,
        precision,
    )
}

/// The precision that printing uses: the one asked for, or the default.
pub open spec fn effective_precision(precision: Option<usize>) -> nat {
    match precision {
        Some(p) => p as nat,
        None => DEFAULT_PRECISION as nat,
    }
}

/// A monetary amount in the currency `C`. Two amounts are equal where their
/// values denote the same number.
#[derive(Debug, PartialEq, Eq)]
pub struct Amount<C> {
    value: Decimal,
    _phantom: PhantomData<C>,
}

impl<C> View for Amount<C> {
    type V = Decimal;

    closed spec fn view(&self) -> Decimal {
        self.value
    }
}

impl<C> Clone for Amount<C> {
    fn clone(&self) -> (r: Self)
        ensures
            r@ == self@,
    {
        Amount { value: self.value, _phantom: PhantomData }
    }
}

impl<C> Copy for Amount<C> {}

impl<C> Amount<C> {
    /// The amount `value` in `C`.
    pub fn new(value: Decimal) -> (r: Self)
        ensures
            r@ == value,
    {
        Amount { value, _phantom: PhantomData }
    }

    /// The number of units of `C`.
    pub fn value(&self) -> (r: Decimal)
        ensures
            r == self@,
    {
        self.value
    }

    /// Converts this amount using the given exchange rate: the amount times
    /// the rate, in the rate's quote currency.
    pub fn convert<D>(self, rate: &Rate<C, D>) -> (r: Amount<D>)
        requires
            self@.wf(),
            rate@.1.wf(),
            decimal_product(self@, rate@.1) is Some,
        ensures
            r@ == decimal_product(self@, rate@.1)->0,
            r@.wf(),
            self@.mantissa == 0 ==> r@ == Decimal::zero(),
    {
        let product = self.value.checked_mul(&rate.value);
        match product {
            Some(p) => Amount::new(p),
            None => {
                proof {
                    assert(false);
                }
                Amount::new(self.value)
            },
        }
    }

    /// Converts this amount using the given exchange rate, or `None` where
    /// the product overflows.
    pub fn checked_convert<D>(self, rate: &Rate<C, D>) -> (r: Option<Amount<D>>)
        requires
            self@.wf(),
            rate@.1.wf(),
        ensures
            r is Some <==> decimal_product(self@, rate@.1) is Some,
            r matches Some(a) ==> a@ == decimal_product(self@, rate@.1)->0 && a@.wf(),
            self@.mantissa == 0 ==> (r matches Some(a) && a@ == Decimal::zero()),
    {
        match self.value.checked_mul(&rate.value) {
            Some(_) => Some(self.convert(rate)),
            None => None,
        }
    }
}

impl<C: Currency> Amount<C> {
    /// The amount printed as `value LABEL`, with `precision` fractional
    /// digits, four where none is given.
    pub fn to_string_with(&self, precision: Option<usize>) -> (s: String)
        requires
            self@.wf(),
            display_fits(self@, effective_precision(precision)),
        ensures
            s@ == amount_text::<C>(self@, effective_precision(precision)),
    {
        let p = match precision {
            Some(p) => p,
            None => DEFAULT_PRECISION,
        };
        let mut s = self.value.to_string_with_precision(p);
        s.append(" ");
        s.append(C::label());
        proof {
            reveal_strlit(" ");
        }
        s
    }

    /// The amount printed with the default precision.
    pub fn to_string(&self) -> (s: String)
        requires
            self@.wf(),
            display_fits(self@, DEFAULT_PRECISION as nat),
        ensures
            s@ == amount_text::<C>(self@, DEFAULT_PRECISION as nat),
    {
        self.to_string_with(None)
    }
}

impl<C> From<Decimal> for Amount<C> {
    fn from(value: Decimal) -> (r: Self) {
        Amount::new(value)
    }
}

impl<C> vstd::std_specs::convert::FromSpecImpl<Decimal> for Amount<C> {
    open spec fn obeys_from_spec() -> bool {
        true
    }

    closed spec fn from_spec(v: Decimal) -> Self {
        Amount { value: v, _phantom: PhantomData }
    }
}

/// Wrapping a number into an amount and taking it out again gives the
/// number back, and an amount made from a number holds that number.
pub proof fn law_amount_from_decimal<C>(d: Decimal)
    ensures
        <Amount<C> as vstd::std_specs::convert::FromSpec<Decimal>>::from_spec(d)@ == d,
        <Decimal as vstd::std_specs::convert::FromSpec<Amount<C>>>::from_spec(
            <Amount<C> as vstd::std_specs::convert::FromSpec<Decimal>>::from_spec(d),
        ) == d,
{
}

impl<C> From<Amount<C>> for Decimal {
    fn from(amount: Amount<C>) -> (r: Self) {
        amount.value
    }
}

impl<C> vstd::std_specs::convert::FromSpecImpl<Amount<C>> for Decimal {
    open spec fn obeys_from_spec() -> bool {
        true
    }

    open spec fn from_spec(v: Amount<C>) -> Self {
        v@
    }
}

/// An exchange rate from the base currency `B` to the quote currency `Q`,
/// observed on a given date. Two rates are equal where their dates are and
/// their values denote the same number.
#[derive(Debug, PartialEq, Eq)]
pub struct Rate<B, Q> {
    date: Date,
    value: Decimal,
    _phantom: PhantomData<(B, Q)>,
}

impl<B, Q> View for Rate<B, Q> {
    type V = (Date, Decimal);

    closed spec fn view(&self) -> (Date, Decimal) {
        (self.date, self.value)
    }
}

impl<B, Q> Clone for Rate<B, Q> {
    fn clone(&self) -> (r: Self)
        ensures
            r@ == self@,
    {
        Rate { date: self.date, value: self.value, _phantom: PhantomData }
    }
}

impl<B, Q> Rate<B, Q> {
    /// The rate `value` observed on `date`.
    pub fn new(date: Date, value: Decimal) -> (r: Self)
        ensures
            r@ == (date, value),
    {
        Rate { date, value, _phantom: PhantomData }
    }

    pub fn date(&self) -> (r: Date)
        ensures
            r == self@.0,
    {
        self.date
    }

    pub fn value(&self) -> (r: Decimal)
        ensures
            r == self@.1,
    {
        self.value
    }

    /// Returns the inverse rate (e.g. EUR/USD -> USD/EUR): one divided by
    /// this rate, on the same date.
    pub fn invert(&self) -> (r: Rate<Q, B>)
        requires
            self@.1.wf(),
            decimal_quotient(Decimal::one_spec(), self@.1) is Some,
        ensures
            r@ == (self@.0, decimal_quotient(Decimal::one_spec(), self@.1)->0),
            r@.1.wf(),
    {
        let one = Decimal::one();
        match one.checked_div(&self.value) {
            Some(q) => Rate::new(self.date, q),
            None => {
                proof {
                    assert(false);
                }
                Rate::new(self.date, self.value)
            },
        }
    }

    /// The inverse rate, or `None` where this rate is zero or one divided by
    /// it overflows.
    pub fn checked_invert(&self) -> (r: Option<Rate<Q, B>>)
        requires
            self@.1.wf(),
        ensures
            r is Some <==> decimal_quotient(Decimal::one_spec(), self@.1) is Some,
            r matches Some(x) ==> x@ == (self@.0, decimal_quotient(Decimal::one_spec(), self@.1)->0)
                && x@.1.wf(),
            self@.1.mantissa == 0 ==> r is None,
    {
        let one = Decimal::one();
        match one.checked_div(&self.value) {
            Some(_) => Some(self.invert()),
            None => None,
        }
    }
}

impl<B: Currency, Q: Currency> Rate<B, Q> {
    /// The rate printed as `B/Q = value`, with `precision` fractional
    /// digits, four where none is given.
    pub fn to_string_with(&self, precision: Option<usize>) -> (s: String)
        requires
            self@.1.wf(),
            display_fits(self@.1, effective_precision(precision)),
        ensures
            s@ == rate_text::<B, Q>(self@.1, effective_precision(precision)),
    {
        let p = match precision {
            Some(p) => p,
            None => DEFAULT_PRECISION,
        };
        let mut s = String::from_str(B::label());
        s.append("/");
        s.append(Q::label());
        s.append(" = ");
        let v = self.value.to_string_with_precision(p);
        s.append(v.as_str());
        proof {
            reveal_strlit("/");
            reveal_strlit(" = ");
        }
        s
    }

    /// The rate printed with the default precision.
    pub fn to_string(&self) -> (s: String)
        requires
            self@.1.wf(),
            display_fits(self@.1, DEFAULT_PRECISION as nat),
        ensures
            s@ == rate_text::<B, Q>(self@.1, DEFAULT_PRECISION as nat),
    {
        self.to_string_with(None)
    }
}

} // verus!
