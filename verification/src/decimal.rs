//! Fixed-point decimal numbers as `rust_decimal` holds them: a mantissa of at
//! most 96 bits and a power-of-ten scale of at most 28. The arithmetic and
//! the printing are `rust_decimal`'s.

use crate::date::digit;
use vstd::prelude::*;

verus! {

/// The largest magnitude of a mantissa, `2^96 - 1`.
pub const MAX_MANTISSA: i128 = 79_228_162_514_264_337_593_543_950_335;

/// The largest scale.
pub const MAX_SCALE: u32 = 28;

/// The capacity of the buffer in which `rust_decimal` writes the digits of a
/// number for `Display`.
pub const DISPLAY_BUFFER: usize = 32;

/// The number `mantissa / 10^scale`, with the sign bit that `rust_decimal`
/// keeps: `negative` follows the mantissa's sign, and marks a negative zero
/// where the mantissa is zero.
#[derive(Clone, Copy, Debug)]
pub struct Decimal {
    pub mantissa: i128,
    pub scale: u32,
    pub negative: bool,
}

/// `10^n`.
pub open spec fn pow10(n: nat) -> nat
    decreases n,
{
    if n == 0 {
        1
    } else {
        10 * pow10((n - 1) as nat)
    }
}

/// `a` and `b` denote the same number, whatever their scales and signs of
/// zero.
pub open spec fn same_value(a: Decimal, b: Decimal) -> bool {
    a.mantissa * pow10(b.scale as nat) == b.mantissa * pow10(a.scale as nat)
}

/// The decimal digits of `n`, most significant first; none for zero.
pub open spec fn digits_of(n: nat) -> Seq<char>
    decreases n,
{
    if n == 0 {
        Seq::empty()
    } else {
        digits_of(n / 10).push(digit((n % 10) as int))
    }
}

/// `n` zeros.
pub open spec fn zeros(n: nat) -> Seq<char> {
    Seq::new(n, |i: int| '0')
}

/// The text that `rust_decimal` writes for `d` with `precision` fractional
/// digits: a `-` where the sign bit is set, the whole digits (`0` where there
/// are none), and for a positive precision a point and the fraction,
/// truncated or padded with zeros; of the fraction it writes at most 28
/// digits itself and pads the rest with zeros.
pub open spec fn decimal_text(d: Decimal, precision: nat) -> Seq<char> {
    let ds = digits_of(magnitude(d.mantissa as int));
    let s = d.scale as nat;
    let padded = if ds.len() >= s { ds } else { zeros((s - ds.len()) as nat) + ds };
    let whole = padded.take(padded.len() - s);
    let fraction = padded.skip(padded.len() - s);
    let p: nat = if precision > 28 { 28 } else { precision };
    let shown = if p <= s { fraction.take(p as int) } else { fraction + zeros((p - s) as nat) };
    let extra = if precision > 28 { zeros((precision - 28) as nat) } else { Seq::empty() };
    let sign = if d.negative { seq!['-'] } else { Seq::empty() };
    let whole_text = if whole.len() == 0 { seq!['0'] } else { whole };
    let tail = if p > 0 { seq!['.'] + shown + extra } else { Seq::empty() };
    sign + whole_text + tail
}

/// The number of decimal digits of `n`, none for zero.
pub open spec fn digit_count(n: nat) -> nat
    decreases n,
{
    if n == 0 {
        0
    } else {
        1 + digit_count(n / 10)
    }
}

/// `|m|`.
pub open spec fn magnitude(m: int) -> nat {
    if m < 0 {
        (-m) as nat
    } else {
        m as nat
    }
}

/// The number of characters that `rust_decimal` writes into its buffer when
/// it prints `d` with `precision` fractional digits: the whole digits (at
/// least one), and for a positive precision the point and the fractional
/// digits, of which it writes at most 28 (it pads further zeros outside the
/// buffer).
pub open spec fn display_len(d: Decimal, precision: nat) -> nat {
    let digits = digit_count(magnitude(d.mantissa as int));
    let chars: nat = if digits >= d.scale { digits } else { d.scale as nat };
    let whole: nat = (chars - d.scale) as nat;
    let p: nat = if precision > 28 { 28 } else { precision };
    if p > 0 {
        whole + p + 1 + (if whole == 0 { 1nat } else { 0nat })
    } else if whole == 0 {
        1
    } else {
        whole
    }
}

/// `rust_decimal` prints `d` with `precision` fractional digits without
/// overrunning its buffer, and the precision is one that `format!` takes
/// (at most `u16::MAX`).
pub open spec fn display_fits(d: Decimal, precision: nat) -> bool {
    &&& precision <= u16::MAX
    &&& display_len(d, precision) <= DISPLAY_BUFFER
}

impl Decimal {
    /// The mantissa fits in 96 bits, the scale is at most 28, and the sign
    /// bit agrees with a non-zero mantissa.
    pub open spec fn wf(self) -> bool {
        &&& -MAX_MANTISSA <= self.mantissa <= MAX_MANTISSA
        &&& self.scale <= MAX_SCALE
        &&& self.mantissa < 0 ==> self.negative
        &&& self.mantissa > 0 ==> !self.negative
    }

    /// Zero, as `rust_decimal` writes it: mantissa 0, scale 0, no sign.
    pub open spec fn zero() -> Decimal {
        Decimal { mantissa: 0, scale: 0, negative: false }
    }

    /// The number 1, mantissa 1 and scale 0.
    pub open spec fn one_spec() -> Decimal {
        Decimal { mantissa: 1, scale: 0, negative: false }
    }

    /// `num / 10^scale`, negative where `num` is.
    pub open spec fn of(num: int, scale: int) -> Decimal {
        Decimal { mantissa: num as i128, scale: scale as u32, negative: num < 0 }
    }

    /// The number 1.
    pub fn one() -> (r: Decimal)
        ensures
            r == Decimal::one_spec(),
            r.wf(),
    {
        Decimal { mantissa: 1, scale: 0, negative: false }
    }

    /// `num / 10^scale`, or `None` where the mantissa needs more than 96
    /// bits or the scale is above 28.
    pub fn try_from_i128_with_scale(num: i128, scale: u32) -> (r: Option<Decimal>)
        ensures
            r is Some <==> (-MAX_MANTISSA <= num <= MAX_MANTISSA && scale <= MAX_SCALE),
            r matches Some(d) ==> d == Decimal::of(num as int, scale as int) && d.wf(),
    {
        if scale > MAX_SCALE || num > MAX_MANTISSA || num < -MAX_MANTISSA {
            None
        } else {
            Some(Decimal { mantissa: num, scale, negative: num < 0 })
        }
    }

    /// `num / 10^scale` for a 64-bit mantissa.
    pub fn new(num: i64, scale: u32) -> (r: Decimal)
        requires
            scale <= MAX_SCALE,
        ensures
            r == Decimal::of(num as int, scale as int),
            r.wf(),
    {
        Decimal { mantissa: num as i128, scale, negative: num < 0 }
    }

    pub fn is_sign_negative(&self) -> (r: bool)
        ensures
            r == self.negative,
    {
        self.negative
    }

    pub fn mantissa(&self) -> (r: i128)
        ensures
            r == self.mantissa,
    {
        self.mantissa
    }

    pub fn scale(&self) -> (r: u32)
        ensures
            r == self.scale,
    {
        self.scale
    }

    pub fn is_zero(&self) -> (r: bool)
        ensures
            r == (self.mantissa == 0),
    {
        self.mantissa == 0
    }

    /// The product, or `None` where `rust_decimal` reports an overflow.
    pub fn checked_mul(&self, other: &Decimal) -> (r: Option<Decimal>)
        requires
            self.wf(),
            other.wf(),
        ensures
            r == decimal_product(*self, *other),
            r matches Some(p) ==> p.wf(),
            (self.mantissa == 0 || other.mantissa == 0) ==> r == Some(Decimal::zero()),
    {
        checked_mul_decimal(*self, *other)
    }

    /// The quotient, or `None` for a zero divisor or where `rust_decimal`
    /// reports an overflow.
    pub fn checked_div(&self, other: &Decimal) -> (r: Option<Decimal>)
        requires
            self.wf(),
            other.wf(),
        ensures
            r == decimal_quotient(*self, *other),
            r matches Some(q) ==> q.wf(),
            other.mantissa == 0 ==> r is None,
            (self.mantissa == 0 && other.mantissa != 0) ==> r == Some(Decimal::zero()),
    {
        checked_div_decimal(*self, *other)
    }

    /// Whether printing this number with `precision` fractional digits stays
    /// within `rust_decimal`'s buffer.
    pub fn display_fits(&self, precision: usize) -> (r: bool)
        requires
            self.wf(),
        ensures
            r == display_fits(*self, precision as nat),
    {
        let mut n: u128 = if self.mantissa < 0 {
            (0 - self.mantissa) as u128
        } else {
            self.mantissa as u128
        };
        let ghost start: nat = n as nat;
        proof { lemma_digit_count_bound(start) }
        let mut digits: u32 = 0;
        while n > 0
            invariant
                digit_count(start) == digits + digit_count(n as nat),
                digit_count(start) <= 29,
                n <= 79_228_162_514_264_337_593_543_950_335,
            decreases n,
        {
            assert(digit_count(n as nat) == 1 + digit_count((n / 10) as nat));
            n = n / 10;
            digits = digits + 1;
        }
        let chars: u32 = if digits >= self.scale { digits } else { self.scale };
        let whole: u32 = chars - self.scale;
        let p: u32 = if precision > 28 { 28 } else { precision as u32 };
        let len: u32 = if p > 0 {
            whole + p + 1 + (if whole == 0 { 1u32 } else { 0u32 })
        } else if whole == 0 {
            1
        } else {
            whole
        };
        precision <= 65535 && len <= 32
    }

    /// The number printed with `precision` fractional digits, as
    /// `rust_decimal` prints it: truncated, not rounded, and padded with
    /// zeros.
    pub fn to_string_with_precision(&self, precision: usize) -> (s: String)
        requires
            self.wf(),
            display_fits(*self, precision as nat),
        ensures
            s@ == decimal_text(*self, precision as nat),
    {
        decimal_to_text(*self, precision)
    }
}

/// A number of at most 96 bits has at most 29 digits.
proof fn lemma_digit_count_bound(n: nat)
    requires
        n <= 79_228_162_514_264_337_593_543_950_335,
    ensures
        digit_count(n) <= 29,
{
    reveal_with_fuel(digit_count, 30);
}

/// The product that `rust_decimal::Decimal::checked_mul` gives.
pub uninterp spec fn decimal_product(a: Decimal, b: Decimal) -> Option<Decimal>;

/// The quotient that `rust_decimal::Decimal::checked_div` gives.
pub uninterp spec fn decimal_quotient(a: Decimal, b: Decimal) -> Option<Decimal>;

/// `rust_decimal::Decimal::checked_mul`: its result is named by
/// `decimal_product`; every `rust_decimal` value fits 96 bits and scale 28;
/// `mul_impl` returns zero (mantissa 0, scale 0) when a factor is zero.
#[verifier::external_body]
fn checked_mul_decimal(a: Decimal, b: Decimal) -> (r: Option<Decimal>)
    requires
        a.wf(),
        b.wf(),
    ensures
        r == decimal_product(a, b),
        r matches Some(p) ==> p.wf(),
        (a.mantissa == 0 || b.mantissa == 0) ==> r == Some(Decimal::zero()),
{
    let mut x = rust_decimal::Decimal::from_i128_with_scale(a.mantissa, a.scale);
    x.set_sign_negative(a.negative);
    let mut y = rust_decimal::Decimal::from_i128_with_scale(b.mantissa, b.scale);
    y.set_sign_negative(b.negative);
    match x.checked_mul(y) {
        Some(p) => Some(Decimal { mantissa: p.mantissa(), scale: p.scale(), negative: p.is_sign_negative() }),
        None => None,
    }
}

/// `rust_decimal::Decimal::checked_div`: its result is named by
/// `decimal_quotient`; `div_impl` refuses a zero divisor and returns zero
/// (mantissa 0, scale 0) for a zero dividend.
#[verifier::external_body]
fn checked_div_decimal(a: Decimal, b: Decimal) -> (r: Option<Decimal>)
    requires
        a.wf(),
        b.wf(),
    ensures
        r == decimal_quotient(a, b),
        r matches Some(q) ==> q.wf(),
        b.mantissa == 0 ==> r is None,
        (a.mantissa == 0 && b.mantissa != 0) ==> r == Some(Decimal::zero()),
{
    let mut x = rust_decimal::Decimal::from_i128_with_scale(a.mantissa, a.scale);
    x.set_sign_negative(a.negative);
    let mut y = rust_decimal::Decimal::from_i128_with_scale(b.mantissa, b.scale);
    y.set_sign_negative(b.negative);
    match x.checked_div(y) {
        Some(q) => Some(Decimal { mantissa: q.mantissa(), scale: q.scale(), negative: q.is_sign_negative() }),
        None => None,
    }
}

/// `rust_decimal::Decimal`'s `Display` with a precision (`{:.p$}`): the text
/// is `decimal_text`, as `to_str_internal` writes it and `pad_integral` signs
/// it. The caller keeps the digits within the 32-character buffer that
/// `to_str_internal` fills, which panics beyond it.
#[verifier::external_body]
fn decimal_to_text(d: Decimal, precision: usize) -> (s: String)
    requires
        d.wf(),
        display_fits(d, precision as nat),
    ensures
        s@ == decimal_text(d, precision as nat),
{
    let mut x = rust_decimal::Decimal::from_i128_with_scale(d.mantissa, d.scale);
    x.set_sign_negative(d.negative);
    format!("{:.p$}", x, p = precision)
}

/// A number below `10^k` has at most `k` digits, and one at least `10^k` has
/// more than `k`.
pub proof fn lemma_digit_count_pow10(n: nat, k: nat)
    ensures
        n < pow10(k) ==> digit_count(n) <= k,
        n >= pow10(k) ==> digit_count(n) > k,
    decreases k,
{
    if k > 0 {
        lemma_digit_count_pow10(n / 10, (k - 1) as nat);
        assert(pow10(k) == 10 * pow10((k - 1) as nat));
        let q = pow10((k - 1) as nat);
        assert(n < 10 * q ==> n / 10 < q) by (nonlinear_arith);
        assert(n >= 10 * q ==> n / 10 >= q) by (nonlinear_arith);
        if n > 0 {
            assert(digit_count(n) == 1 + digit_count(n / 10));
        } else {
            lemma_pow10_positive((k - 1) as nat);
        }
    } else {
        assert(pow10(0) == 1);
        if n >= 1 {
            assert(digit_count(n) == 1 + digit_count(n / 10));
        }
    }
}

/// Whether a number prints depends on its whole digits, not on its scale:
/// a number `d` below `10^w` in magnitude (its mantissa below `10^(w +
/// scale)`) prints with `p <= 28` fractional digits when `w` whole digits, a
/// point, a leading `0` and `p` digits fit the 32-character buffer; in
/// particular every number below `10^26` prints with four. One with at least
/// `w + 1` whole digits does not print where `w + 1`, a point and `p` digits
/// overrun the buffer.
pub proof fn law_display_fits_by_whole_digits(d: Decimal, w: nat, p: nat)
    requires
        d.wf(),
        1 <= p <= 28,
    ensures
        magnitude(d.mantissa as int) < pow10(w + d.scale as nat) && w + p + 2 <= 32 ==> display_fits(d, p),
        magnitude(d.mantissa as int) >= pow10(w + d.scale as nat) && w + 1 + p + 1 > 32 ==> !display_fits(
            d,
            p,
        ),
{
    lemma_digit_count_pow10(magnitude(d.mantissa as int), w + d.scale as nat);
}

/// Every number below `10^26` in magnitude prints with four fractional
/// digits, however many fractional digits it carries.
pub proof fn law_display_fits_default(d: Decimal)
    requires
        d.wf(),
        magnitude(d.mantissa as int) < pow10(26 + d.scale as nat),
    ensures
        display_fits(d, 4),
{
    law_display_fits_by_whole_digits(d, 26, 4);
}

/// `10^n` is positive.
proof fn lemma_pow10_positive(n: nat)
    ensures
        pow10(n) >= 1,
        n >= 1 ==> pow10(n) >= 10,
    decreases n,
{
    if n > 0 {
        lemma_pow10_positive((n - 1) as nat);
    }
}

/// `10^(a + b) == 10^a * 10^b`.
proof fn lemma_pow10_add(a: nat, b: nat)
    ensures
        pow10(a + b) == pow10(a) * pow10(b),
    decreases b,
{
    if b > 0 {
        lemma_pow10_add(a, (b - 1) as nat);
        let x = pow10(a);
        let y = pow10((b - 1) as nat);
        let c = pow10((a + b - 1) as nat);
        assert(a + (b - 1) as nat == (a + b - 1) as nat);
        assert(c == x * y);
        assert(pow10(a + b) == 10 * c);
        assert(pow10(b) == 10 * y);
        assert(10 * (x * y) == x * (10 * y)) by (nonlinear_arith);
    } else {
        assert(pow10(0) == 1);
        assert(a + b == a);
        assert(pow10(a) * 1 == pow10(a)) by (nonlinear_arith);
    }
}

/// Where `a`'s scale is the smaller, `a` and `b` are equal exactly when `a`'s
/// mantissa shifted by the difference of the scales is `b`'s.
proof fn lemma_same_value_shifted(a: Decimal, b: Decimal)
    requires
        a.scale <= b.scale,
    ensures
        same_value(a, b) <==> a.mantissa * pow10((b.scale - a.scale) as nat) == b.mantissa,
{
    let k = (b.scale - a.scale) as nat;
    let p = pow10(a.scale as nat);
    let q = pow10(k);
    lemma_pow10_add(a.scale as nat, k);
    lemma_pow10_positive(a.scale as nat);
    assert(pow10(b.scale as nat) == p * q);
    let m = a.mantissa as int;
    let n = b.mantissa as int;
    assert(m * (p * q) == (m * q) * p) by (nonlinear_arith);
    assert(((m * q) * p == n * p) <==> (m * q == n)) by (nonlinear_arith)
        requires
            p >= 1,
    ;
}

/// `|m|` as a `u128`.
fn magnitude_u128(m: i128) -> (r: u128)
    ensures
        r == magnitude(m as int),
{
    if m < 0 {
        ((0 - (m + 1)) as u128) + 1
    } else {
        m as u128
    }
}

/// Whether `a` and `b` denote the same number.
fn numerically_equal(a: &Decimal, b: &Decimal) -> (r: bool)
    ensures
        r == same_value(*a, *b),
{
    let ghost pa = pow10(a.scale as nat);
    let ghost pb = pow10(b.scale as nat);
    proof {
        lemma_pow10_positive(a.scale as nat);
        lemma_pow10_positive(b.scale as nat);
    }
    if a.mantissa == 0 || b.mantissa == 0 {
        proof {
            let m = a.mantissa as int;
            let n = b.mantissa as int;
            assert((m * pb == n * pa) <==> (m == 0 && n == 0)) by (nonlinear_arith)
                requires
                    pa >= 1,
                    pb >= 1,
                    m == 0 || n == 0,
            ;
        }
        return a.mantissa == 0 && b.mantissa == 0;
    }
    if (a.mantissa < 0) != (b.mantissa < 0) {
        proof {
            let m = a.mantissa as int;
            let n = b.mantissa as int;
            assert(m * pb != n * pa) by (nonlinear_arith)
                requires
                    pa >= 1,
                    pb >= 1,
                    m != 0,
                    n != 0,
                    (m < 0) != (n < 0),
            ;
        }
        return false;
    }
    let (x, y) = if a.scale <= b.scale {
        (a, b)
    } else {
        (b, a)
    };
    proof {
        lemma_same_value_shifted(*x, *y);
    }
    let ux = magnitude_u128(x.mantissa);
    let uy = magnitude_u128(y.mantissa);
    let k = y.scale - x.scale;
    let ghost q = pow10(k as nat);
    proof {
        let m = x.mantissa as int;
        let n = y.mantissa as int;
        assert((m * q == n) <==> (ux * q == uy)) by (nonlinear_arith)
            requires
                (m < 0) == (n < 0),
                m < 0 ==> ux == -m && uy == -n,
                m >= 0 ==> ux == m && uy == n,
        ;
    }
    let mut v: u128 = ux;
    let mut i: u32 = 0;
    assert(ux * pow10(0) == ux) by (nonlinear_arith)
        requires
            pow10(0) == 1,
    ;
    while i < k
        invariant
            i <= k,
            k == y.scale - x.scale,
            q == pow10(k as nat),
            v == ux * pow10(i as nat),
            same_value(*a, *b) <==> (ux * q == uy),
            uy <= 170_141_183_460_469_231_731_687_303_715_884_105_728,
        decreases k - i,
    {
        if v > uy / 10 {
            proof {
                let rest = (k - i) as nat;
                lemma_pow10_add(i as nat, rest);
                lemma_pow10_positive(rest);
                let pi = pow10(i as nat);
                let pr = pow10(rest);
                assert(i as nat + rest == k as nat);
                assert(q == pi * pr);
                assert(ux * (pi * pr) == v * pr) by (nonlinear_arith)
                    requires
                        v == ux * pi,
                ;
                assert(v * pr > uy) by (nonlinear_arith)
                    requires
                        v > uy / 10,
                        pr >= 10,
                ;
                assert(ux * q != uy);
            }
            return false;
        }
        proof {
            let pi = pow10(i as nat);
            assert(pow10((i + 1) as nat) == 10 * pi);
            assert(ux * (10 * pi) == (ux * pi) * 10) by (nonlinear_arith);
        }
        v = v * 10;
        i = i + 1;
    }
    v == uy
}

impl PartialEq for Decimal {
    fn eq(&self, other: &Decimal) -> (r: bool) {
        numerically_equal(self, other)
    }
}

impl vstd::std_specs::cmp::PartialEqSpecImpl for Decimal {
    open spec fn obeys_eq_spec() -> bool {
        true
    }

    open spec fn eq_spec(&self, other: &Decimal) -> bool {
        same_value(*self, *other)
    }
}

impl Eq for Decimal {}

} // verus!
