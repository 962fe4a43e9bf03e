//! Fixed-point prices, quantities and amounts, as the trading engine holds them: a whole number of
//! units of ten to the minus sixteen, with a precision that it is rounded to.

use nautilus_model::types::{Currency, Money, Price, Quantity};
use rust_decimal::Decimal;
use vstd::arithmetic::power::lemma_pow_positive;
use vstd::prelude::*;

use crate::decimal::{
    aligned, common_places, difference_in_range, difference_value, half_even, magnitude, ten_to,
    whole, Dec,
};

verus! {

/// The number of decimal places of the fixed-point unit.
pub const FIXED_PLACES: u8 = 16;

/// A fixed-point number.
#[derive(Clone, Copy, Debug, PartialEq, Eq, Structural)]
pub struct Fixed {
    /// The number of fixed-point units.
    pub raw: i128,
    /// The number of decimal places that the value is rounded to.
    pub precision: u8,
}

/// The value of `d` in units of ten to the minus `precision`, halves rounded to even.
pub open spec fn rounded(d: Dec, precision: nat) -> int {
    if d.places() <= precision {
        d.units() * ten_to((precision - d.places()) as nat)
    } else {
        half_even(d.units(), ten_to((d.places() - precision) as nat))
    }
}

/// The fixed-point number that `d` is rounded to at `precision`.
pub open spec fn fixed_raw(d: Dec, precision: u8) -> int {
    rounded(d, precision as nat) * ten_to((FIXED_PLACES - precision) as nat)
}

/// A thousand million, in fixed-point units: a size that every fixed-point type holds.
pub const ORDINARY: i128 = 10_000_000_000_000_000_000_000_000;

/// What `Price::from_decimal_dp` gives.
pub uninterp spec fn price_raw(d: Dec, precision: u8) -> Option<i128>;

/// What `Quantity::from_decimal_dp` gives.
pub uninterp spec fn quantity_raw(d: Dec, precision: u8) -> Option<i128>;

/// What `Money::from_decimal` gives for a currency of this precision.
pub uninterp spec fn money_raw(d: Dec, precision: u8) -> Result<i128, Seq<char>>;

/// Whether `r` is the amount, or the text of the error, that `named` stands for.
pub open spec fn is_money(r: Result<i128, String>, named: Result<i128, Seq<char>>) -> bool {
    match (r, named) {
        (Ok(a), Ok(b)) => a == b,
        (Err(a), Err(b)) => a@ == b,
        _ => false,
    }
}

/// `Price::from_decimal_dp`: the number rounded to `precision` places, halves to even; `None` for
/// any error. Up to a thousand million it always fits; the largest price is left to the name.
#[verifier::external_body]
fn outside_price(d: Dec, precision: u8) -> (r: Option<i128>)
    requires
        d.valid(),
        precision <= FIXED_PLACES,
    ensures
        r == price_raw(d, precision),
        r matches Some(raw) ==> raw == fixed_raw(d, precision),
        magnitude(fixed_raw(d, precision)) <= ORDINARY ==> r is Some,
{
    let x = Decimal::from_i128_with_scale(d.units, d.places);
    Price::from_decimal_dp(x, precision).ok().map(|p| p.raw)
}

/// `Quantity::from_decimal_dp`: the number rounded to `precision` places, halves to even; `None`
/// for any error. A negative number is an error; up to a thousand million others always fit; the
/// largest quantity is left to the name.
#[verifier::external_body]
fn outside_quantity(d: Dec, precision: u8) -> (r: Option<i128>)
    requires
        d.valid(),
        precision <= FIXED_PLACES,
    ensures
        r == quantity_raw(d, precision),
        d.units() < 0 ==> r is None,
        r matches Some(raw) ==> raw == fixed_raw(d, precision),
        d.units() >= 0 && fixed_raw(d, precision) <= ORDINARY ==> r is Some,
{
    let x = Decimal::from_i128_with_scale(d.units, d.places);
    Quantity::from_decimal_dp(x, precision).ok().map(|q| q.raw as i128)
}

/// `Money::from_decimal` for a currency of this precision: the number rounded to the precision,
/// halves to even, or the text of the error. A precision of more places than the fixed-point unit
/// has is an error. Up to a thousand million it always fits; what fits is less than eighteen
/// million million; the exact limit is left to the name.
#[verifier::external_body]
fn outside_money(d: Dec, precision: u8) -> (r: Result<i128, String>)
    requires
        d.valid(),
    ensures
        is_money(r, money_raw(d, precision)),
        precision > FIXED_PLACES ==> r is Err,
        r matches Ok(raw) ==> raw == fixed_raw(d, precision) && whole(d) < 18_000_000_000_000,
        precision <= FIXED_PLACES && magnitude(fixed_raw(d, precision)) <= ORDINARY ==> r is Ok,
{
    let x = Decimal::from_i128_with_scale(d.units, d.places);
    let mut currency = Currency::USD();
    currency.precision = precision;
    Money::from_decimal(x, currency).map(|m| m.raw).map_err(|e| e.to_string())
}

/// The price nearest to `d` at `precision`, if it is in range.
pub fn price_from(d: Dec, precision: u8) -> (r: Option<Fixed>)
    requires
        precision <= FIXED_PLACES,
    ensures
        match (r, price_raw(d, precision)) {
            (Some(p), Some(raw)) => p == (Fixed { raw, precision }) && raw == fixed_raw(
                d,
                precision,
            ),
            (None, None) => true,
            _ => false,
        },
        magnitude(fixed_raw(d, precision)) <= ORDINARY ==> r is Some,
{
    proof {
        use_type_invariant(&d);
    }
    match outside_price(d, precision) {
        Some(raw) => Some(Fixed { raw, precision }),
        None => None,
    }
}

/// The quantity nearest to `d` at `precision`, if it is in range.
pub fn quantity_from(d: Dec, precision: u8) -> (r: Option<Fixed>)
    requires
        precision <= FIXED_PLACES,
    ensures
        match (r, quantity_raw(d, precision)) {
            (Some(q), Some(raw)) => q == (Fixed { raw, precision }) && raw == fixed_raw(
                d,
                precision,
            ),
            (None, None) => true,
            _ => false,
        },
        d.units() < 0 ==> r is None,
        d.units() >= 0 && fixed_raw(d, precision) <= ORDINARY ==> r is Some,
{
    proof {
        use_type_invariant(&d);
    }
    match outside_quantity(d, precision) {
        Some(raw) => Some(Fixed { raw, precision }),
        None => None,
    }
}

/// The amount nearest to `d` in a currency of this precision, or the text of the error.
pub fn money_from(d: Dec, precision: u8) -> (r: Result<Fixed, String>)
    ensures
        precision > FIXED_PLACES ==> r is Err,
        match (r, money_raw(d, precision)) {
            (Ok(m), Ok(raw)) => m == (Fixed { raw, precision }) && raw == fixed_raw(d, precision)
                && whole(d) < 18_000_000_000_000,
            (Err(a), Err(b)) => a@ == b,
            _ => false,
        },
        precision <= FIXED_PLACES && magnitude(fixed_raw(d, precision)) <= ORDINARY ==> r is Ok,
{
    proof {
        use_type_invariant(&d);
    }
    match outside_money(d, precision) {
        Ok(raw) => Ok(Fixed { raw, precision }),
        Err(e) => Err(e),
    }
}

/// A currency that the register was asked for and knew.
#[derive(Clone, Debug, PartialEq, Eq)]
pub struct KnownCurrency {
    code: String,
    precision: u8,
}

impl KnownCurrency {
    /// The code that the register was asked for.
    pub closed spec fn asked(self) -> Seq<char> {
        self.code@
    }

    /// The precision that it gave for that code.
    pub closed spec fn places(self) -> u8 {
        self.precision
    }

    /// The code of the currency.
    pub fn code(&self) -> (r: &str)
        ensures
            r@ == self.asked(),
    {
        self.code.as_str()
    }

    /// The number of decimal places of the currency.
    pub fn precision(&self) -> (r: u8)
        ensures
            r == self.places(),
    {
        self.precision
    }
}

/// What the register of currencies says of a code that it does not know.
pub open spec fn unknown_currency(code: Seq<char>) -> Seq<char> {
    "Unknown currency: "@ + code
}

/// What the error begins with where the register of currencies cannot be read.
pub const REGISTER_UNREADABLE: &'static str = "Failed to acquire lock on `CURRENCY_MAP`: ";

/// Whether `error` is what the register of currencies says where it gives none for `code`: it does
/// not know the code, or it cannot be read.
pub open spec fn is_register_error(error: Seq<char>, code: Seq<char>) -> bool {
    ||| error == unknown_currency(code)
    ||| REGISTER_UNREADABLE@.is_prefix_of(error)
}

/// `Currency::from_str`: the currency that is registered under `code`, or the text of the error.
/// The register can be added to while the program runs, and takes currencies of any precision, so
/// that which codes are known and with what precision is left unsaid.
#[verifier::external_body]
pub(crate) fn registered_currency(code: &str) -> (r: Result<KnownCurrency, String>)
    ensures
        r matches Ok(known) ==> known.asked() == code@,
        r matches Err(e) ==> is_register_error(e@, code@),
{
    let currency: Result<Currency, anyhow::Error> = code.parse();
    currency.map(|c| KnownCurrency { code: code.to_owned(), precision: c.precision }).map_err(
        |e| e.to_string(),
    )
}

/// A number that is not negative stays so in fixed point.
pub proof fn fixed_keeps_sign(d: Dec, precision: u8)
    requires
        d.units() >= 0,
        precision <= FIXED_PLACES,
    ensures
        fixed_raw(d, precision) >= 0,
{
    let p = precision as nat;
    lemma_pow_positive(10, (FIXED_PLACES - precision) as nat);
    if d.places() <= p {
        lemma_pow_positive(10, (p - d.places()) as nat);
        let u = d.units();
        let t = ten_to((p - d.places()) as nat);
        assert(u >= 0 && t > 0 ==> u * t >= 0) by (nonlinear_arith);
    } else {
        let t = ten_to((d.places() - p) as nat);
        lemma_pow_positive(10, (d.places() - p) as nat);
        vstd::arithmetic::div_mod::lemma_div_pos_is_pos(d.units(), t);
    }
    let r = rounded(d, p);
    let t = ten_to((FIXED_PLACES - precision) as nat);
    assert(r >= 0 && t > 0 ==> r * t >= 0) by (nonlinear_arith);
}

/// Without rounding, the fixed-point number of an exact difference is the difference of the
/// fixed-point numbers.
pub proof fn fixed_differences_add_up(a: Dec, b: Dec, d: Dec, precision: u8)
    requires
        a.valid(),
        b.valid(),
        difference_in_range(a, b) == Some(d),
        common_places(a, b) <= precision <= FIXED_PLACES,
    ensures
        fixed_raw(d, precision) == fixed_raw(a, precision) - fixed_raw(b, precision),
{
    let p = precision as nat;
    difference_value(a, b, d, p);
    let x = aligned(a, p);
    let y = aligned(b, p);
    let t = ten_to((FIXED_PLACES - precision) as nat);
    assert((x - y) * t == x * t - y * t) by (nonlinear_arith);
}

/// A number with no more decimal places than the precision is held exactly, in units of ten to the
/// minus sixteen; any other one is held as the nearest number with as many places as the precision.
pub proof fn fixed_is_the_nearest(d: Dec, precision: u8)
    requires
        d.valid(),
        precision <= 16,
    ensures
        d.places() <= precision ==> fixed_raw(d, precision) == aligned(d, 16),
        d.places() > precision ==> 2 * magnitude(
            d.units() * ten_to((16 - precision) as nat) - fixed_raw(d, precision) * ten_to(
                (d.places() - precision) as nat,
            ),
        ) <= ten_to((d.places() - precision) as nat) * ten_to((16 - precision) as nat),
        fixed_raw(d, precision) % ten_to((16 - precision) as nat) == 0,
{
    let p = precision as nat;
    let t = ten_to((16 - p) as nat);
    lemma_pow_positive(10, (16 - p) as nat);
    let r = rounded(d, p);
    vstd::arithmetic::div_mod::lemma_mod_multiples_basic(r, t);
    if d.places() <= p {
        crate::decimal::aligned_further(d, p, 16);
    } else {
        let e = ten_to((d.places() - p) as nat);
        lemma_pow_positive(10, (d.places() - p) as nat);
        let u = d.units();
        crate::decimal::rounding_goes_to_the_nearest(u, e);
        assert(u * t - (r * t) * e == (u - r * e) * t) by (nonlinear_arith);
        let x = u - r * e;
        assert(2 * magnitude(x * t) <= e * t) by (nonlinear_arith)
            requires
                2 * magnitude(x) <= e,
                t > 0,
        ;
    }
}

} // verus!
