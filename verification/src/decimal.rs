//! Decimal numbers: a signed whole number of units at a power of ten.
//!
//! [`Dec`] holds what `rust_decimal::Decimal` holds, as plain integers, so that rules can be
//! stated over it. Arithmetic that may round or overflow is done by `rust_decimal`.

use rust_decimal::Decimal;
use vstd::arithmetic::power::{
    lemma_pow0, lemma_pow1, lemma_pow_adds, lemma_pow_increases, lemma_pow_positive, pow,
};
use vstd::prelude::*;

verus! {

/// A decimal number `units / 10^places`.
#[derive(Clone, Copy, Debug, PartialEq, Eq, Structural)]
pub struct Dec {
    pub(crate) units: i128,
    pub(crate) places: u32,
}

/// One more than the largest magnitude of a decimal's units: `2^96`.
pub const UNITS_END: i128 = 79_228_162_514_264_337_593_543_950_336;

/// The largest number of decimal places.
pub const MAX_PLACES: u32 = 28;

/// `10^n`.
pub open spec fn ten_to(n: nat) -> int {
    pow(10, n)
}

/// The magnitude of `x`.
pub open spec fn magnitude(x: int) -> nat {
    if x < 0 {
        (-x) as nat
    } else {
        x as nat
    }
}

impl Dec {
    /// The whole number of units.
    pub closed spec fn units(self) -> int {
        self.units as int
    }

    /// The number of decimal places.
    pub closed spec fn places(self) -> nat {
        self.places as nat
    }

    /// The decimal with the given units and places.
    pub closed spec fn of(units: int, places: nat) -> Dec {
        Dec { units: units as i128, places: places as u32 }
    }

    /// Whether the parts are in range; every value of this type that code can hold satisfies this.
    pub open spec fn valid(self) -> bool {
        in_range(self.units(), self.places())
    }

    #[verifier::type_invariant]
    pub open spec fn invariant_holds(self) -> bool {
        self.valid()
    }

    /// Zero, with no decimal places.
    pub open spec fn nought() -> Dec {
        Dec::of(0, 0)
    }

    /// The same magnitude, not negative.
    pub open spec fn absolute(self) -> Dec {
        Dec::of(magnitude(self.units()) as int, self.places())
    }

    /// The number with its sign changed.
    pub open spec fn negated(self) -> Dec {
        Dec::of(-self.units(), self.places())
    }
}

/// Whether a decimal can have these parts.
pub open spec fn in_range(units: int, places: nat) -> bool {
    &&& -UNITS_END < units < UNITS_END
    &&& places <= MAX_PLACES
}

/// A decimal is made of its parts.
pub broadcast proof fn dec_parts(units: int, places: nat)
    requires
        in_range(units, places),
    ensures
        (#[trigger] Dec::of(units, places)).units() == units,
        Dec::of(units, places).places() == places,
{
}

/// Two decimals with the same parts are the same.
pub broadcast proof fn dec_same(a: Dec, b: Dec)
    requires
        #[trigger] a.units() == #[trigger] b.units(),
        a.places() == b.places(),
    ensures
        a == b,
{
}

/// The value of `a` in units of `10^-places`, where `places` is not less than `a.places()`.
pub open spec fn aligned(a: Dec, places: nat) -> int {
    a.units() * ten_to((places - a.places()) as nat)
}

/// The greater of the two numbers of decimal places.
pub open spec fn common_places(a: Dec, b: Dec) -> nat {
    if a.places() >= b.places() {
        a.places()
    } else {
        b.places()
    }
}

/// Whether the value of `a` is less than that of `b`.
pub open spec fn below(a: Dec, b: Dec) -> bool {
    aligned(a, common_places(a, b)) < aligned(b, common_places(a, b))
}

/// Whether `a` and `b` can be written at their common number of places within 96 bits.
pub open spec fn alignable(a: Dec, b: Dec) -> bool {
    &&& magnitude(aligned(a, common_places(a, b))) < UNITS_END
    &&& magnitude(aligned(b, common_places(a, b))) < UNITS_END
}

/// What `Decimal::checked_add` returns.
pub uninterp spec fn decimal_sum(a: Dec, b: Dec) -> Option<Dec>;

/// What `Decimal::checked_sub` returns.
pub uninterp spec fn decimal_difference(a: Dec, b: Dec) -> Option<Dec>;

/// What `Decimal::checked_mul` returns.
pub uninterp spec fn decimal_product(a: Dec, b: Dec) -> Option<Dec>;

/// What `Decimal::checked_div` returns.
pub uninterp spec fn decimal_quotient(a: Dec, b: Dec) -> Option<Dec>;

/// What parsing a text with `Decimal::from_str` returns; an error by the text that it displays as.
pub uninterp spec fn decimal_of_text(s: Seq<char>) -> Result<Dec, Seq<char>>;

/// Whether `r` is the decimal, or the text of the error, that `named` stands for.
pub open spec fn is_parsed(r: Result<Dec, String>, named: Result<Dec, Seq<char>>) -> bool {
    match (r, named) {
        (Ok(a), Ok(b)) => a == b && a.valid(),
        (Err(a), Err(b)) => a@ == b,
        _ => false,
    }
}

/// The whole part of the magnitude of `a`.
pub open spec fn whole(a: Dec) -> nat {
    (magnitude(a.units()) as int / ten_to(a.places())) as nat
}

/// The exact sum, where it is known to be what `Decimal::checked_add` returns: an operand is zero,
/// or both can be aligned within 96 bits and the sum fits.
pub open spec fn sum_in_range(a: Dec, b: Dec) -> Option<Dec> {
    let places = common_places(a, b);
    let exact = aligned(a, places) + aligned(b, places);
    if a.units() == 0 {
        Some(b)
    } else if b.units() == 0 {
        Some(a)
    } else if alignable(a, b) && magnitude(exact) < UNITS_END {
        Some(Dec::of(exact, places))
    } else {
        None
    }
}

/// The exact difference, where it is known to be what `Decimal::checked_sub` returns: an operand
/// is zero, or both can be aligned within 96 bits and the difference fits.
pub open spec fn difference_in_range(a: Dec, b: Dec) -> Option<Dec> {
    let places = common_places(a, b);
    let exact = aligned(a, places) - aligned(b, places);
    if a.units() == 0 {
        Some(b.negated())
    } else if b.units() == 0 {
        Some(a)
    } else if alignable(a, b) && magnitude(exact) < UNITS_END {
        Some(Dec::of(exact, places))
    } else {
        None
    }
}

/// The exact product, where it is known to be what `Decimal::checked_mul` returns: an operand is
/// zero, or the units and the places of the product both fit.
pub open spec fn product_in_range(a: Dec, b: Dec) -> Option<Dec> {
    let exact = a.units() * b.units();
    let places = a.places() + b.places();
    if a.units() == 0 || b.units() == 0 {
        Some(Dec::nought())
    } else if in_range(exact, places) {
        Some(Dec::of(exact, places))
    } else {
        None
    }
}

/// Whether `q` is exactly `a` divided by `b`, which is not zero.
pub open spec fn is_quotient(a: Dec, b: Dec, q: Dec) -> bool {
    &&& b.units() != 0
    &&& q.units() * b.units() * ten_to(a.places()) == a.units() * ten_to(q.places() + b.places())
}

/// Whether `r` is exactly `a` divided by `b` where some decimal is.
pub open spec fn divides_exactly(a: Dec, b: Dec, r: Option<Dec>) -> bool {
    forall|q: Dec| q.valid() && #[trigger] is_quotient(a, b, q) ==> (r matches Some(x) && is_quotient(
        a,
        b,
        x,
    ))
}

/// The character of a digit.
pub open spec fn digit_char(d: nat) -> char {
    ((d + 48) as u32) as char
}

/// The decimal digits of `n`, without leading zeros; "0" for zero.
pub open spec fn digits(n: nat) -> Seq<char>
    decreases n,
{
    if n < 10 {
        seq![digit_char(n)]
    } else {
        digits(n / 10).push(digit_char(n % 10))
    }
}

/// The last `k` decimal digits of `n`, with leading zeros.
pub open spec fn last_digits(n: nat, k: nat) -> Seq<char>
    decreases k,
{
    if k == 0 {
        Seq::empty()
    } else {
        last_digits(n / 10, (k - 1) as nat).push(digit_char(n % 10))
    }
}

/// The sign that goes in front of a number.
pub open spec fn sign_text(units: int) -> Seq<char> {
    if units < 0 {
        seq!['-']
    } else {
        Seq::empty()
    }
}

/// A decimal as text: the whole part, then a point and all of its decimal places, if it has any.
pub open spec fn decimal_text(a: Dec) -> Seq<char> {
    let whole = magnitude(a.units()) as int / ten_to(a.places());
    let text = sign_text(a.units()) + digits(whole as nat);
    if a.places() == 0 {
        text
    } else {
        text + seq!['.'] + last_digits(magnitude(a.units()), a.places())
    }
}

/// A decimal as text with one decimal place; further places are cut off, not rounded.
pub open spec fn decimal_text_tenths(a: Dec) -> Seq<char> {
    let tenths = (magnitude(a.units()) * 10) as int / ten_to(a.places());
    sign_text(a.units()) + digits(tenths as nat / 10) + seq!['.'] + last_digits(tenths as nat, 1)
}

/// `Decimal::checked_add`: the sum, `None` where it does not fit. A zero operand gives back the
/// other operand as it is. Two operands other than zero that can be aligned within 96 bits, with a
/// sum that fits, give the exact sum at their common number of places.
#[verifier::external_body]
fn outside_sum(a: Dec, b: Dec) -> (r: Option<Dec>)
    requires
        a.valid(),
        b.valid(),
    ensures
        r == decimal_sum(a, b),
        r matches Some(x) ==> x.valid(),
        sum_in_range(a, b) is Some ==> r == sum_in_range(a, b),
{
    let x = Decimal::from_i128_with_scale(a.units, a.places);
    let y = Decimal::from_i128_with_scale(b.units, b.places);
    x.checked_add(y).map(|d| Dec { units: d.mantissa(), places: d.scale() })
}

/// `Decimal::checked_sub`: the difference, `None` where it does not fit. Taking zero away gives
/// back the first operand as it is, and zero less a number is that number negated. Two operands
/// other than zero that can be aligned within 96 bits, with a difference that fits, give the exact
/// difference at their common number of places. A difference whose whole part fits is never `None`.
#[verifier::external_body]
fn outside_difference(a: Dec, b: Dec) -> (r: Option<Dec>)
    requires
        a.valid(),
        b.valid(),
    ensures
        r == decimal_difference(a, b),
        r matches Some(x) ==> x.valid(),
        difference_in_range(a, b) is Some ==> r == difference_in_range(a, b),
        whole(a) + whole(b) + 2 < UNITS_END ==> r is Some,
{
    let x = Decimal::from_i128_with_scale(a.units, a.places);
    let y = Decimal::from_i128_with_scale(b.units, b.places);
    x.checked_sub(y).map(|d| Dec { units: d.mantissa(), places: d.scale() })
}

/// `Decimal::checked_mul`: the product, `None` where it does not fit. A zero operand gives zero
/// without decimal places. A product whose units and places both fit is exact, at the sum of the
/// two numbers of places.
#[verifier::external_body]
fn outside_product(a: Dec, b: Dec) -> (r: Option<Dec>)
    requires
        a.valid(),
        b.valid(),
    ensures
        r == decimal_product(a, b),
        r matches Some(x) ==> x.valid(),
        product_in_range(a, b) is Some ==> r == product_in_range(a, b),
{
    let x = Decimal::from_i128_with_scale(a.units, a.places);
    let y = Decimal::from_i128_with_scale(b.units, b.places);
    x.checked_mul(y).map(|d| Dec { units: d.mantissa(), places: d.scale() })
}

/// `Decimal::checked_div`: the quotient, rounded to what fits, `None` where the divisor is zero or
/// the quotient is too large. Where a decimal is exactly the quotient, the result has that value;
/// at how many places, and how other quotients are rounded, is left unsaid. Zero divided by
/// anything but zero is zero without decimal places, and a hundredth of a number is never too
/// large.
#[verifier::external_body]
fn outside_quotient(a: Dec, b: Dec) -> (r: Option<Dec>)
    requires
        a.valid(),
        b.valid(),
    ensures
        r == decimal_quotient(a, b),
        r matches Some(x) ==> x.valid(),
        b.units() == 0 ==> r is None,
        a.units() == 0 && b.units() != 0 ==> r == Some(Dec::nought()),
        b == Dec::of(100, 0) ==> r is Some,
        divides_exactly(a, b, r),
{
    let x = Decimal::from_i128_with_scale(a.units, a.places);
    let y = Decimal::from_i128_with_scale(b.units, b.places);
    x.checked_div(y).map(|d| Dec { units: d.mantissa(), places: d.scale() })
}

/// The order of two values of `Decimal`: it is that of the numbers, whatever their places.
#[verifier::external_body]
fn outside_below(a: Dec, b: Dec) -> (r: bool)
    requires
        a.valid(),
        b.valid(),
    ensures
        r == below(a, b),
{
    let x = Decimal::from_i128_with_scale(a.units, a.places);
    let y = Decimal::from_i128_with_scale(b.units, b.places);
    x < y
}

/// `Decimal::from_str` on a text, with an error as the text that it displays as. Which texts it
/// accepts is left to the name, except that a decimal's own text gives that decimal back.
#[verifier::external_body]
fn outside_parse(s: &str) -> (r: Result<Dec, String>)
    ensures
        is_parsed(r, decimal_of_text(s@)),
        forall|d: Dec| d.valid() && s@ == #[trigger] decimal_text(d) ==> is_parsed(r, Ok(d)),
{
    let d: Result<Decimal, rust_decimal::Error> = s.parse();
    d.map(|d| Dec { units: d.mantissa(), places: d.scale() }).map_err(|e| e.to_string())
}

/// The text that `Decimal` displays as: sign, whole part, and exactly its decimal places.
#[verifier::external_body]
fn outside_text(a: Dec) -> (r: String)
    requires
        a.valid(),
    ensures
        r@ == decimal_text(a),
{
    Decimal::from_i128_with_scale(a.units, a.places).to_string()
}

/// The text that `Decimal` displays as with the precision `.1`: further places are cut off.
#[verifier::external_body]
fn outside_text_tenths(a: Dec) -> (r: String)
    requires
        a.valid(),
    ensures
        r@ == decimal_text_tenths(a),
{
    format!("{:.1}", Decimal::from_i128_with_scale(a.units, a.places))
}

impl Dec {
    /// The decimal with these parts, if they are in range.
    pub fn new(units: i128, places: u32) -> (r: Option<Dec>)
        ensures
            r is Some <==> in_range(units as int, places as nat),
            r is Some ==> r == Some(Dec::of(units as int, places as nat)),
    {
        if -UNITS_END < units && units < UNITS_END && places <= MAX_PLACES {
            Some(Dec { units, places })
        } else {
            None
        }
    }

    /// Zero.
    pub fn zero() -> (r: Dec)
        ensures
            r == Dec::nought(),
    {
        Dec { units: 0, places: 0 }
    }

    /// One hundred.
    pub fn hundred() -> (r: Dec)
        ensures
            r == Dec::of(100, 0),
    {
        Dec { units: 100, places: 0 }
    }

    /// The number that `s` writes out, or the text of the error.
    pub fn try_parse(s: &str) -> (r: Result<Dec, String>)
        ensures
            is_parsed(r, decimal_of_text(s@)),
            forall|d: Dec| d.valid() && s@ == #[trigger] decimal_text(d) ==> is_parsed(r, Ok(d)),
    {
        outside_parse(s)
    }

    /// The number that `s` writes out, if it is one.
    pub fn parse(s: &str) -> (r: Option<Dec>)
        ensures
            r == decimal_of_text(s@).ok(),
            r matches Some(x) ==> x.valid(),
            forall|d: Dec| d.valid() && s@ == #[trigger] decimal_text(d) ==> r == Some(d),
    {
        match outside_parse(s) {
            Ok(d) => Some(d),
            Err(_) => None,
        }
    }

    /// The whole number of units.
    pub fn unit_count(self) -> (r: i128)
        ensures
            r == self.units(),
            self.valid(),
    {
        proof {
            use_type_invariant(&self);
        }
        self.units
    }

    /// The number of decimal places.
    pub fn place_count(self) -> (r: u32)
        ensures
            r == self.places(),
            self.valid(),
    {
        proof {
            use_type_invariant(&self);
        }
        self.places
    }

    /// The magnitude.
    pub fn abs(self) -> (r: Dec)
        ensures
            r == self.absolute(),
            self.valid(),
    {
        proof {
            use_type_invariant(&self);
        }
        if self.units < 0 {
            Dec { units: -self.units, places: self.places }
        } else {
            self
        }
    }

    /// The number with its sign changed.
    pub fn neg(self) -> (r: Dec)
        ensures
            r == self.negated(),
            self.valid(),
    {
        proof {
            use_type_invariant(&self);
        }
        Dec { units: -self.units, places: self.places }
    }

    /// Whether the number is greater than zero.
    pub fn is_positive(self) -> (r: bool)
        ensures
            r == (self.units() > 0),
            self.valid(),
    {
        proof {
            use_type_invariant(&self);
        }
        self.units > 0
    }

    /// Whether the number is less than zero.
    pub fn is_negative(self) -> (r: bool)
        ensures
            r == (self.units() < 0),
            self.valid(),
    {
        proof {
            use_type_invariant(&self);
        }
        self.units < 0
    }

    /// Whether this number is less than `other`.
    pub fn less_than(self, other: Dec) -> (r: bool)
        ensures
            r == below(self, other),
    {
        proof {
            use_type_invariant(&self);
            use_type_invariant(&other);
        }
        outside_below(self, other)
    }

    /// The sum, if it fits.
    pub fn checked_add(self, other: Dec) -> (r: Option<Dec>)
        ensures
            r == decimal_sum(self, other),
            r matches Some(x) ==> x.valid(),
            sum_in_range(self, other) is Some ==> r == sum_in_range(self, other),
    {
        proof {
            use_type_invariant(&self);
            use_type_invariant(&other);
        }
        outside_sum(self, other)
    }

    /// The difference, if it fits.
    pub fn checked_sub(self, other: Dec) -> (r: Option<Dec>)
        ensures
            r == decimal_difference(self, other),
            r matches Some(x) ==> x.valid(),
            difference_in_range(self, other) is Some ==> r == difference_in_range(self, other),
            whole(self) + whole(other) + 2 < UNITS_END ==> r is Some,
    {
        proof {
            use_type_invariant(&self);
            use_type_invariant(&other);
        }
        outside_difference(self, other)
    }

    /// The product, if it fits.
    pub fn checked_mul(self, other: Dec) -> (r: Option<Dec>)
        ensures
            r == decimal_product(self, other),
            r matches Some(x) ==> x.valid(),
            product_in_range(self, other) is Some ==> r == product_in_range(self, other),
    {
        proof {
            use_type_invariant(&self);
            use_type_invariant(&other);
        }
        outside_product(self, other)
    }

    /// The quotient, if there is one that fits.
    pub fn checked_div(self, other: Dec) -> (r: Option<Dec>)
        ensures
            r == decimal_quotient(self, other),
            r matches Some(x) ==> x.valid(),
            other.units() == 0 ==> r is None,
            self.units() == 0 && other.units() != 0 ==> r == Some(Dec::nought()),
            other == Dec::of(100, 0) ==> r is Some,
            divides_exactly(self, other, r),
    {
        proof {
            use_type_invariant(&self);
            use_type_invariant(&other);
        }
        outside_quotient(self, other)
    }

    /// The number as text, with all of its decimal places.
    pub fn text(self) -> (r: String)
        ensures
            r@ == decimal_text(self),
    {
        proof {
            use_type_invariant(&self);
        }
        outside_text(self)
    }

    /// The number as text, cut off after one decimal place.
    pub fn text_tenths(self) -> (r: String)
        ensures
            r@ == decimal_text_tenths(self),
    {
        proof {
            use_type_invariant(&self);
        }
        outside_text_tenths(self)
    }
}

/// The number written without trailing zeros among its decimal places.
pub open spec fn normalized(a: Dec) -> Dec
    decreases a.places(),
    when a.valid()
    via normalized_ends
{
    if a.places() > 0 && a.units() % 10 == 0 {
        normalized(Dec::of(a.units() / 10, (a.places() - 1) as nat))
    } else {
        a
    }
}

#[via_fn]
proof fn normalized_ends(a: Dec) {
    broadcast use dec_parts;

}

/// Whether the number has at most `n` decimals, trailing zeros left out of account.
pub open spec fn has_decimals_within(a: Dec, n: nat) -> bool {
    a.places() <= n || magnitude(a.units()) as int % ten_to((a.places() - n) as nat) == 0
}

/// `10^k`.
pub(crate) fn power_of_ten(k: u32) -> (r: i128)
    requires
        k <= MAX_PLACES,
    ensures
        r == ten_to(k as nat),
        1 <= r <= 10_000_000_000_000_000_000_000_000_000,
{
    let mut p: i128 = 1;
    let mut i: u32 = 0;
    proof {
        lemma_pow0(10);
        assert(ten_to(28) == 10_000_000_000_000_000_000_000_000_000) by {
            reveal_with_fuel(pow, 29);
        }
    }
    while i < k
        invariant
            i <= k <= 28,
            p == ten_to(i as nat),
            1 <= p,
            ten_to(28) == 10_000_000_000_000_000_000_000_000_000,
        decreases k - i,
    {
        proof {
            lemma_pow_adds(10, i as nat, 1);
            lemma_pow1(10);
            lemma_pow_increases(10, (i + 1) as nat, 28);
        }
        p = p * 10;
        i = i + 1;
    }
    proof {
        lemma_pow_increases(10, k as nat, 28);
    }
    p
}

/// `units / divisor`, rounded to the nearest whole number; halves go to the even one.
pub open spec fn half_even(units: int, divisor: int) -> int {
    let m = magnitude(units) as int;
    let q = m / divisor;
    let r = m % divisor;
    let up = 2 * r > divisor || (2 * r == divisor && q % 2 == 1);
    let rounded = if up {
        q + 1
    } else {
        q
    };
    if units < 0 {
        -rounded
    } else {
        rounded
    }
}

/// The number with at most `n` decimal places, halves rounded to even.
pub open spec fn cut_to(a: Dec, n: nat) -> Dec {
    if a.places() <= n {
        a
    } else {
        Dec::of(half_even(a.units(), ten_to((a.places() - n) as nat)), n)
    }
}

impl Dec {
    /// The number with at most `n` decimal places, halves rounded to even.
    pub fn round_to(self, n: u32) -> (r: Dec)
        ensures
            r == cut_to(self, n as nat),
            self.valid(),
    {
        proof {
            use_type_invariant(&self);
        }
        if self.places <= n {
            return self;
        }
        let p: i128 = power_of_ten(self.places - n);
        let m: i128 = if self.units < 0 {
            -self.units
        } else {
            self.units
        };
        proof {
            assert(p >= 10) by {
                lemma_pow1(10);
                lemma_pow_increases(10, 1, (self.places - n) as nat);
            }
            vstd::arithmetic::div_mod::lemma_div_is_ordered_by_denominator(m as int, 10, p as int);
            vstd::arithmetic::div_mod::lemma_div_pos_is_pos(m as int, p as int);
        }
        let low: i128 = m / p;
        let rest: i128 = m % p;
        let rounded: i128 = if 2 * rest > p || (2 * rest == p && low % 2 == 1) {
            low + 1
        } else {
            low
        };
        Dec {
            units: if self.units < 0 {
                -rounded
            } else {
                rounded
            },
            places: n,
        }
    }

    /// The number written without trailing zeros among its decimal places.
    pub fn normalize(self) -> (r: Dec)
        ensures
            r == normalized(self),
            self.valid(),
    {
        proof {
            use_type_invariant(&self);
        }
        let mut a = self;
        while a.places > 0 && a.units % 10 == 0
            invariant
                a.valid(),
                self.valid(),
                normalized(a) == normalized(self),
            decreases a.places,
        {
            let ghost before = a;
            a = Dec { units: a.units / 10, places: a.places - 1 };
            proof {
                dec_same(a, Dec::of(before.units() / 10, (before.places() - 1) as nat));
            }
        }
        a
    }

    /// Whether the number has at most `n` decimals, trailing zeros left out of account.
    pub fn decimals_within(self, n: u32) -> (r: bool)
        ensures
            r == has_decimals_within(self, n as nat),
            self.valid(),
    {
        proof {
            use_type_invariant(&self);
        }
        if self.places <= n {
            return true;
        }
        let p: i128 = power_of_ten(self.places - n);
        let m: i128 = if self.units < 0 {
            -self.units
        } else {
            self.units
        };
        m % p == 0
    }
}

/// Writing a number at more places multiplies its units by the power of ten.
pub proof fn aligned_further(a: Dec, p: nat, q: nat)
    requires
        a.places() <= p <= q,
    ensures
        aligned(a, q) == aligned(a, p) * ten_to((q - p) as nat),
        ten_to((q - p) as nat) > 0,
{
    let x = (p - a.places()) as nat;
    let y = (q - p) as nat;
    lemma_pow_adds(10, x, y);
    lemma_pow_positive(10, y);
    assert(a.units() * (ten_to(x) * ten_to(y)) == (a.units() * ten_to(x)) * ten_to(y))
        by (nonlinear_arith);
}

/// The order of two numbers can be read off at any number of places that both can be written at.
pub proof fn below_at(a: Dec, b: Dec, p: nat)
    requires
        common_places(a, b) <= p,
    ensures
        below(a, b) <==> aligned(a, p) < aligned(b, p),
{
    let c = common_places(a, b);
    aligned_further(a, c, p);
    aligned_further(b, c, p);
    let x = aligned(a, c);
    let y = aligned(b, c);
    let t = ten_to((p - c) as nat);
    assert(t > 0 ==> (x < y <==> x * t < y * t)) by (nonlinear_arith);
}

/// Comparing is transitive, whatever the numbers of places.
pub proof fn below_chain(a: Dec, b: Dec, c: Dec)
    requires
        !below(b, a),
        !below(c, b),
        below(a, b) || below(b, c),
    ensures
        below(a, c),
{
    let p = a.places() + b.places() + c.places();
    below_at(a, b, p);
    below_at(b, a, p);
    below_at(b, c, p);
    below_at(c, b, p);
    below_at(a, c, p);
}

/// The magnitude of a number written at more places.
pub proof fn aligned_absolute(a: Dec, p: nat)
    requires
        a.valid(),
        a.places() <= p,
    ensures
        a.absolute().valid(),
        a.absolute().units() == magnitude(a.units()),
        a.absolute().places() == a.places(),
        aligned(a.absolute(), p) == magnitude(aligned(a, p)),
{
    broadcast use dec_parts;

    let t = ten_to((p - a.places()) as nat);
    lemma_pow_positive(10, (p - a.places()) as nat);
    let u = a.units();
    assert(t > 0 && u < 0 ==> (-u) * t == -(u * t) && u * t < 0) by (nonlinear_arith);
    assert(t > 0 && u >= 0 ==> u * t >= 0) by (nonlinear_arith);
}

/// Changing the sign of a number changes the sign of its units at any number of places.
pub proof fn aligned_negated(a: Dec, p: nat)
    requires
        a.valid(),
        a.places() <= p,
    ensures
        a.negated().valid(),
        a.negated().units() == -a.units(),
        a.negated().places() == a.places(),
        aligned(a.negated(), p) == -aligned(a, p),
{
    broadcast use dec_parts;

    let t = ten_to((p - a.places()) as nat);
    let u = a.units();
    assert((-u) * t == -(u * t)) by (nonlinear_arith);
}

/// Where the sum is exact, its value is the sum of the values.
pub proof fn sum_value(a: Dec, b: Dec, r: Dec, p: nat)
    requires
        a.valid(),
        b.valid(),
        sum_in_range(a, b) == Some(r),
        common_places(a, b) <= p,
    ensures
        r.valid(),
        r.places() <= common_places(a, b),
        aligned(r, p) == aligned(a, p) + aligned(b, p),
{
    broadcast use dec_parts;

    let c = common_places(a, b);
    assert(0 * ten_to((p - a.places()) as nat) == 0) by (nonlinear_arith);
    assert(0 * ten_to((p - b.places()) as nat) == 0) by (nonlinear_arith);
    if a.units() != 0 && b.units() != 0 {
        aligned_further(a, c, p);
        aligned_further(b, c, p);
        let x = aligned(a, c);
        let y = aligned(b, c);
        let t = ten_to((p - c) as nat);
        assert(r.units() == x + y);
        assert((x + y) * t == x * t + y * t) by (nonlinear_arith);
    }
}

/// Where the difference is exact, its value is the difference of the values.
pub proof fn difference_value(a: Dec, b: Dec, r: Dec, p: nat)
    requires
        a.valid(),
        b.valid(),
        difference_in_range(a, b) == Some(r),
        common_places(a, b) <= p,
    ensures
        r.valid(),
        r.places() <= common_places(a, b),
        aligned(r, p) == aligned(a, p) - aligned(b, p),
{
    broadcast use dec_parts;

    let c = common_places(a, b);
    assert(0 * ten_to((p - a.places()) as nat) == 0) by (nonlinear_arith);
    assert(0 * ten_to((p - b.places()) as nat) == 0) by (nonlinear_arith);
    aligned_negated(b, p);
    if a.units() != 0 && b.units() != 0 {
        aligned_further(a, c, p);
        aligned_further(b, c, p);
        let x = aligned(a, c);
        let y = aligned(b, c);
        let t = ten_to((p - c) as nat);
        assert(r.units() == x - y);
        assert((x - y) * t == x * t - y * t) by (nonlinear_arith);
    }
}

/// A number has the sign of its units at any number of places.
pub proof fn aligned_keeps_sign(a: Dec, p: nat)
    requires
        a.places() <= p,
    ensures
        a.units() > 0 <==> aligned(a, p) > 0,
        a.units() < 0 <==> aligned(a, p) < 0,
{
    let t = ten_to((p - a.places()) as nat);
    lemma_pow_positive(10, (p - a.places()) as nat);
    let u = a.units();
    assert(t > 0 && u < 0 ==> u * t < 0) by (nonlinear_arith);
    assert(t > 0 && u > 0 ==> u * t > 0) by (nonlinear_arith);
    assert(u == 0 ==> u * t == 0) by (nonlinear_arith);
}

/// Where the product is exact, its value is the product of the values.
pub proof fn product_value(a: Dec, b: Dec, r: Dec, p: nat, q: nat)
    requires
        a.valid(),
        b.valid(),
        product_in_range(a, b) == Some(r),
        a.places() <= p,
        b.places() <= q,
    ensures
        r.valid(),
        r.places() <= p + q,
        aligned(r, p + q) == aligned(a, p) * aligned(b, q),
{
    broadcast use dec_parts;

    let ta = ten_to((p - a.places()) as nat);
    let tb = ten_to((q - b.places()) as nat);
    let x = a.units();
    let y = b.units();
    if x == 0 || y == 0 {
        let t = ten_to(p + q);
        assert(x == 0 || y == 0 ==> 0 * t == (x * ta) * (y * tb)) by (nonlinear_arith);
    } else {
        lemma_pow_adds(10, (p - a.places()) as nat, (q - b.places()) as nat);
        assert((p + q - r.places()) as nat == (p - a.places()) as nat + (q - b.places()) as nat);
        assert((x * y) * (ta * tb) == (x * ta) * (y * tb)) by (nonlinear_arith);
    }
}

/// Two exact quotients have one value: any number is above both or neither.
pub proof fn quotients_agree(a: Dec, b: Dec, q: Dec, x: Dec, limit: Dec)
    requires
        is_quotient(a, b, q),
        is_quotient(a, b, x),
    ensures
        below(limit, q) <==> below(limit, x),
{
    let p = q.places() + x.places() + limit.places();
    below_at(limit, q, p);
    below_at(limit, x, p);
    let ta = ten_to(a.places());
    let tb = ten_to(b.places());
    let tq = ten_to(q.places());
    let tx = ten_to(x.places());
    let tl = ten_to(limit.places());
    lemma_pow_positive(10, a.places());
    lemma_pow_adds(10, q.places(), b.places());
    lemma_pow_adds(10, x.places(), b.places());
    lemma_pow_adds(10, x.places(), limit.places());
    lemma_pow_adds(10, q.places(), limit.places());
    assert((p - q.places()) as nat == x.places() + limit.places());
    assert((p - x.places()) as nat == q.places() + limit.places());
    let qu = q.units();
    let xu = x.units();
    let bu = b.units();
    let au = a.units();
    assert(qu * bu * ta == au * (tq * tb));
    assert(xu * bu * ta == au * (tx * tb));
    assert((qu * tx) * (bu * ta) == (qu * bu * ta) * tx) by (nonlinear_arith);
    assert((xu * tq) * (bu * ta) == (xu * bu * ta) * tq) by (nonlinear_arith);
    assert((au * (tq * tb)) * tx == (au * (tx * tb)) * tq) by (nonlinear_arith);
    assert(bu * ta != 0) by (nonlinear_arith)
        requires
            bu != 0,
            ta > 0,
    ;
    let d = bu * ta;
    let y = qu * tx;
    let z = xu * tq;
    assert(y == z) by (nonlinear_arith)
        requires
            y * d == z * d,
            d != 0,
    ;
    assert(qu * (tx * tl) == (qu * tx) * tl) by (nonlinear_arith);
    assert(xu * (tq * tl) == (xu * tq) * tl) by (nonlinear_arith);
}

/// Leaving out trailing zeros changes how a number is written, not its value, and leaves none.
pub proof fn normalizing_keeps_the_value(a: Dec, p: nat)
    requires
        a.valid(),
        a.places() <= p,
    ensures
        normalized(a).valid(),
        normalized(a).places() <= a.places(),
        aligned(normalized(a), p) == aligned(a, p),
        normalized(a).places() > 0 ==> normalized(a).units() % 10 != 0,
    decreases a.places(),
{
    broadcast use dec_parts;

    if a.places() > 0 && a.units() % 10 == 0 {
        let shorter = Dec::of(a.units() / 10, (a.places() - 1) as nat);
        normalizing_keeps_the_value(shorter, p);
        let k = (p - a.places()) as nat;
        let t = ten_to(k);
        lemma_pow_adds(10, k, 1);
        lemma_pow1(10);
        assert((p - shorter.places()) as nat == k + 1);
        let u = a.units();
        let v = u / 10;
        assert(v * (t * 10) == u * t) by (nonlinear_arith)
            requires
                u == v * 10,
        ;
    }
}

/// Rounding goes to the nearest whole number, and of two that are equally near to the even one.
pub proof fn rounding_goes_to_the_nearest(units: int, divisor: int)
    requires
        divisor > 0,
    ensures
        2 * magnitude(units - half_even(units, divisor) * divisor) <= divisor,
        2 * magnitude(units - half_even(units, divisor) * divisor) == divisor ==> half_even(
            units,
            divisor,
        ) % 2 == 0,
{
    let m = magnitude(units) as int;
    let q = m / divisor;
    let r = m % divisor;
    vstd::arithmetic::div_mod::lemma_fundamental_div_mod(m, divisor);
    vstd::arithmetic::div_mod::lemma_mod_bound(m, divisor);
    let h = half_even(units, divisor);
    assert(divisor * q == q * divisor) by (nonlinear_arith);
    assert((q + 1) * divisor == q * divisor + divisor) by (nonlinear_arith);
    assert((-q) * divisor == -(q * divisor)) by (nonlinear_arith);
    assert((-(q + 1)) * divisor == -((q + 1) * divisor)) by (nonlinear_arith);
}

/// A number with no more decimal places than it may have is left as it is; any other one becomes
/// the nearest number with that many places.
pub proof fn cutting_goes_to_the_nearest(a: Dec, n: nat)
    requires
        a.valid(),
    ensures
        cut_to(a, n).valid(),
        cut_to(a, n).places() <= n || cut_to(a, n) == a,
        a.places() <= n ==> cut_to(a, n) == a,
        a.places() > n ==> cut_to(a, n).places() == n && 2 * magnitude(
            aligned(a, a.places()) - aligned(cut_to(a, n), a.places()),
        ) <= ten_to((a.places() - n) as nat),
{
    broadcast use dec_parts;

    if a.places() > n {
        let d = (a.places() - n) as nat;
        let t = ten_to(d);
        lemma_pow_positive(10, d);
        rounding_goes_to_the_nearest(a.units(), t);
        lemma_pow0(10);
        lemma_pow1(10);
        lemma_pow_increases(10, 1, d);
        let m = magnitude(a.units()) as int;
        vstd::arithmetic::div_mod::lemma_div_is_ordered_by_denominator(m, 10, t);
        vstd::arithmetic::div_mod::lemma_div_pos_is_pos(m, t);
        assert(in_range(half_even(a.units(), t), n));
        let u = a.units();
        assert(u * 1 == u);
        assert(aligned(a, a.places()) == u);
    }
}

/// A hundredth of a number is exact while there is room for two more places.
pub proof fn hundredths_are_exact(a: Dec)
    requires
        a.valid(),
        a.places() + 2 <= MAX_PLACES,
    ensures
        Dec::of(a.units(), a.places() + 2).valid(),
        is_quotient(a, Dec::of(100, 0), Dec::of(a.units(), a.places() + 2)),
{
    broadcast use dec_parts;

    lemma_pow_adds(10, a.places(), 2);
    assert(ten_to(2) == 100) by {
        reveal_with_fuel(pow, 3);
    }
    let u = a.units();
    let t = ten_to(a.places());
    assert(u * 100 * t == u * (t * 100)) by (nonlinear_arith);
}

} // verus!
