//! Rows of the live stream.
//!
//! A frame holds a key and a row of named values. The live server wraps the row in an envelope and
//! writes column names in lower case; other senders use neither. Both forms are read.

use vstd::arithmetic::power::{lemma_pow_increases, lemma_pow_positive, pow};
use vstd::prelude::*;

use crate::decimal::{digits, half_even, magnitude, rounding_goes_to_the_nearest};
use crate::marketstore::decode::{
    frac_at, made_up_id, shifted, stamp, stamps, synth_trade_id, to_stamp, Number,
};
use crate::text::{lowered, same_text};

verus! {

/// A value in a frame. A floating-point number is held as its bits.
#[derive(Debug)]
pub enum Value {
    Int(i64),
    Float(u64),
    Str(String),
    /// A nested row.
    Nested(Vec<Field>),
}

/// A named value. No two of a row have the same name.
#[derive(Debug)]
pub struct Field {
    pub name: String,
    pub value: Value,
}

/// A number in a frame.
#[derive(Clone, Copy, Debug, PartialEq, Eq, Structural)]
pub enum Num {
    Int(i64),
    /// The bits of a double-precision number.
    Float(u64),
}

// ----- numbers -----

/// The number, or the nearest one that 64 bits hold with a sign.
pub open spec fn saturated(n: int) -> int {
    if n > i64::MAX {
        i64::MAX as int
    } else if n < i64::MIN {
        i64::MIN as int
    } else {
        n
    }
}

/// The distance between double-precision numbers of magnitude `m`, a whole number: one up to
/// `2^53`, then doubling.
pub open spec fn double_unit(m: nat) -> nat
    decreases m,
{
    if m < 0x20_0000_0000_0000 {
        1
    } else {
        2 * double_unit(m / 2)
    }
}

/// The double-precision number nearest to `v`, halves rounded to even.
pub open spec fn nearest_double(v: int) -> int {
    let unit = double_unit(magnitude(v)) as int;
    half_even(v, unit) * unit
}

/// The whole part of a double-precision number given by its bits, cut off towards zero: zero for
/// what is not a number, and `2^63` for what is that large or infinite.
pub open spec fn whole_magnitude(bits: u64) -> nat {
    let exponent = (bits / 0x10_0000_0000_0000) % 2048;
    let fraction = bits % 0x10_0000_0000_0000;
    let digits = (fraction + 0x10_0000_0000_0000) as nat;
    if exponent < 1023 {
        0
    } else if exponent == 2047 && fraction != 0 {
        0
    } else if exponent >= 1086 {
        0x8000_0000_0000_0000
    } else if exponent >= 1075 {
        (digits * pow(2, (exponent - 1075) as nat)) as nat
    } else {
        (digits as int / pow(2, (1075 - exponent) as nat)) as nat
    }
}

/// A double-precision number given by its bits, cut off towards zero, or the nearest number that
/// 64 bits hold with a sign.
pub open spec fn truncated(bits: u64) -> int {
    let m = whole_magnitude(bits) as int;
    saturated(
        if bits >= 0x8000_0000_0000_0000 {
            -m
        } else {
            m
        },
    )
}

/// `2^k`.
fn power_of_two(k: u64) -> (r: u64)
    requires
        k <= 52,
    ensures
        r == pow(2, k as nat),
        1 <= r <= 0x10_0000_0000_0000,
{
    let mut p: u64 = 1;
    let mut i: u64 = 0;
    proof {
        reveal(pow);
        two_to_52();
    }
    while i < k
        invariant
            i <= k <= 52,
            p == pow(2, i as nat),
            1 <= p,
            pow(2, 52) == 0x10_0000_0000_0000,
        decreases k - i,
    {
        proof {
            reveal(pow);
            lemma_pow_increases(2, (i + 1) as nat, 52);
            assert(pow(2, (i + 1) as nat) == 2 * pow(2, i as nat));
        }
        p = p * 2;
        i = i + 1;
    }
    proof {
        lemma_pow_increases(2, k as nat, 52);
    }
    p
}

proof fn two_to_52()
    ensures
        pow(2, 52) == 0x10_0000_0000_0000,
        pow(2, 10) == 1024,
{
    reveal_with_fuel(pow, 53);
}

/// The double-precision number nearest to `v`, as a whole number.
fn through_double(v: i64) -> (r: i64)
    ensures
        r == saturated(nearest_double(v as int)),
{
    let m: u64 = if v < 0 {
        (-(v as i128)) as u64
    } else {
        v as u64
    };
    let mut unit: u64 = 1;
    let mut q: u64 = m;
    while q >= 0x20_0000_0000_0000
        invariant
            m <= 0x8000_0000_0000_0000,
            unit >= 1,
            q * unit <= m,
            q <= m,
            q >= 1 || unit == 1,
            double_unit(m as nat) == unit * double_unit(q as nat),
        decreases q,
    {
        let ghost d = double_unit((q / 2) as nat);
        assert(double_unit(q as nat) == 2 * d);
        assert(unit * (2 * d) == (unit * 2) * d) by (nonlinear_arith);
        assert((q / 2) * (unit * 2) <= q * unit) by (nonlinear_arith)
            requires
                q >= 0,
                unit >= 1,
        ;
        assert(unit <= 0x400) by (nonlinear_arith)
            requires
                q * unit <= m,
                m <= 0x8000_0000_0000_0000,
                q >= 0x20_0000_0000_0000,
                unit >= 1,
        ;
        q = q / 2;
        unit = unit * 2;
    }
    assert(unit as int * 1 == unit as int) by (nonlinear_arith);
    assert(double_unit(q as nat) == 1);
    assert(unit <= m || unit == 1) by (nonlinear_arith)
        requires
            q * unit <= m,
            unit >= 1,
            q >= 1 || unit == 1,
    ;
    let low: u64 = m / unit;
    let rest: u64 = m % unit;
    proof {
        vstd::arithmetic::div_mod::lemma_fundamental_div_mod(m as int, unit as int);
        assert(unit * low == low * unit) by (nonlinear_arith);
        assert(low <= m) by (nonlinear_arith)
            requires
                low * unit + rest == m,
                unit >= 1,
                rest >= 0,
                low >= 0,
        ;
    }
    let up = 2 * rest as u128 > unit as u128 || (2 * rest as u128 == unit as u128 && low % 2 == 1);
    let rounded: u64 = if up {
        low + 1
    } else {
        low
    };
    proof {
        assert(rounded * unit <= m + unit) by (nonlinear_arith)
            requires
                rounded <= low + 1,
                low * unit + rest == m,
                rest >= 0,
                unit >= 1,
        ;
        assert(half_even(v as int, unit as int) == if v < 0 {
            -(rounded as int)
        } else {
            rounded as int
        });
        assert((-(rounded as int)) * unit == -(rounded * unit)) by (nonlinear_arith);
        assert(rounded * unit >= 0) by (nonlinear_arith);
    }
    let value: i128 = rounded as i128 * unit as i128;
    let signed: i128 = if v < 0 {
        -value
    } else {
        value
    };
    if signed > 0x7fff_ffff_ffff_ffff {
        i64::MAX
    } else if signed < -0x8000_0000_0000_0000 {
        i64::MIN
    } else {
        signed as i64
    }
}

/// A double-precision number given by its bits, cut off towards zero.
fn truncate(bits: u64) -> (r: i64)
    ensures
        r == truncated(bits),
{
    let exponent: u64 = (bits / 0x10_0000_0000_0000) % 2048;
    let fraction: u64 = bits % 0x10_0000_0000_0000;
    let digits: u64 = fraction + 0x10_0000_0000_0000;
    let m: u128 = if exponent < 1023 {
        0
    } else if exponent == 2047 && fraction != 0 {
        0
    } else if exponent >= 1086 {
        0x8000_0000_0000_0000
    } else if exponent >= 1075 {
        let p: u64 = power_of_two(exponent - 1075);
        assert(digits * p <= 0x20_0000_0000_0000 * 0x10_0000_0000_0000) by (nonlinear_arith)
            requires
                digits <= 0x20_0000_0000_0000,
                p <= 0x10_0000_0000_0000,
        ;
        assert(digits * p >= 0) by (nonlinear_arith);
        digits as u128 * p as u128
    } else {
        let p: u64 = power_of_two(1075 - exponent);
        (digits / p) as u128
    };
    assert(m == whole_magnitude(bits));
    let signed: i128 = if bits >= 0x8000_0000_0000_0000 {
        -(m as i128)
    } else {
        m as i128
    };
    if signed > 0x7fff_ffff_ffff_ffff {
        i64::MAX
    } else if signed < -0x8000_0000_0000_0000 {
        i64::MIN
    } else {
        signed as i64
    }
}

impl Num {
    /// The number as a whole number: read as double precision and cut off towards zero.
    pub open spec fn whole(self) -> int {
        match self {
            Num::Int(v) => saturated(nearest_double(v as int)),
            Num::Float(bits) => truncated(bits),
        }
    }

    /// The number as a whole number.
    pub fn as_i64(self) -> (r: i64)
        ensures
            r == self.whole(),
    {
        match self {
            Num::Int(v) => through_double(v),
            Num::Float(bits) => truncate(bits),
        }
    }

    /// The number as it is stored.
    pub open spec fn stored(self) -> Number {
        match self {
            Num::Int(v) => Number::I8(v),
            Num::Float(bits) => Number::F8(bits),
        }
    }

    /// The number as it is stored.
    pub fn as_number(self) -> (r: Number)
        ensures
            r == self.stored(),
    {
        match self {
            Num::Int(v) => Number::I8(v),
            Num::Float(bits) => Number::F8(bits),
        }
    }
}

/// Whole numbers up to `2^53` in magnitude are read without rounding.
pub proof fn ordinary_numbers_stay(v: i64)
    requires
        -0x20_0000_0000_0000 <= v <= 0x20_0000_0000_0000,
    ensures
        Num::Int(v).whole() == v,
{
    let m = magnitude(v as int);
    if m == 0x20_0000_0000_0000 {
        assert(double_unit(m) == 2 * double_unit(m / 2));
        assert(double_unit(m / 2) == 1);
        assert(half_even(v as int, 2) * 2 == v);
    } else {
        assert(half_even(v as int, 1) * 1 == v);
    }
    let unit = double_unit(m) as int;
    let h = half_even(v as int, unit);
    assert(unit == 1 ==> h * unit == h) by (nonlinear_arith);
    assert(unit == 2 ==> h * unit == h * 2) by (nonlinear_arith);
    assert(nearest_double(v as int) == v);
}

// ----- rows -----

/// The place of the first field from `i` on with exactly this name.
pub open spec fn exact_from(row: Seq<Field>, key: Seq<char>, i: int) -> Option<int>
    decreases row.len() - i,
{
    if i < 0 || i >= row.len() {
        None
    } else if row[i].name@ == key {
        Some(i)
    } else {
        exact_from(row, key, i + 1)
    }
}

/// The place of the first field from `i` on with this name, the case of ASCII letters left out of
/// account.
pub open spec fn caseless_from(row: Seq<Field>, key: Seq<char>, i: int) -> Option<int>
    decreases row.len() - i,
{
    if i < 0 || i >= row.len() {
        None
    } else if lowered(row[i].name@) == lowered(key) {
        Some(i)
    } else {
        caseless_from(row, key, i + 1)
    }
}

/// The value of the field with this name: the one with exactly this name, else the first whose
/// name differs only in case.
pub open spec fn value_of(row: Seq<Field>, key: Seq<char>) -> Option<Value> {
    match exact_from(row, key, 0) {
        Some(i) => Some(row[i].value),
        None => match caseless_from(row, key, 0) {
            Some(i) => Some(row[i].value),
            None => None,
        },
    }
}

fn find_exact(row: &Vec<Field>, key: &str) -> (r: Option<usize>)
    ensures
        match (r, exact_from(row@, key@, 0)) {
            (Some(i), Some(k)) => i == k && i < row@.len(),
            (None, None) => true,
            _ => false,
        },
{
    let mut i: usize = 0;
    while i < row.len()
        invariant
            i <= row@.len(),
            exact_from(row@, key@, 0) == exact_from(row@, key@, i as int),
        decreases row@.len() - i,
    {
        if same_text(row[i].name.as_str(), key) {
            return Some(i);
        }
        i = i + 1;
    }
    None
}

fn find_caseless(row: &Vec<Field>, key: &str) -> (r: Option<usize>)
    ensures
        match (r, caseless_from(row@, key@, 0)) {
            (Some(i), Some(k)) => i == k && i < row@.len(),
            (None, None) => true,
            _ => false,
        },
{
    let lower = key.to_ascii_lowercase();
    let mut i: usize = 0;
    while i < row.len()
        invariant
            i <= row@.len(),
            lower@ == lowered(key@),
            caseless_from(row@, key@, 0) == caseless_from(row@, key@, i as int),
        decreases row@.len() - i,
    {
        if same_text(row[i].name.as_str().to_ascii_lowercase().as_str(), lower.as_str()) {
            return Some(i);
        }
        i = i + 1;
    }
    None
}

/// The value of the field with this name.
pub fn ws_field<'a>(row: &'a Vec<Field>, key: &str) -> (r: Option<&'a Value>)
    ensures
        match (r, value_of(row@, key@)) {
            (Some(a), Some(b)) => *a == b,
            (None, None) => true,
            _ => false,
        },
{
    match find_exact(row, key) {
        Some(i) => Some(&row[i].value),
        None => match find_caseless(row, key) {
            Some(i) => Some(&row[i].value),
            None => None,
        },
    }
}

impl Value {
    /// The number, if this is one.
    pub open spec fn num(self) -> Option<Num> {
        match self {
            Value::Int(v) => Some(Num::Int(v)),
            Value::Float(bits) => Some(Num::Float(bits)),
            _ => None,
        }
    }

    /// The text, if this is one.
    pub open spec fn text(self) -> Option<Seq<char>> {
        match self {
            Value::Str(s) => Some(s@),
            _ => None,
        }
    }

    /// The number, if this is one.
    pub fn as_num(&self) -> (r: Option<Num>)
        ensures
            r == self.num(),
    {
        match self {
            Value::Int(v) => Some(Num::Int(*v)),
            Value::Float(bits) => Some(Num::Float(*bits)),
            _ => None,
        }
    }

    /// The text, if this is one.
    pub fn as_str(&self) -> (r: Option<&str>)
        ensures
            match (r, self.text()) {
                (Some(a), Some(b)) => a@ == b,
                (None, None) => true,
                _ => false,
            },
    {
        match self {
            Value::Str(s) => Some(s.as_str()),
            _ => None,
        }
    }
}

/// The number in the field with this name, if there is one.
pub open spec fn number_of(row: Seq<Field>, key: Seq<char>) -> Option<Num> {
    match value_of(row, key) {
        Some(v) => v.num(),
        None => None,
    }
}

/// The text in the field with this name, if there is one.
pub open spec fn text_of(row: Seq<Field>, key: Seq<char>) -> Option<Seq<char>> {
    match value_of(row, key) {
        Some(v) => v.text(),
        None => None,
    }
}

fn field_number(row: &Vec<Field>, key: &str) -> (r: Option<Num>)
    ensures
        r == number_of(row@, key@),
{
    match ws_field(row, key) {
        Some(v) => v.as_num(),
        None => None,
    }
}

/// A frame of the stream.
#[derive(Debug)]
pub struct StreamPayload {
    pub key: String,
    pub data: Vec<Field>,
}

/// An error that the server sends.
#[derive(Clone, Debug)]
pub struct StreamError {
    pub error: String,
}

impl StreamPayload {
    /// The row: the nested one of an envelope, else the data itself.
    pub open spec fn contents(self) -> Seq<Field> {
        match exact_from(self.data@, "payload"@, 0) {
            Some(i) => match self.data@[i].value {
                Value::Nested(inner) => inner@,
                _ => self.data@,
            },
            None => self.data@,
        }
    }

    /// The row: the nested one of an envelope, else the data itself.
    pub fn row(&self) -> (r: &Vec<Field>)
        ensures
            r@ == self.contents(),
    {
        match find_exact(&self.data, "payload") {
            Some(i) => match &self.data[i].value {
                Value::Nested(inner) => inner,
                _ => &self.data,
            },
            None => &self.data,
        }
    }
}

/// A bar of the stream.
#[derive(Clone, Copy, Debug, PartialEq, Eq, Structural)]
pub struct BarRow {
    pub open: Number,
    pub high: Number,
    pub low: Number,
    pub close: Number,
    pub volume: Number,
    /// When the bar opened.
    pub ts_event: u64,
    /// When the bar closed.
    pub ts_init: u64,
}

/// A trade of the stream.
#[derive(Clone, Debug)]
pub struct TradeRow {
    pub price: Number,
    pub size: Number,
    pub trade_id: String,
    pub ts_event: u64,
}

/// A quote of the stream.
#[derive(Clone, Copy, Debug, PartialEq, Eq, Structural)]
pub struct QuoteRow {
    pub bid_price: Number,
    pub ask_price: Number,
    pub bid_size: Number,
    pub ask_size: Number,
    pub ts_event: u64,
}

/// The time of a row: `Err` without a number of seconds, `None` where it does not fit.
pub open spec fn row_time(row: Seq<Field>) -> Result<Option<u64>, ()> {
    match number_of(row, "Epoch"@) {
        None => Err(()),
        Some(epoch) => Ok(
            stamp(
                epoch.whole(),
                match number_of(row, "Nanoseconds"@) {
                    Some(frac) => frac.whole(),
                    None => 0,
                },
            ),
        ),
    }
}

fn read_time(row: &Vec<Field>) -> (r: Result<Option<u64>, ()>)
    ensures
        r == row_time(row@),
{
    let epoch: i64 = match field_number(row, "Epoch") {
        Some(n) => n.as_i64(),
        None => return Err(()),
    };
    let frac: i64 = match field_number(row, "Nanoseconds") {
        Some(n) => n.as_i64(),
        None => 0,
    };
    Ok(to_stamp(epoch, frac))
}

/// What is said of a row without a number for `key`; `what` names the kind of row.
pub open spec fn row_error(key: Seq<char>, what: Seq<char>) -> Seq<char> {
    "missing/invalid "@ + key + " in WS "@ + what
}

fn bad_field(key: &str, what: &str) -> (r: String)
    ensures
        r@ == row_error(key@, what@),
{
    "missing/invalid ".to_owned().concat(key).concat(" in WS ").concat(what)
}

/// The bar that a row holds, or the first field that is missing. `None` where a time does not fit.
pub open spec fn bar_in(row: Seq<Field>, delta: u64) -> Result<Option<BarRow>, Seq<char>> {
    match row_time(row) {
        Err(_) => Err(row_error("Epoch"@, "row"@)),
        Ok(None) => Ok(None),
        Ok(Some(ts)) => match (
            number_of(row, "Open"@),
            number_of(row, "High"@),
            number_of(row, "Low"@),
            number_of(row, "Close"@),
            number_of(row, "Volume"@),
        ) {
            (None, _, _, _, _) => Err(row_error("Open"@, "row"@)),
            (_, None, _, _, _) => Err(row_error("High"@, "row"@)),
            (_, _, None, _, _) => Err(row_error("Low"@, "row"@)),
            (_, _, _, None, _) => Err(row_error("Close"@, "row"@)),
            (_, _, _, _, None) => Err(row_error("Volume"@, "row"@)),
            (Some(open), Some(high), Some(low), Some(close), Some(volume)) => if ts + delta
                > u64::MAX {
                Ok(None)
            } else {
                Ok(
                    Some(
                        BarRow {
                            open: open.stored(),
                            high: high.stored(),
                            low: low.stored(),
                            close: close.stored(),
                            volume: volume.stored(),
                            ts_event: ts,
                            ts_init: (ts + delta) as u64,
                        },
                    ),
                )
            },
        },
    }
}

/// The bar that a row holds, which closes `ts_init_delta_ns` after it opened; `None` where a time
/// does not fit.
pub fn bar_from_ws_row(row: &Vec<Field>, ts_init_delta_ns: u64) -> (r: Result<
    Option<BarRow>,
    String,
>)
    ensures
        match (r, bar_in(row@, ts_init_delta_ns)) {
            (Ok(a), Ok(b)) => a == b,
            (Err(a), Err(b)) => a@ == b,
            _ => false,
        },
{
    let ts: u64 = match read_time(row) {
        Err(_) => return Err(bad_field("Epoch", "row")),
        Ok(None) => return Ok(None),
        Ok(Some(ts)) => ts,
    };
    let open = match field_number(row, "Open") {
        Some(n) => n.as_number(),
        None => return Err(bad_field("Open", "row")),
    };
    let high = match field_number(row, "High") {
        Some(n) => n.as_number(),
        None => return Err(bad_field("High", "row")),
    };
    let low = match field_number(row, "Low") {
        Some(n) => n.as_number(),
        None => return Err(bad_field("Low", "row")),
    };
    let close = match field_number(row, "Close") {
        Some(n) => n.as_number(),
        None => return Err(bad_field("Close", "row")),
    };
    let volume = match field_number(row, "Volume") {
        Some(n) => n.as_number(),
        None => return Err(bad_field("Volume", "row")),
    };
    if ts > u64::MAX - ts_init_delta_ns {
        return Ok(None);
    }
    Ok(
        Some(
            BarRow { open, high, low, close, volume, ts_event: ts, ts_init: ts + ts_init_delta_ns },
        ),
    )
}

/// The contents of a [`TradeRow`].
#[verifier::ext_equal]
pub struct TradeRowView {
    pub price: Number,
    pub size: Number,
    pub trade_id: Seq<char>,
    pub ts_event: u64,
}

impl View for TradeRow {
    type V = TradeRowView;

    open spec fn view(&self) -> TradeRowView {
        TradeRowView {
            price: self.price,
            size: self.size,
            trade_id: self.trade_id@,
            ts_event: self.ts_event,
        }
    }
}

/// The trade that a row holds, or the first field that is missing; an id that is missing is made
/// up. `None` where the time does not fit.
pub open spec fn trade_in(row: Seq<Field>) -> Result<Option<TradeRowView>, Seq<char>> {
    match row_time(row) {
        Err(_) => Err(row_error("Epoch"@, "trade row"@)),
        Ok(None) => Ok(None),
        Ok(Some(ts)) => match (number_of(row, "Price"@), number_of(row, "Size"@)) {
            (None, _) => Err(row_error("Price"@, "trade row"@)),
            (_, None) => Err(row_error("Size"@, "trade row"@)),
            (Some(price), Some(size)) => Ok(
                Some(
                    TradeRowView {
                        price: price.stored(),
                        size: size.stored(),
                        trade_id: match text_of(row, "TradeID"@) {
                            Some(id) => id,
                            None => made_up_id(ts, 0),
                        },
                        ts_event: ts,
                    },
                ),
            ),
        },
    }
}

/// The trade that a row holds; `None` where the time does not fit.
pub fn trade_from_ws_row(row: &Vec<Field>) -> (r: Result<Option<TradeRow>, String>)
    ensures
        match (r, trade_in(row@)) {
            (Ok(Some(a)), Ok(Some(b))) => a@ == b,
            (Ok(None), Ok(None)) => true,
            (Err(a), Err(b)) => a@ == b,
            _ => false,
        },
{
    let ts: u64 = match read_time(row) {
        Err(_) => return Err(bad_field("Epoch", "trade row")),
        Ok(None) => return Ok(None),
        Ok(Some(ts)) => ts,
    };
    let id = match ws_field(row, "TradeID") {
        Some(v) => v.as_str(),
        None => None,
    };
    let trade_id = match id {
        Some(s) => s.to_owned(),
        None => synth_trade_id(ts, 0),
    };
    let price = match field_number(row, "Price") {
        Some(n) => n.as_number(),
        None => return Err(bad_field("Price", "trade row")),
    };
    let size = match field_number(row, "Size") {
        Some(n) => n.as_number(),
        None => return Err(bad_field("Size", "trade row")),
    };
    Ok(Some(TradeRow { price, size, trade_id, ts_event: ts }))
}

/// The quote that a row holds, or the first field that is missing. `None` where the time does not
/// fit.
pub open spec fn quote_in(row: Seq<Field>) -> Result<Option<QuoteRow>, Seq<char>> {
    match row_time(row) {
        Err(_) => Err(row_error("Epoch"@, "quote row"@)),
        Ok(None) => Ok(None),
        Ok(Some(ts)) => match (
            number_of(row, "BidPrice"@),
            number_of(row, "AskPrice"@),
            number_of(row, "BidSize"@),
            number_of(row, "AskSize"@),
        ) {
            (None, _, _, _) => Err(row_error("BidPrice"@, "quote row"@)),
            (_, None, _, _) => Err(row_error("AskPrice"@, "quote row"@)),
            (_, _, None, _) => Err(row_error("BidSize"@, "quote row"@)),
            (_, _, _, None) => Err(row_error("AskSize"@, "quote row"@)),
            (Some(bid_price), Some(ask_price), Some(bid_size), Some(ask_size)) => Ok(
                Some(
                    QuoteRow {
                        bid_price: bid_price.stored(),
                        ask_price: ask_price.stored(),
                        bid_size: bid_size.stored(),
                        ask_size: ask_size.stored(),
                        ts_event: ts,
                    },
                ),
            ),
        },
    }
}

/// The quote that a row holds; `None` where the time does not fit.
pub fn quote_from_ws_row(row: &Vec<Field>) -> (r: Result<Option<QuoteRow>, String>)
    ensures
        match (r, quote_in(row@)) {
            (Ok(a), Ok(b)) => a == b,
            (Err(a), Err(b)) => a@ == b,
            _ => false,
        },
{
    let ts: u64 = match read_time(row) {
        Err(_) => return Err(bad_field("Epoch", "quote row")),
        Ok(None) => return Ok(None),
        Ok(Some(ts)) => ts,
    };
    let bid_price = match field_number(row, "BidPrice") {
        Some(n) => n.as_number(),
        None => return Err(bad_field("BidPrice", "quote row")),
    };
    let ask_price = match field_number(row, "AskPrice") {
        Some(n) => n.as_number(),
        None => return Err(bad_field("AskPrice", "quote row")),
    };
    let bid_size = match field_number(row, "BidSize") {
        Some(n) => n.as_number(),
        None => return Err(bad_field("BidSize", "quote row")),
    };
    let ask_size = match field_number(row, "AskSize") {
        Some(n) => n.as_number(),
        None => return Err(bad_field("AskSize", "quote row")),
    };
    Ok(Some(QuoteRow { bid_price, ask_price, bid_size, ask_size, ts_event: ts }))
}

// ----- laws -----

proof fn exact_is_caseless(row: Seq<Field>, key: Seq<char>, i: int)
    requires
        0 <= i <= row.len(),
        exact_from(row, key, i) is Some,
    ensures
        caseless_from(row, key, i) is Some,
    decreases row.len() - i,
{
    if i < row.len() && row[i].name@ != key && lowered(row[i].name@) != lowered(key) {
        exact_is_caseless(row, key, i + 1);
    }
}

proof fn caseless_only_needs_lowered(row: Seq<Field>, a: Seq<char>, b: Seq<char>, i: int)
    requires
        lowered(a) == lowered(b),
        0 <= i <= row.len(),
    ensures
        caseless_from(row, a, i) == caseless_from(row, b, i),
    decreases row.len() - i,
{
    if i < row.len() {
        caseless_only_needs_lowered(row, a, b, i + 1);
    }
}

/// One reader serves both dialects: whether a field is found does not depend on the case that its
/// name is asked for in.
pub proof fn names_are_found_in_any_case(row: Seq<Field>, a: Seq<char>, b: Seq<char>)
    requires
        lowered(a) == lowered(b),
    ensures
        value_of(row, a) is Some <==> value_of(row, b) is Some,
{
    caseless_only_needs_lowered(row, a, b, 0);
    if exact_from(row, a, 0) is Some {
        exact_is_caseless(row, a, 0);
    }
    if exact_from(row, b, 0) is Some {
        exact_is_caseless(row, b, 0);
    }
}

/// An envelope changes nothing: a frame whose data is an envelope around a row is read as that row,
/// and a frame without a field named payload is read as its own data.
pub proof fn envelopes_are_transparent(payload: StreamPayload, i: int, inner: Vec<Field>)
    ensures
        exact_from(payload.data@, "payload"@, 0) == Some(i) && payload.data@[i].value
            == Value::Nested(inner) ==> payload.contents() == inner@,
        exact_from(payload.data@, "payload"@, 0) is None ==> payload.contents()
            == payload.data@,
{
}

/// A bar of the stream is known when it closes: never before it opened.
pub proof fn bars_are_known_at_their_close(row: Seq<Field>, delta: u64, bar: BarRow)
    requires
        bar_in(row, delta) == Ok::<Option<BarRow>, Seq<char>>(Some(bar)),
    ensures
        bar.ts_init == bar.ts_event + delta,
{
}

/// The live stream and history agree on time: a bar of the stream has the times that a row of a
/// query's result has with the same seconds and nanoseconds.
pub proof fn live_and_history_agree_on_time(
    row: Seq<Field>,
    delta: u64,
    bar: BarRow,
    epochs: Seq<int>,
    nanos: Option<Seq<int>>,
    i: int,
)
    requires
        bar_in(row, delta) == Ok::<Option<BarRow>, Seq<char>>(Some(bar)),
        0 <= i < epochs.len(),
        number_of(row, "Epoch"@) matches Some(epoch) && epoch.whole() == epochs[i],
        frac_at(nanos, i) == match number_of(row, "Nanoseconds"@) {
            Some(frac) => frac.whole(),
            None => 0,
        },
    ensures
        stamps(epochs, nanos)[i] == bar.ts_event,
        shifted(stamps(epochs, nanos), delta)[i] == bar.ts_init,
{
}

/// Whether a row has exactly one field with this name, the case of ASCII letters left out of
/// account, and that field holds `v`.
pub open spec fn holds(row: Seq<Field>, key: Seq<char>, v: Value) -> bool {
    exists|k: int| #[trigger] is_only_named(row, k, key) && row[k].value == v
}

/// Whether field `k` is the only one with this name, the case of ASCII letters left out of account.
pub open spec fn is_only_named(row: Seq<Field>, k: int, key: Seq<char>) -> bool {
    &&& 0 <= k < row.len()
    &&& lowered(row[k].name@) == lowered(key)
    &&& forall|j: int|
        0 <= j < row.len() && j != k ==> lowered((#[trigger] row[j]).name@) != lowered(key)
}

/// Whether a row has no field with this name, the case of ASCII letters left out of account.
pub open spec fn lacks_field(row: Seq<Field>, key: Seq<char>) -> bool {
    forall|j: int| 0 <= j < row.len() ==> lowered((#[trigger] row[j]).name@) != lowered(key)
}

proof fn only_one_is_found(row: Seq<Field>, key: Seq<char>, k: int, i: int)
    requires
        is_only_named(row, k, key),
        0 <= i <= row.len(),
    ensures
        exact_from(row, key, i) matches Some(j) ==> j == k,
        i <= k ==> caseless_from(row, key, i) == Some(k),
    decreases row.len() - i,
{
    if i < row.len() {
        only_one_is_found(row, key, k, i + 1);
    }
}

proof fn none_is_found(row: Seq<Field>, key: Seq<char>, i: int)
    requires
        lacks_field(row, key),
        0 <= i <= row.len(),
    ensures
        exact_from(row, key, i) is None,
        caseless_from(row, key, i) is None,
    decreases row.len() - i,
{
    if i < row.len() {
        none_is_found(row, key, i + 1);
    }
}

/// A field is found by its name in whatever case the name is written, and its value is what is
/// read. A field that is not there is not found.
pub proof fn fields_are_found_by_name(row: Seq<Field>, key: Seq<char>, v: Value)
    ensures
        holds(row, key, v) ==> value_of(row, key) == Some(v),
        lacks_field(row, key) ==> value_of(row, key) is None,
{
    if holds(row, key, v) {
        let k = choose|k: int| #[trigger] is_only_named(row, k, key) && row[k].value == v;
        only_one_is_found(row, key, k, 0);
    }
    if lacks_field(row, key) {
        none_is_found(row, key, 0);
    }
}

proof fn first_exact(row: Seq<Field>, key: Seq<char>, k: int, i: int)
    requires
        0 <= i <= k < row.len(),
        row[k].name@ == key,
        forall|j: int| 0 <= j < k ==> (#[trigger] row[j]).name@ != key,
    ensures
        exact_from(row, key, i) == Some(k),
    decreases k - i,
{
    if i < k {
        first_exact(row, key, k, i + 1);
    }
}

/// Of a field with exactly the name that is asked for and fields whose names differ from it in
/// case, the exact one is read, wherever it stands.
pub proof fn exact_names_come_first(row: Seq<Field>, key: Seq<char>, k: int)
    requires
        0 <= k < row.len(),
        row[k].name@ == key,
        forall|j: int| 0 <= j < k ==> (#[trigger] row[j]).name@ != key,
    ensures
        value_of(row, key) == Some(row[k].value),
{
    first_exact(row, key, k, 0);
}

/// Whether a row's time is `epoch` seconds and `nanos` nanoseconds: from 1970 on, up to `2^53`
/// seconds, and within 63 bits of nanoseconds.
pub open spec fn has_time(row: Seq<Field>, epoch: i64, nanos: i64) -> bool {
    &&& holds(row, "Epoch"@, Value::Int(epoch))
    &&& holds(row, "Nanoseconds"@, Value::Int(nanos)) || lacks_field(row, "Nanoseconds"@) && nanos
        == 0
    &&& 0 <= epoch && epoch * 1_000_000_000 <= i64::MAX
    &&& 0 <= nanos < 1_000_000_000
    &&& epoch * 1_000_000_000 + nanos <= i64::MAX
}

proof fn time_is_read(row: Seq<Field>, epoch: i64, nanos: i64)
    requires
        has_time(row, epoch, nanos),
    ensures
        row_time(row) == Ok::<Option<u64>, ()>(Some((epoch * 1_000_000_000 + nanos) as u64)),
        0 <= epoch * 1_000_000_000 + nanos <= i64::MAX,
{
    fields_are_found_by_name(row, "Epoch"@, Value::Int(epoch));
    fields_are_found_by_name(row, "Nanoseconds"@, Value::Int(nanos));
    ordinary_numbers_stay(epoch);
    ordinary_numbers_stay(nanos);
}

/// The number that a value holds, in the form it is stored in: a whole number as it is, a
/// floating-point number bit by bit.
pub open spec fn stores(v: Value, n: Number) -> bool {
    match v {
        Value::Int(i) => n == Number::I8(i),
        Value::Float(bits) => n == Number::F8(bits),
        _ => false,
    }
}

/// Each field of a bar of the stream is the row's field of its own name, in whatever case. The bar
/// opened at the row's time and closes `delta` later.
pub proof fn bar_rows_are_their_fields(
    row: Seq<Field>,
    delta: u64,
    epoch: i64,
    nanos: i64,
    open: Value,
    high: Value,
    low: Value,
    close: Value,
    volume: Value,
    bar: BarRow,
)
    requires
        has_time(row, epoch, nanos),
        epoch * 1_000_000_000 + nanos + delta <= u64::MAX,
        holds(row, "Open"@, open) && stores(open, bar.open),
        holds(row, "High"@, high) && stores(high, bar.high),
        holds(row, "Low"@, low) && stores(low, bar.low),
        holds(row, "Close"@, close) && stores(close, bar.close),
        holds(row, "Volume"@, volume) && stores(volume, bar.volume),
        bar.ts_event == epoch * 1_000_000_000 + nanos,
        bar.ts_init == epoch * 1_000_000_000 + nanos + delta,
    ensures
        bar_in(row, delta) == Ok::<Option<BarRow>, Seq<char>>(Some(bar)),
{
    time_is_read(row, epoch, nanos);
    fields_are_found_by_name(row, "Open"@, open);
    fields_are_found_by_name(row, "High"@, high);
    fields_are_found_by_name(row, "Low"@, low);
    fields_are_found_by_name(row, "Close"@, close);
    fields_are_found_by_name(row, "Volume"@, volume);
}

/// Each field of a trade of the stream is the row's field of its own name, in whatever case. A
/// trade without an id that is a text gets its time, a hyphen and zero for one.
pub proof fn trade_rows_are_their_fields(
    row: Seq<Field>,
    epoch: i64,
    nanos: i64,
    price: Value,
    size: Value,
    id: String,
    trade: TradeRowView,
)
    requires
        has_time(row, epoch, nanos),
        holds(row, "Price"@, price) && stores(price, trade.price),
        holds(row, "Size"@, size) && stores(size, trade.size),
        holds(row, "TradeID"@, Value::Str(id)) && trade.trade_id == id@ || lacks_field(
            row,
            "TradeID"@,
        ) && trade.trade_id == digits((epoch * 1_000_000_000 + nanos) as nat) + seq!['-', '0'],
        trade.ts_event == epoch * 1_000_000_000 + nanos,
    ensures
        trade_in(row) == Ok::<Option<TradeRowView>, Seq<char>>(Some(trade)),
{
    time_is_read(row, epoch, nanos);
    fields_are_found_by_name(row, "Price"@, price);
    fields_are_found_by_name(row, "Size"@, size);
    fields_are_found_by_name(row, "TradeID"@, Value::Str(id));
    reveal_strlit("-");
    assert(digits(0) =~= seq!['0']);
    let n = digits((epoch * 1_000_000_000 + nanos) as nat);
    assert(n + "-"@ + digits(0) =~= n + seq!['-', '0']);
}

/// Each field of a quote of the stream is the row's field of its own name, in whatever case.
pub proof fn quote_rows_are_their_fields(
    row: Seq<Field>,
    epoch: i64,
    nanos: i64,
    bid_price: Value,
    ask_price: Value,
    bid_size: Value,
    ask_size: Value,
    quote: QuoteRow,
)
    requires
        has_time(row, epoch, nanos),
        holds(row, "BidPrice"@, bid_price) && stores(bid_price, quote.bid_price),
        holds(row, "AskPrice"@, ask_price) && stores(ask_price, quote.ask_price),
        holds(row, "BidSize"@, bid_size) && stores(bid_size, quote.bid_size),
        holds(row, "AskSize"@, ask_size) && stores(ask_size, quote.ask_size),
        quote.ts_event == epoch * 1_000_000_000 + nanos,
    ensures
        quote_in(row) == Ok::<Option<QuoteRow>, Seq<char>>(Some(quote)),
{
    time_is_read(row, epoch, nanos);
    fields_are_found_by_name(row, "BidPrice"@, bid_price);
    fields_are_found_by_name(row, "AskPrice"@, ask_price);
    fields_are_found_by_name(row, "BidSize"@, bid_size);
    fields_are_found_by_name(row, "AskSize"@, ask_size);
}

/// A row that lacks a field that it needs is an error: the seconds and every number of a bar, the
/// seconds, the price and the size of a trade, the seconds and every number of a quote.
pub proof fn fields_may_not_be_missing(row: Seq<Field>, delta: u64, epoch: i64, nanos: i64)
    ensures
        lacks_field(row, "Epoch"@) ==> bar_in(row, delta) is Err && trade_in(row) is Err
            && quote_in(row) is Err,
        has_time(row, epoch, nanos) && (lacks_field(row, "Open"@) || lacks_field(row, "High"@)
            || lacks_field(row, "Low"@) || lacks_field(row, "Close"@) || lacks_field(
            row,
            "Volume"@,
        )) ==> bar_in(row, delta) is Err,
        has_time(row, epoch, nanos) && (lacks_field(row, "Price"@) || lacks_field(row, "Size"@))
            ==> trade_in(row) is Err,
        has_time(row, epoch, nanos) && (lacks_field(row, "BidPrice"@) || lacks_field(
            row,
            "AskPrice"@,
        ) || lacks_field(row, "BidSize"@) || lacks_field(row, "AskSize"@)) ==> quote_in(row) is Err,
{
    if has_time(row, epoch, nanos) {
        time_is_read(row, epoch, nanos);
    }
    let v = Value::Int(0);
    fields_are_found_by_name(row, "Epoch"@, v);
    fields_are_found_by_name(row, "Open"@, v);
    fields_are_found_by_name(row, "High"@, v);
    fields_are_found_by_name(row, "Low"@, v);
    fields_are_found_by_name(row, "Close"@, v);
    fields_are_found_by_name(row, "Volume"@, v);
    fields_are_found_by_name(row, "Price"@, v);
    fields_are_found_by_name(row, "Size"@, v);
    fields_are_found_by_name(row, "BidPrice"@, v);
    fields_are_found_by_name(row, "AskPrice"@, v);
    fields_are_found_by_name(row, "BidSize"@, v);
    fields_are_found_by_name(row, "AskSize"@, v);
}

/// A whole number read as double precision is the nearest one that double precision has: never
/// further off than half the distance between two of them, and that distance is a power of two
/// times what it is for half the number.
pub proof fn wholes_are_read_to_the_nearest(v: i64)
    ensures
        2 * magnitude(v - nearest_double(v as int)) <= double_unit(magnitude(v as int)),
        magnitude(v as int) < 0x20_0000_0000_0000 ==> nearest_double(v as int) == v,
{
    unit_is_positive(magnitude(v as int));
    rounding_goes_to_the_nearest(v as int, double_unit(magnitude(v as int)) as int);
}

proof fn unit_is_positive(m: nat)
    ensures
        double_unit(m) >= 1,
    decreases m,
{
    if m >= 0x20_0000_0000_0000 {
        unit_is_positive(m / 2);
    }
}

/// A floating-point number of magnitude at least one and below `2^53` is cut off towards zero: with
/// its 53 binary digits `digits` and `k` of them behind the point, what is read is the greatest
/// whole number that is not above it in magnitude, with its sign.
pub proof fn floats_are_cut_towards_zero(bits: u64)
    requires
        1023 <= (bits / 0x10_0000_0000_0000) % 2048 < 1075,
    ensures
        ({
            let k = (1075 - (bits / 0x10_0000_0000_0000) % 2048) as nat;
            let digits = bits % 0x10_0000_0000_0000 + 0x10_0000_0000_0000;
            let m = magnitude(Num::Float(bits).whole()) as int;
            &&& m * pow(2, k) <= digits < (m + 1) * pow(2, k)
            &&& bits < 0x8000_0000_0000_0000 ==> Num::Float(bits).whole() >= 0
            &&& bits >= 0x8000_0000_0000_0000 ==> Num::Float(bits).whole() <= 0
        }),
{
    let k = (1075 - (bits / 0x10_0000_0000_0000) % 2048) as nat;
    let digits = bits % 0x10_0000_0000_0000 + 0x10_0000_0000_0000;
    let p = pow(2, k);
    lemma_pow_positive(2, k);
    let m = digits / p;
    vstd::arithmetic::div_mod::lemma_fundamental_div_mod(digits, p);
    vstd::arithmetic::div_mod::lemma_mod_bound(digits, p);
    vstd::arithmetic::div_mod::lemma_div_pos_is_pos(digits, p);
    vstd::arithmetic::div_mod::lemma_div_is_ordered_by_denominator(digits, 1, p);
    assert(p * m == m * p) by (nonlinear_arith);
    assert((m + 1) * p == m * p + p) by (nonlinear_arith);
}

/// Beyond what 64 bits hold with a sign, a floating-point number is read as the largest or the
/// smallest number that they do; what is not a number, and what is below one in magnitude, is read
/// as zero. A number with all its digits before the point is read in full.
pub proof fn floats_are_kept_in_range(bits: u64)
    ensures
        ({
            let exponent = (bits / 0x10_0000_0000_0000) % 2048;
            let fraction = bits % 0x10_0000_0000_0000;
            let whole = Num::Float(bits).whole();
            let positive = bits < 0x8000_0000_0000_0000;
            &&& exponent < 1023 ==> whole == 0
            &&& exponent == 2047 && fraction != 0 ==> whole == 0
            &&& exponent >= 1086 && (exponent != 2047 || fraction == 0) ==> whole == if positive {
                i64::MAX as int
            } else {
                i64::MIN as int
            }
            &&& 1075 <= exponent < 1086 ==> magnitude(whole) == (fraction + 0x10_0000_0000_0000)
                * pow(2, (exponent - 1075) as nat) && (positive <==> whole > 0)
        }),
{
    let exponent = (bits / 0x10_0000_0000_0000) % 2048;
    if 1075 <= exponent < 1086 {
        let k = (exponent - 1075) as nat;
        lemma_pow_positive(2, k);
        lemma_pow_increases(2, k, 10);
        two_to_52();
        let d = bits % 0x10_0000_0000_0000 + 0x10_0000_0000_0000;
        let p = pow(2, k);
        assert(0 < d * p <= 0x1f_ffff_ffff_ffff * 1024) by (nonlinear_arith)
            requires
                0 < d <= 0x1f_ffff_ffff_ffff,
                0 < p <= 1024,
        ;
    }
}

/// The distance between double-precision numbers is such that a number has 53 binary digits in
/// units of it.
pub proof fn doubles_have_53_digits(m: nat)
    requires
        m >= 0x10_0000_0000_0000,
    ensures
        double_unit(m) * 0x10_0000_0000_0000 <= m < double_unit(m) * 0x20_0000_0000_0000,
    decreases m,
{
    if m >= 0x20_0000_0000_0000 {
        doubles_have_53_digits(m / 2);
    }
}

/// A whole number that fits stays as near as double precision has it; one that rounds up to `2^63`
/// is read as the largest number of 64 bits.
pub proof fn wholes_are_kept_in_range(v: i64)
    ensures
        i64::MIN <= nearest_double(v as int) <= i64::MAX ==> Num::Int(v).whole() == nearest_double(
            v as int,
        ),
        nearest_double(v as int) > i64::MAX ==> Num::Int(v).whole() == i64::MAX,
{
}

/// The error of a row names the first field that it has no number for, and the kind of row.
pub proof fn the_missing_field_is_named(row: Seq<Field>, delta: u64, epoch: i64, nanos: i64)
    requires
        has_time(row, epoch, nanos),
    ensures
        ({
            let bar = bar_in(row, delta);
            let lacks = |key: Seq<char>| number_of(row, key) is None;
            &&& lacks("Open"@) ==> bar == Err::<Option<BarRow>, Seq<char>>(
                "missing/invalid "@ + "Open"@ + " in WS "@ + "row"@,
            )
            &&& !lacks("Open"@) && lacks("High"@) ==> bar == Err::<Option<BarRow>, Seq<char>>(
                "missing/invalid "@ + "High"@ + " in WS "@ + "row"@,
            )
            &&& !lacks("Open"@) && !lacks("High"@) && lacks("Low"@) ==> bar == Err::<
                Option<BarRow>,
                Seq<char>,
            >("missing/invalid "@ + "Low"@ + " in WS "@ + "row"@)
            &&& !lacks("Open"@) && !lacks("High"@) && !lacks("Low"@) && lacks("Close"@) ==> bar
                == Err::<Option<BarRow>, Seq<char>>(
                "missing/invalid "@ + "Close"@ + " in WS "@ + "row"@,
            )
            &&& !lacks("Open"@) && !lacks("High"@) && !lacks("Low"@) && !lacks("Close"@) && lacks(
                "Volume"@,
            ) ==> bar == Err::<Option<BarRow>, Seq<char>>(
                "missing/invalid "@ + "Volume"@ + " in WS "@ + "row"@,
            )
            &&& lacks("Price"@) ==> trade_in(row) == Err::<Option<TradeRowView>, Seq<char>>(
                "missing/invalid "@ + "Price"@ + " in WS "@ + "trade row"@,
            )
            &&& !lacks("Price"@) && lacks("Size"@) ==> trade_in(row) == Err::<
                Option<TradeRowView>,
                Seq<char>,
            >("missing/invalid "@ + "Size"@ + " in WS "@ + "trade row"@)
            &&& lacks("BidPrice"@) ==> quote_in(row) == Err::<Option<QuoteRow>, Seq<char>>(
                "missing/invalid "@ + "BidPrice"@ + " in WS "@ + "quote row"@,
            )
            &&& !lacks("BidPrice"@) && lacks("AskPrice"@) ==> quote_in(row) == Err::<
                Option<QuoteRow>,
                Seq<char>,
            >("missing/invalid "@ + "AskPrice"@ + " in WS "@ + "quote row"@)
            &&& !lacks("BidPrice"@) && !lacks("AskPrice"@) && lacks("BidSize"@) ==> quote_in(row)
                == Err::<Option<QuoteRow>, Seq<char>>(
                "missing/invalid "@ + "BidSize"@ + " in WS "@ + "quote row"@,
            )
            &&& !lacks("BidPrice"@) && !lacks("AskPrice"@) && !lacks("BidSize"@) && lacks("AskSize"@)
                ==> quote_in(row) == Err::<Option<QuoteRow>, Seq<char>>(
                "missing/invalid "@ + "AskSize"@ + " in WS "@ + "quote row"@,
            )
        }),
{
    time_is_read(row, epoch, nanos);
}

/// The error of a row without a number of seconds names the seconds, whatever else is missing.
pub proof fn missing_seconds_are_named(row: Seq<Field>, delta: u64)
    requires
        number_of(row, "Epoch"@) is None,
    ensures
        bar_in(row, delta) == Err::<Option<BarRow>, Seq<char>>(
            "missing/invalid "@ + "Epoch"@ + " in WS "@ + "row"@,
        ),
        trade_in(row) == Err::<Option<TradeRowView>, Seq<char>>(
            "missing/invalid "@ + "Epoch"@ + " in WS "@ + "trade row"@,
        ),
        quote_in(row) == Err::<Option<QuoteRow>, Seq<char>>(
            "missing/invalid "@ + "Epoch"@ + " in WS "@ + "quote row"@,
        ),
{
}

} // verus!
