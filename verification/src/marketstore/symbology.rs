//! Bar types and the store's keys.
//!
//! The store addresses a time series by a key `<symbol>/<timeframe>/<attribute group>`. The
//! attribute group of bars is `OHLCV`, and the timeframe holds the bar's step, as in
//! `AAPL/1Min/OHLCV`. A key has no venue.

use vstd::prelude::*;

use crate::decimal::digits;
use crate::text::{
    all_digits, alphabetic, chars_of, digits_write_out, is_digit, nat_text, parse_u32, same_text,
    split, split_is_not_empty, split_joined, split_single, split_text, u32_in, views, white_space,
};

verus! {

/// How a bar gathers what it sums up.
#[derive(Clone, Copy, Debug, PartialEq, Eq, Structural)]
pub enum BarAggregation {
    Tick,
    TickImbalance,
    TickRuns,
    Volume,
    VolumeImbalance,
    VolumeRuns,
    Value,
    ValueImbalance,
    ValueRuns,
    Millisecond,
    Second,
    Minute,
    Hour,
    Day,
    Week,
    Month,
    Year,
    Renko,
}

impl BarAggregation {
    /// The aggregation's name.
    pub open spec fn named(self) -> Seq<char> {
        match self {
            BarAggregation::Tick => "Tick"@,
            BarAggregation::TickImbalance => "TickImbalance"@,
            BarAggregation::TickRuns => "TickRuns"@,
            BarAggregation::Volume => "Volume"@,
            BarAggregation::VolumeImbalance => "VolumeImbalance"@,
            BarAggregation::VolumeRuns => "VolumeRuns"@,
            BarAggregation::Value => "Value"@,
            BarAggregation::ValueImbalance => "ValueImbalance"@,
            BarAggregation::ValueRuns => "ValueRuns"@,
            BarAggregation::Millisecond => "Millisecond"@,
            BarAggregation::Second => "Second"@,
            BarAggregation::Minute => "Minute"@,
            BarAggregation::Hour => "Hour"@,
            BarAggregation::Day => "Day"@,
            BarAggregation::Week => "Week"@,
            BarAggregation::Month => "Month"@,
            BarAggregation::Year => "Year"@,
            BarAggregation::Renko => "Renko"@,
        }
    }

    /// The aggregation's name.
    pub fn name(self) -> (r: &'static str)
        ensures
            r@ == self.named(),
    {
        match self {
            BarAggregation::Tick => "Tick",
            BarAggregation::TickImbalance => "TickImbalance",
            BarAggregation::TickRuns => "TickRuns",
            BarAggregation::Volume => "Volume",
            BarAggregation::VolumeImbalance => "VolumeImbalance",
            BarAggregation::VolumeRuns => "VolumeRuns",
            BarAggregation::Value => "Value",
            BarAggregation::ValueImbalance => "ValueImbalance",
            BarAggregation::ValueRuns => "ValueRuns",
            BarAggregation::Millisecond => "Millisecond",
            BarAggregation::Second => "Second",
            BarAggregation::Minute => "Minute",
            BarAggregation::Hour => "Hour",
            BarAggregation::Day => "Day",
            BarAggregation::Week => "Week",
            BarAggregation::Month => "Month",
            BarAggregation::Year => "Year",
            BarAggregation::Renko => "Renko",
        }
    }

    /// The number that the trading engine gives the aggregation, from 1 on in the order above.
    pub open spec fn number(self) -> int {
        match self {
            BarAggregation::Tick => 1,
            BarAggregation::TickImbalance => 2,
            BarAggregation::TickRuns => 3,
            BarAggregation::Volume => 4,
            BarAggregation::VolumeImbalance => 5,
            BarAggregation::VolumeRuns => 6,
            BarAggregation::Value => 7,
            BarAggregation::ValueImbalance => 8,
            BarAggregation::ValueRuns => 9,
            BarAggregation::Millisecond => 10,
            BarAggregation::Second => 11,
            BarAggregation::Minute => 12,
            BarAggregation::Hour => 13,
            BarAggregation::Day => 14,
            BarAggregation::Week => 15,
            BarAggregation::Month => 16,
            BarAggregation::Year => 17,
            BarAggregation::Renko => 18,
        }
    }

    /// The aggregation that has the number `n`, which is from 1 to 18.
    pub open spec fn of_number(n: int) -> BarAggregation {
        choose|a: BarAggregation| a.number() == n
    }

    /// The aggregation that has the number `n`.
    pub fn numbered(n: u8) -> (r: Option<BarAggregation>)
        ensures
            r matches Some(a) ==> a.number() == n && a == BarAggregation::of_number(n as int),
            r is None <==> n == 0 || n > 18,
    {
        let r = Self::by_number(n);
        proof {
            if let Some(a) = r {
                let b = BarAggregation::of_number(n as int);
                assert(b.number() == n);
                assert(a == b);
            }
        }
        r
    }

    fn by_number(n: u8) -> (r: Option<BarAggregation>)
        ensures
            r matches Some(a) ==> a.number() == n,
            r is None <==> n == 0 || n > 18,
    {
        match n {
            1 => Some(BarAggregation::Tick),
            2 => Some(BarAggregation::TickImbalance),
            3 => Some(BarAggregation::TickRuns),
            4 => Some(BarAggregation::Volume),
            5 => Some(BarAggregation::VolumeImbalance),
            6 => Some(BarAggregation::VolumeRuns),
            7 => Some(BarAggregation::Value),
            8 => Some(BarAggregation::ValueImbalance),
            9 => Some(BarAggregation::ValueRuns),
            10 => Some(BarAggregation::Millisecond),
            11 => Some(BarAggregation::Second),
            12 => Some(BarAggregation::Minute),
            13 => Some(BarAggregation::Hour),
            14 => Some(BarAggregation::Day),
            15 => Some(BarAggregation::Week),
            16 => Some(BarAggregation::Month),
            17 => Some(BarAggregation::Year),
            18 => Some(BarAggregation::Renko),
            _ => None,
        }
    }
}

/// The type of a bar.
#[derive(Clone, Debug)]
pub struct BarType {
    pub symbol: String,
    pub venue: String,
    pub step: u64,
    pub aggregation: BarAggregation,
    /// The bar type as the trading engine writes it.
    pub text: String,
}

/// The contents of a [`BarType`].
#[verifier::ext_equal]
pub struct BarTypeView {
    pub symbol: Seq<char>,
    pub venue: Seq<char>,
    pub step: int,
    pub aggregation: BarAggregation,
    pub text: Seq<char>,
}

impl View for BarType {
    type V = BarTypeView;

    open spec fn view(&self) -> BarTypeView {
        BarTypeView {
            symbol: self.symbol@,
            venue: self.venue@,
            step: self.step as int,
            aggregation: self.aggregation,
            text: self.text@,
        }
    }
}

/// The timeframe unit of an aggregation, if the store has it.
pub open spec fn unit_of(aggregation: BarAggregation) -> Option<Seq<char>> {
    match aggregation {
        BarAggregation::Second => Some("Sec"@),
        BarAggregation::Minute => Some("Min"@),
        BarAggregation::Hour => Some("H"@),
        BarAggregation::Day => Some("D"@),
        _ => None,
    }
}

/// What is said of an aggregation that the store does not have.
pub open spec fn aggregation_error(aggregation: BarAggregation) -> Seq<char> {
    "unsupported bar aggregation for MarketStore: "@ + aggregation.named()
}

/// The timeframe unit of an aggregation.
pub fn aggregation_suffix(aggregation: BarAggregation) -> (r: Result<&'static str, String>)
    ensures
        match (r, unit_of(aggregation)) {
            (Ok(s), Some(unit)) => s@ == unit,
            (Err(e), None) => e@ == aggregation_error(aggregation),
            _ => false,
        },
{
    match aggregation {
        BarAggregation::Second => Ok("Sec"),
        BarAggregation::Minute => Ok("Min"),
        BarAggregation::Hour => Ok("H"),
        BarAggregation::Day => Ok("D"),
        other => Err(
            "unsupported bar aggregation for MarketStore: ".to_owned().concat(other.name()),
        ),
    }
}

/// The key of bars with this symbol, step and unit.
pub open spec fn bar_key(symbol: Seq<char>, step: nat, unit: Seq<char>) -> Seq<char> {
    symbol + "/"@ + digits(step) + unit + "/OHLCV"@
}

/// The key of a bar type; it has none where the store does not have the aggregation.
pub fn bar_type_to_tbk(bar_type: &BarType) -> (r: Result<String, String>)
    ensures
        match (r, unit_of(bar_type.aggregation)) {
            (Ok(key), Some(unit)) => key@ == bar_key(bar_type.symbol@, bar_type.step as nat, unit),
            (Err(e), None) => e@ == aggregation_error(bar_type.aggregation),
            _ => false,
        },
{
    let suffix = match aggregation_suffix(bar_type.aggregation) {
        Ok(s) => s,
        Err(e) => return Err(e),
    };
    Ok(
        bar_type.symbol.clone().concat("/").concat(nat_text(bar_type.step).as_str()).concat(
            suffix,
        ).concat("/OHLCV"),
    )
}

/// The key of the trades of a symbol.
pub fn trade_tbk(symbol: &str) -> (r: String)
    ensures
        r@ == symbol@ + "/1Sec/TRADE"@,
{
    symbol.to_owned().concat("/1Sec/TRADE")
}

/// The key of the quotes of a symbol.
pub fn quote_tbk(symbol: &str) -> (r: String)
    ensures
        r@ == symbol@ + "/1Sec/QUOTE"@,
{
    symbol.to_owned().concat("/1Sec/QUOTE")
}

// ----- patterns -----

/// Whether a key matches a pattern: they have the same number of parts, and each part of the
/// pattern is `*` or that of the key.
pub open spec fn key_matches(key: Seq<char>, pattern: Seq<char>) -> bool {
    let k = split(key, '/');
    let p = split(pattern, '/');
    &&& k.len() == p.len()
    &&& parts_match(k, p, k.len() as int)
}

/// Whether the first `n` parts match.
pub open spec fn parts_match(k: Seq<Seq<char>>, p: Seq<Seq<char>>, n: int) -> bool {
    forall|i: int| 0 <= i < n ==> #[trigger] p[i] == "*"@ || p[i] == k[i]
}

/// Whether a key matches a pattern such as `*/1Min/OHLCV`.
pub fn tbk_matches_pattern(tbk: &str, pattern: &str) -> (r: bool)
    ensures
        r == key_matches(tbk@, pattern@),
{
    let t = split_text(tbk, '/');
    let p = split_text(pattern, '/');
    if t.len() != p.len() {
        return false;
    }
    let ghost k = split(tbk@, '/');
    let ghost q = split(pattern@, '/');
    let mut i: usize = 0;
    while i < t.len()
        invariant
            i <= t@.len(),
            t@.len() == p@.len(),
            k == views(t@) && k == split(tbk@, '/'),
            q == views(p@) && q == split(pattern@, '/'),
            parts_match(k, q, i as int),
        decreases t@.len() - i,
    {
        assert(q[i as int] == p@[i as int]@);
        assert(k[i as int] == t@[i as int]@);
        if !(same_text(p[i].as_str(), "*") || same_text(p[i].as_str(), t[i].as_str())) {
            assert(!parts_match(k, q, k.len() as int));
            return false;
        }
        i = i + 1;
    }
    true
}

// ----- keys to bar types -----

/// The first place from `i` on that holds a letter, or the length.
pub open spec fn letter_from(s: Seq<char>, i: int) -> int
    decreases s.len() - i,
{
    if 0 <= i < s.len() && !alphabetic(s[i]) {
        letter_from(s, i + 1)
    } else {
        i
    }
}

/// The aggregation of a timeframe unit.
pub open spec fn aggregation_of(unit: Seq<char>) -> Option<BarAggregation> {
    if unit == "Sec"@ {
        Some(BarAggregation::Second)
    } else if unit == "Min"@ {
        Some(BarAggregation::Minute)
    } else if unit == "H"@ {
        Some(BarAggregation::Hour)
    } else if unit == "D"@ {
        Some(BarAggregation::Day)
    } else {
        None
    }
}

/// The name of an aggregation in a bar type's text.
pub open spec fn aggregation_word(aggregation: BarAggregation) -> Seq<char> {
    match aggregation {
        BarAggregation::Second => "SECOND"@,
        BarAggregation::Minute => "MINUTE"@,
        BarAggregation::Hour => "HOUR"@,
        _ => "DAY"@,
    }
}

/// The text of a bar type, of last prices from outside.
pub open spec fn bar_type_text(
    symbol: Seq<char>,
    venue: Seq<char>,
    step: nat,
    aggregation: BarAggregation,
) -> Seq<char> {
    symbol + "."@ + venue + "-"@ + digits(step) + "-"@ + aggregation_word(aggregation)
        + "-LAST-EXTERNAL"@
}

/// What the parts of a key say: the symbol, the step and the aggregation; or what is wrong.
pub open spec fn read_key(key: Seq<char>) -> Result<(Seq<char>, nat, BarAggregation), Seq<char>> {
    let parts = split(key, '/');
    if parts.len() != 3 {
        Err("malformed TBK: "@ + key)
    } else if parts[2] != "OHLCV"@ {
        Err("not a bar TBK (attrgroup "@ + parts[2] + "): "@ + key)
    } else {
        let timeframe = parts[1];
        let cut = letter_from(timeframe, 0);
        let step = timeframe.take(cut);
        let unit = timeframe.skip(cut);
        if cut >= timeframe.len() {
            Err("no unit in timeframe "@ + timeframe)
        } else if aggregation_of(unit) is None {
            Err("unsupported TBK timeframe unit: "@ + unit)
        } else if u32_in(step) is None {
            Err("bad step "@ + step)
        } else {
            Ok((parts[0], u32_in(step)->0, aggregation_of(unit)->0))
        }
    }
}

/// Whether a step is one that bars of this aggregation can have: it divides the next greater unit
/// and is less than that unit.
pub open spec fn step_fits(step: nat, aggregation: BarAggregation) -> bool {
    &&& 0 < step <= u32::MAX
    &&& match aggregation {
        BarAggregation::Second => step < 60 && 60nat % step == 0,
        BarAggregation::Minute => step < 60 && 60nat % step == 0,
        BarAggregation::Hour => step < 24 && 24nat % step == 0,
        BarAggregation::Day => true,
        _ => false,
    }
}

/// Whether a text holds more than white space, and no `@`.
pub open spec fn is_plain(s: Seq<char>) -> bool {
    &&& exists|i: int| 0 <= i < s.len() && !white_space(#[trigger] s[i])
    &&& !s.contains('@')
}

/// Whether a text is plain, ASCII and without a point.
pub open spec fn is_plain_venue(s: Seq<char>) -> bool {
    &&& is_plain(s)
    &&& forall|i: int| 0 <= i < s.len() ==> (#[trigger] s[i] as u32) < 128 && s[i] != '.'
}

/// Whether a bar type of these parts is one that the trading engine reads back from its text.
pub open spec fn is_readable(
    symbol: Seq<char>,
    venue: Seq<char>,
    step: nat,
    aggregation: BarAggregation,
) -> bool {
    is_plain(symbol) && is_plain_venue(venue) && step_fits(step, aggregation)
}

/// What `BarType::from_str` makes of a text: its symbol, venue, step, the number of its
/// aggregation and its own text; an error by the text that it displays as.
pub uninterp spec fn parsed_bar_type(s: Seq<char>) -> Result<
    (Seq<char>, Seq<char>, int, int, Seq<char>),
    Seq<char>,
>;

/// What is read from a bar type.
struct Parsed {
    symbol: String,
    venue: String,
    step: u64,
    aggregation: u8,
    text: String,
}

/// Whether `r` is the bar type, or the text of the error, that `named` stands for.
spec fn is_parsed_bar_type(
    r: Result<Parsed, String>,
    named: Result<(Seq<char>, Seq<char>, int, int, Seq<char>), Seq<char>>,
) -> bool {
    match (r, named) {
        (Ok(p), Ok(n)) => p.symbol@ == n.0 && p.venue@ == n.1 && p.step == n.2 && p.aggregation
            == n.3 && p.text@ == n.4,
        (Err(a), Err(b)) => a@ == b,
        _ => false,
    }
}

/// `BarType::from_str` on a text. Which texts it reads is left to the name, except that the text of
/// a bar type with a plain symbol and venue and a step that fits is read back as its parts. The
/// aggregations are numbered from 1 to 18.
#[verifier::external_body]
fn outside_bar_type(s: &str) -> (r: Result<Parsed, String>)
    ensures
        is_parsed_bar_type(r, parsed_bar_type(s@)),
        r matches Ok(p) ==> 1 <= p.aggregation <= 18,
        forall|symbol: Seq<char>, venue: Seq<char>, step: nat, aggregation: BarAggregation|
            is_readable(symbol, venue, step, aggregation) && s@ == #[trigger] bar_type_text(
                symbol,
                venue,
                step,
                aggregation,
            ) ==> is_parsed_bar_type(
                r,
                Ok((symbol, venue, step as int, aggregation.number(), s@)),
            ),
{
    let parsed: Result<nautilus_model::data::BarType, _> = s.parse();
    parsed.map(|b| Parsed {
        symbol: b.instrument_id().symbol.to_string(),
        venue: b.instrument_id().venue.to_string(),
        step: b.spec().step.get() as u64,
        aggregation: b.spec().aggregation as u8,
        text: b.to_string(),
    }).map_err(|e| e.to_string())
}

/// The bar type that these parts make up.
pub open spec fn bar_type_of(parts: (Seq<char>, Seq<char>, int, int, Seq<char>)) -> BarTypeView {
    BarTypeView {
        symbol: parts.0,
        venue: parts.1,
        step: parts.2,
        aggregation: BarAggregation::of_number(parts.3),
        text: parts.4,
    }
}

/// What a key and a venue come to: the parts of the key, then what the trading engine makes of
/// them.
pub open spec fn key_bar_type(key: Seq<char>, venue: Seq<char>) -> Result<BarTypeView, Seq<char>> {
    match read_key(key) {
        Err(e) => Err(e),
        Ok((symbol, step, aggregation)) => {
            let text = bar_type_text(symbol, venue, step, aggregation);
            match parsed_bar_type(text) {
                Ok(parts) => Ok(bar_type_of(parts)),
                Err(e) => Err("bar type "@ + text + ": "@ + e),
            }
        },
    }
}

/// Whether `r` is the bar type, or the text of the error, that `named` stands for.
pub open spec fn is_bar_type(
    r: Result<BarType, String>,
    named: Result<BarTypeView, Seq<char>>,
) -> bool {
    match (r, named) {
        (Ok(a), Ok(b)) => a@ == b,
        (Err(a), Err(b)) => a@ == b,
        _ => false,
    }
}

/// The bar type that a text stands for, or the text of the error.
pub fn parse_bar_type(s: &str) -> (r: Result<BarType, String>)
    ensures
        match (r, parsed_bar_type(s@)) {
            (Ok(a), Ok(parts)) => a@ == bar_type_of(parts),
            (Err(a), Err(b)) => a@ == b,
            _ => false,
        },
        forall|symbol: Seq<char>, venue: Seq<char>, step: nat, aggregation: BarAggregation|
            is_readable(symbol, venue, step, aggregation) && s@ == #[trigger] bar_type_text(
                symbol,
                venue,
                step,
                aggregation,
            ) ==> (r matches Ok(b) && b@ == (BarTypeView {
                symbol,
                venue,
                step: step as int,
                aggregation,
                text: s@,
            })),
{
    match outside_bar_type(s) {
        Ok(p) => {
            let aggregation = BarAggregation::numbered(p.aggregation).unwrap();
            Ok(
                BarType {
                    symbol: p.symbol,
                    venue: p.venue,
                    step: p.step,
                    aggregation,
                    text: p.text,
                },
            )
        },
        Err(e) => Err(e),
    }
}

/// The place of the first letter, or the length.
fn find_letter(chars: &Vec<char>) -> (r: usize)
    ensures
        r == letter_from(chars@, 0),
        r <= chars@.len(),
{
    let mut i: usize = 0;
    while i < chars.len() && !chars[i].is_alphabetic()
        invariant
            i <= chars@.len(),
            letter_from(chars@, 0) == letter_from(chars@, i as int),
        decreases chars@.len() - i,
    {
        i = i + 1;
    }
    i
}

/// What the parts of a key say.
fn read_tbk(tbk: &str) -> (r: Result<(String, u32, BarAggregation), String>)
    ensures
        match (r, read_key(tbk@)) {
            (Ok(a), Ok(b)) => a.0@ == b.0 && a.1 == b.1 && a.2 == b.2,
            (Err(a), Err(b)) => a@ == b,
            _ => false,
        },
{
    let parts = split_text(tbk, '/');
    if parts.len() != 3 {
        return Err("malformed TBK: ".to_owned().concat(tbk));
    }
    let ghost p = split(tbk@, '/');
    assert(p[0] == parts@[0]@ && p[1] == parts@[1]@ && p[2] == parts@[2]@) by {
        assert(p == views(parts@));
    }
    if !same_text(parts[2].as_str(), "OHLCV") {
        return Err(
            "not a bar TBK (attrgroup ".to_owned().concat(parts[2].as_str()).concat("): ").concat(
                tbk,
            ),
        );
    }
    let timeframe = chars_of(parts[1].as_str());
    let cut: usize = find_letter(&timeframe);
    if cut >= timeframe.len() {
        return Err("no unit in timeframe ".to_owned().concat(parts[1].as_str()));
    }
    let step_text = parts[1].as_str().substring_char(0, cut);
    let unit = parts[1].as_str().substring_char(cut, timeframe.len());
    assert(step_text@ =~= p[1].take(cut as int));
    assert(unit@ =~= p[1].skip(cut as int));
    let aggregation = if same_text(unit, "Sec") {
        BarAggregation::Second
    } else if same_text(unit, "Min") {
        BarAggregation::Minute
    } else if same_text(unit, "H") {
        BarAggregation::Hour
    } else if same_text(unit, "D") {
        BarAggregation::Day
    } else {
        return Err("unsupported TBK timeframe unit: ".to_owned().concat(unit));
    };
    match parse_u32(&chars_of(step_text)) {
        Some(step) => Ok((parts[0].clone(), step, aggregation)),
        None => Err("bad step ".to_owned().concat(step_text)),
    }
}

/// The bar type of a key of bars, at a venue. The key of a bar type with a plain symbol and a step
/// that fits gives that bar type back.
pub fn tbk_to_bar_type(tbk: &str, venue: &str) -> (r: Result<BarType, String>)
    ensures
        is_bar_type(r, key_bar_type(tbk@, venue@)),
        forall|symbol: Seq<char>, step: nat, aggregation: BarAggregation|
            #![trigger step_fits(step, aggregation), is_plain(symbol)]
            is_readable(symbol, venue@, step, aggregation) && !symbol.contains('/') && (unit_of(
                aggregation,
            ) matches Some(unit) && tbk@ == bar_key(symbol, step, unit)) ==> (r matches Ok(b) && b@
                == (BarTypeView {
                symbol,
                venue: venue@,
                step: step as int,
                aggregation,
                text: bar_type_text(symbol, venue@, step, aggregation),
            })),
{
    proof {
        assert forall|symbol: Seq<char>, step: nat, aggregation: BarAggregation|
            #![trigger step_fits(step, aggregation), is_plain(symbol)]
            is_readable(symbol, venue@, step, aggregation) && !symbol.contains('/') && (unit_of(
                aggregation,
            ) matches Some(unit) && tbk@ == bar_key(symbol, step, unit)) implies read_key(tbk@)
            == Ok::<(Seq<char>, nat, BarAggregation), Seq<char>>((symbol, step, aggregation)) by {
            keys_read_back(symbol, step, aggregation);
        }
    }
    let (symbol, step, aggregation) = match read_tbk(tbk) {
        Ok(parts) => parts,
        Err(e) => return Err(e),
    };
    let word = match aggregation {
        BarAggregation::Second => "SECOND",
        BarAggregation::Minute => "MINUTE",
        BarAggregation::Hour => "HOUR",
        _ => "DAY",
    };
    let text = symbol.concat(".").concat(venue).concat("-").concat(
        nat_text(step as u64).as_str(),
    ).concat("-").concat(word).concat("-LAST-EXTERNAL");
    match parse_bar_type(text.as_str()) {
        Ok(b) => Ok(b),
        Err(e) => Err(
            "bar type ".to_owned().concat(text.as_str()).concat(": ").concat(e.as_str()),
        ),
    }
}

// ----- the length of bars -----

/// The nanoseconds of one step of a time-based aggregation. A month counts as 30 days and a year
/// as 365.
pub open spec fn step_nanos(aggregation: BarAggregation) -> Option<u64> {
    match aggregation {
        BarAggregation::Millisecond => Some(1_000_000),
        BarAggregation::Second => Some(1_000_000_000),
        BarAggregation::Minute => Some(60_000_000_000),
        BarAggregation::Hour => Some(3_600_000_000_000),
        BarAggregation::Day => Some(86_400_000_000_000),
        BarAggregation::Week => Some(604_800_000_000_000),
        BarAggregation::Month => Some(2_592_000_000_000_000),
        BarAggregation::Year => Some(31_536_000_000_000_000),
        _ => None,
    }
}

/// The nanoseconds from the open of a bar to its close, where they fit in 63 bits.
pub open spec fn interval_of(aggregation: BarAggregation, step: int) -> Option<int> {
    match step_nanos(aggregation) {
        Some(nanos) => if step * nanos <= i64::MAX {
            Some(step * nanos)
        } else {
            None
        },
        None => None,
    }
}

/// The nanoseconds from the open of a bar to its close: the step times the length of its unit.
/// `None` for bars that are not based on time, and for a length that does not fit in 63 bits.
pub fn bar_interval_ns(bar_type: &BarType) -> (r: Option<u64>)
    ensures
        match (r, interval_of(bar_type.aggregation, bar_type.step as int)) {
            (Some(a), Some(b)) => a == b,
            (None, None) => true,
            _ => false,
        },
{
    let nanos: u64 = match bar_type.aggregation {
        BarAggregation::Millisecond => 1_000_000,
        BarAggregation::Second => 1_000_000_000,
        BarAggregation::Minute => 60_000_000_000,
        BarAggregation::Hour => 3_600_000_000_000,
        BarAggregation::Day => 86_400_000_000_000,
        BarAggregation::Week => 604_800_000_000_000,
        BarAggregation::Month => 2_592_000_000_000_000,
        BarAggregation::Year => 31_536_000_000_000_000,
        _ => return None,
    };
    let step = bar_type.step;
    assert(step * nanos <= 0xffff_ffff_ffff_ffff * 31_536_000_000_000_000) by (nonlinear_arith)
        requires
            step <= 0xffff_ffff_ffff_ffff,
            nanos <= 31_536_000_000_000_000,
    ;
    let interval: u128 = step as u128 * nanos as u128;
    if interval <= 0x7fff_ffff_ffff_ffff {
        Some(interval as u64)
    } else {
        None
    }
}

// ----- laws -----

proof fn digits_hold_no_letter(s: Seq<char>, unit: Seq<char>, i: int)
    requires
        all_digits(s),
        0 <= i <= s.len(),
        unit.len() > 0,
        alphabetic(unit[0]),
    ensures
        letter_from(s + unit, i) == s.len(),
    decreases s.len() - i,
{
    let t = s + unit;
    if i < s.len() {
        assert(is_digit(s[i]));
        assert(t[i] == s[i]);
        digits_hold_no_letter(s, unit, i + 1);
    } else {
        assert(t[i] == unit[0]);
    }
}

proof fn joined_contains(a: Seq<char>, b: Seq<char>, c: char)
    ensures
        (a + b).contains(c) <==> a.contains(c) || b.contains(c),
{
    let t = a + b;
    if a.contains(c) {
        let i = choose|i: int| 0 <= i < a.len() && a[i] == c;
        assert(t[i] == c);
    }
    if b.contains(c) {
        let i = choose|i: int| 0 <= i < b.len() && b[i] == c;
        assert(t[a.len() + i] == c);
    }
    if t.contains(c) {
        let i = choose|i: int| 0 <= i < t.len() && t[i] == c;
        if i < a.len() {
            assert(a[i] == c);
        } else {
            assert(b[i - a.len()] == c);
        }
    }
}

/// Reading a key is the reverse of writing it: the key of a bar type gives back the symbol, the
/// step and the aggregation, for every symbol without a slash and every step below `2^32`.
pub proof fn keys_read_back(symbol: Seq<char>, step: nat, aggregation: BarAggregation)
    requires
        !symbol.contains('/'),
        step <= u32::MAX,
        unit_of(aggregation) is Some,
    ensures
        read_key(bar_key(symbol, step, unit_of(aggregation)->0)) == Ok::<
            (Seq<char>, nat, BarAggregation),
            Seq<char>,
        >((symbol, step, aggregation)),
{
    reveal_strlit("/");
    reveal_strlit("OHLCV");
    reveal_strlit("/OHLCV");
    reveal_strlit("Sec");
    reveal_strlit("Min");
    reveal_strlit("H");
    reveal_strlit("D");
    let unit = unit_of(aggregation)->0;
    let number = digits(step);
    digits_write_out(step);
    let timeframe = number + unit;
    let key = bar_key(symbol, step, unit);
    assert("/"@ =~= seq!['/']);
    assert("/OHLCV"@ =~= seq!['/'] + "OHLCV"@);
    assert(key =~= (symbol + seq!['/'] + timeframe) + seq!['/'] + "OHLCV"@);
    assert(unit.len() > 0 && alphabetic(unit[0]) && !unit.contains('/'));
    assert(!number.contains('/')) by {
        if number.contains('/') {
            let i = choose|i: int| 0 <= i < number.len() && number[i] == '/';
            assert(is_digit(number[i]));
        }
    }
    joined_contains(number, unit, '/');
    assert(!"OHLCV"@.contains('/'));
    split_single(symbol, '/');
    split_single(timeframe, '/');
    split_single("OHLCV"@, '/');
    split_joined(symbol, timeframe, '/');
    split_joined(symbol + seq!['/'] + timeframe, "OHLCV"@, '/');
    let parts = split(key, '/');
    assert(parts =~= seq![symbol, timeframe, "OHLCV"@]);
    digits_hold_no_letter(number, unit, 0);
    assert(timeframe.take(number.len() as int) =~= number);
    assert(timeframe.skip(number.len() as int) =~= unit);
    assert("Sec"@.len() == 3 && "Min"@.len() == 3 && "H"@.len() == 1 && "D"@.len() == 1);
    assert("Sec"@[0] == 'S' && "Min"@[0] == 'M' && "H"@[0] == 'H' && "D"@[0] == 'D');
    assert(aggregation_of(unit) == Some(aggregation));
    assert(number[0] != '+') by {
        assert(is_digit(number[0]));
    }
    assert(u32_in(number) == Some(step));
}

proof fn same_ending(a: Seq<char>, b: Seq<char>, end: Seq<char>)
    requires
        a + end == b + end,
    ensures
        a == b,
{
    let t = a + end;
    let u = b + end;
    assert(t.len() == a.len() + end.len() && u.len() == b.len() + end.len());
    assert forall|i: int| 0 <= i < a.len() implies a[i] == b[i] by {
        assert(t[i] == u[i]);
    }
    assert(a =~= b);
}

/// Keys tell apart what they stand for: bars, trades and quotes never share one, and neither do the
/// trades, or the quotes, of two symbols.
pub proof fn keys_tell_kinds_apart(a: Seq<char>, b: Seq<char>, step: nat, unit: Seq<char>)
    ensures
        a + "/1Sec/TRADE"@ != b + "/1Sec/QUOTE"@,
        a + "/1Sec/TRADE"@ != bar_key(b, step, unit),
        a + "/1Sec/QUOTE"@ != bar_key(b, step, unit),
        a + "/1Sec/TRADE"@ == b + "/1Sec/TRADE"@ ==> a == b,
        a + "/1Sec/QUOTE"@ == b + "/1Sec/QUOTE"@ ==> a == b,
{
    reveal_strlit("/1Sec/TRADE");
    reveal_strlit("/1Sec/QUOTE");
    reveal_strlit("/OHLCV");
    let trade = a + "/1Sec/TRADE"@;
    let quote = a + "/1Sec/QUOTE"@;
    let other = b + "/1Sec/QUOTE"@;
    let bars = bar_key(b, step, unit);
    assert(trade[trade.len() - 1] == 'E' && trade[trade.len() - 2] == 'D');
    assert(quote[quote.len() - 1] == 'E');
    assert(other[other.len() - 2] == 'T');
    assert(bars[bars.len() - 1] == 'V');
    if a + "/1Sec/TRADE"@ == b + "/1Sec/TRADE"@ {
        same_ending(a, b, "/1Sec/TRADE"@);
    }
    if a + "/1Sec/QUOTE"@ == b + "/1Sec/QUOTE"@ {
        same_ending(a, b, "/1Sec/QUOTE"@);
    }
}

/// Every key matches itself as a pattern.
pub proof fn keys_match_themselves(key: Seq<char>)
    ensures
        key_matches(key, key),
{
}

/// A star in place of the symbol matches every symbol without a slash, and nothing else changes.
pub proof fn star_matches_every_symbol(symbol: Seq<char>, rest: Seq<char>, pattern: Seq<char>)
    requires
        !symbol.contains('/'),
    ensures
        key_matches(symbol + "/"@ + rest, "*/"@ + pattern) <==> key_matches(rest, pattern),
{
    reveal_strlit("/");
    reveal_strlit("*/");
    reveal_strlit("*");
    assert("/"@ =~= seq!['/']);
    assert("*/"@ + pattern =~= "*"@ + seq!['/'] + pattern);
    assert(!"*"@.contains('/'));
    split_single(symbol, '/');
    split_single("*"@, '/');
    split_joined(symbol, rest, '/');
    split_joined("*"@, pattern, '/');
    let k = split(symbol + "/"@ + rest, '/');
    let p = split("*/"@ + pattern, '/');
    let kr = split(rest, '/');
    let pr = split(pattern, '/');
    assert(k =~= seq![symbol] + kr);
    assert(p =~= seq!["*"@] + pr);
    if k.len() == p.len() {
        if parts_match(k, p, k.len() as int) {
            assert forall|i: int| 0 <= i < kr.len() implies #[trigger] pr[i] == "*"@ || pr[i]
                == kr[i] by {
                assert(p[i + 1] == pr[i]);
                assert(k[i + 1] == kr[i]);
            }
        }
        if parts_match(kr, pr, kr.len() as int) {
            assert forall|i: int| 0 <= i < k.len() implies #[trigger] p[i] == "*"@ || p[i]
                == k[i] by {
                if i > 0 {
                    assert(pr[i - 1] == p[i]);
                    assert(kr[i - 1] == k[i]);
                }
            }
        }
    }
}

/// The store has bars of seconds, minutes, hours and days, under the units `Sec`, `Min`, `H` and
/// `D`, and no others.
pub proof fn units_of_the_store(aggregation: BarAggregation)
    ensures
        aggregation == BarAggregation::Second ==> unit_of(aggregation) == Some("Sec"@),
        aggregation == BarAggregation::Minute ==> unit_of(aggregation) == Some("Min"@),
        aggregation == BarAggregation::Hour ==> unit_of(aggregation) == Some("H"@),
        aggregation == BarAggregation::Day ==> unit_of(aggregation) == Some("D"@),
        aggregation != BarAggregation::Second && aggregation != BarAggregation::Minute
            && aggregation != BarAggregation::Hour && aggregation != BarAggregation::Day
            ==> unit_of(aggregation) is None,
{
}

/// A key is its parts with slashes between: the symbol, the step right before its unit, and the
/// word for bars.
pub proof fn keys_are_their_parts(symbol: Seq<char>, step: nat, unit: Seq<char>)
    requires
        !symbol.contains('/'),
        !unit.contains('/'),
    ensures
        split(bar_key(symbol, step, unit), '/') == seq![symbol, digits(step) + unit, "OHLCV"@],
{
    reveal_strlit("/");
    reveal_strlit("OHLCV");
    reveal_strlit("/OHLCV");
    let number = digits(step);
    digits_write_out(step);
    let timeframe = number + unit;
    let key = bar_key(symbol, step, unit);
    assert("/"@ =~= seq!['/']);
    assert("/OHLCV"@ =~= seq!['/'] + "OHLCV"@);
    assert(key =~= (symbol + seq!['/'] + timeframe) + seq!['/'] + "OHLCV"@);
    assert(!number.contains('/')) by {
        if number.contains('/') {
            let i = choose|i: int| 0 <= i < number.len() && number[i] == '/';
            assert(is_digit(number[i]));
        }
    }
    joined_contains(number, unit, '/');
    assert(!"OHLCV"@.contains('/'));
    split_single(symbol, '/');
    split_single(timeframe, '/');
    split_single("OHLCV"@, '/');
    split_joined(symbol, timeframe, '/');
    split_joined(symbol + seq!['/'] + timeframe, "OHLCV"@, '/');
    assert(split(key, '/') =~= seq![symbol, timeframe, "OHLCV"@]);
}

/// A key is matched part by part: a part without a slash is matched by a star or by itself, and by
/// nothing else; and a key of several parts is matched where its first part is and the rest is.
pub proof fn patterns_match_part_by_part(
    part: Seq<char>,
    rest: Seq<char>,
    pattern: Seq<char>,
    pattern_rest: Seq<char>,
)
    requires
        !part.contains('/'),
        !pattern.contains('/'),
    ensures
        key_matches(part, pattern) <==> pattern == "*"@ || pattern == part,
        key_matches(part + seq!['/'] + rest, pattern + seq!['/'] + pattern_rest) <==> (pattern
            == "*"@ || pattern == part) && key_matches(rest, pattern_rest),
        !key_matches(part, pattern + seq!['/'] + pattern_rest),
        !key_matches(part + seq!['/'] + rest, pattern),
{
    split_single(part, '/');
    split_single(pattern, '/');
    split_joined(part, rest, '/');
    split_joined(pattern, pattern_rest, '/');
    split_is_not_empty(rest, '/');
    split_is_not_empty(pattern_rest, '/');
    let k = split(part + seq!['/'] + rest, '/');
    let p = split(pattern + seq!['/'] + pattern_rest, '/');
    let kr = split(rest, '/');
    let pr = split(pattern_rest, '/');
    assert(k =~= seq![part] + kr);
    assert(p =~= seq![pattern] + pr);
    let one = split(part, '/');
    let star = split(pattern, '/');
    assert(one[0] == part && star[0] == pattern);
    if k.len() == p.len() {
        assert(k[0] == part && p[0] == pattern);
        if parts_match(k, p, k.len() as int) {
            assert forall|i: int| 0 <= i < kr.len() implies #[trigger] pr[i] == "*"@ || pr[i]
                == kr[i] by {
                assert(p[i + 1] == pr[i]);
                assert(k[i + 1] == kr[i]);
            }
            assert(p[0] == "*"@ || p[0] == k[0]);
        }
        if parts_match(kr, pr, kr.len() as int) && (pattern == "*"@ || pattern == part) {
            assert forall|i: int| 0 <= i < k.len() implies #[trigger] p[i] == "*"@ || p[i]
                == k[i] by {
                if i > 0 {
                    assert(pr[i - 1] == p[i]);
                    assert(kr[i - 1] == k[i]);
                }
            }
        }
    }
}

/// The lengths of bars: a second is a thousand milliseconds, each of a million nanoseconds; a
/// minute is sixty seconds, an hour sixty minutes, a day twenty-four hours, a week seven days, a
/// month thirty and a year three hundred and sixty-five. A bar of several steps is that many times
/// as long. Bars that are not based on time have no length.
pub proof fn lengths_of_bars(step: int)
    requires
        0 <= step <= 292,
    ensures
        interval_of(BarAggregation::Millisecond, step) == Some(step * 1_000_000),
        interval_of(BarAggregation::Second, step) == interval_of(
            BarAggregation::Millisecond,
            step * 1000,
        ),
        interval_of(BarAggregation::Minute, step) == interval_of(
            BarAggregation::Second,
            step * 60,
        ),
        interval_of(BarAggregation::Hour, step) == interval_of(BarAggregation::Minute, step * 60),
        interval_of(BarAggregation::Day, step) == interval_of(BarAggregation::Hour, step * 24),
        interval_of(BarAggregation::Week, step) == interval_of(BarAggregation::Day, step * 7),
        interval_of(BarAggregation::Month, step) == interval_of(BarAggregation::Day, step * 30),
        interval_of(BarAggregation::Year, step) == interval_of(BarAggregation::Day, step * 365),
        interval_of(BarAggregation::Year, step) is Some,
        interval_of(BarAggregation::Tick, step) is None,
        interval_of(BarAggregation::Volume, step) is None,
        interval_of(BarAggregation::Value, step) is None,
        interval_of(BarAggregation::Renko, step) is None,
{
}

/// A bar of twice as many steps is twice as long, where that fits.
pub proof fn lengths_grow_with_the_step(aggregation: BarAggregation, step: int, times: int)
    requires
        interval_of(aggregation, step * times) is Some,
        interval_of(aggregation, step) is Some,
    ensures
        interval_of(aggregation, step * times)->0 == interval_of(aggregation, step)->0 * times,
{
    let nanos = step_nanos(aggregation)->0 as int;
    assert((step * times) * nanos == (step * nanos) * times) by (nonlinear_arith);
}

/// A bar has a length exactly where that length fits in 63 bits of nanoseconds.
pub proof fn lengths_have_to_fit(step: int)
    ensures
        interval_of(BarAggregation::Second, step) is Some <==> step * 1_000_000_000 <= i64::MAX,
        interval_of(BarAggregation::Minute, step) is Some <==> step * 60_000_000_000 <= i64::MAX,
        interval_of(BarAggregation::Hour, step) is Some <==> step * 3_600_000_000_000 <= i64::MAX,
        interval_of(BarAggregation::Day, step) is Some <==> step * 86_400_000_000_000 <= i64::MAX,
{
}

/// The contents of a bar type are its fields.
pub proof fn contents_are_the_fields(b: BarType)
    ensures
        b@.symbol == b.symbol@,
        b@.venue == b.venue@,
        b@.step == b.step,
        b@.aggregation == b.aggregation,
        b@.text == b.text@,
{
}

/// The trading engine counts its aggregations from one, ticks first and Renko bars last, and no two
/// have the same number.
pub proof fn aggregations_are_numbered(a: BarAggregation, b: BarAggregation)
    ensures
        1 <= a.number() <= 18,
        a.number() == b.number() <==> a == b,
        BarAggregation::Tick.number() == 1,
        BarAggregation::Second.number() == 11,
        BarAggregation::Minute.number() == 12,
        BarAggregation::Hour.number() == 13,
        BarAggregation::Day.number() == 14,
        BarAggregation::Renko.number() == 18,
{
}

/// Only the keys of bars are read: a key that is read has three parts, a symbol, a step right
/// before its unit, and the word for bars, and what is read of it is those.
pub proof fn only_keys_of_bars_are_read(
    key: Seq<char>,
    symbol: Seq<char>,
    step: nat,
    aggregation: BarAggregation,
)
    requires
        read_key(key) == Ok::<(Seq<char>, nat, BarAggregation), Seq<char>>(
            (symbol, step, aggregation),
        ),
    ensures
        ({
            let parts = split(key, '/');
            &&& parts.len() == 3
            &&& parts[0] == symbol
            &&& parts[2] == "OHLCV"@
            &&& exists|number: Seq<char>|
                parts[1] == number + unit_of(aggregation)->0 && #[trigger] u32_in(number) == Some(
                    step,
                )
        }),
        unit_of(aggregation) is Some,
{
    let parts = split(key, '/');
    let timeframe = parts[1];
    let cut = letter_from(timeframe, 0);
    letter_is_within(timeframe, 0);
    let number = timeframe.take(cut);
    let unit = timeframe.skip(cut);
    assert(timeframe =~= number + unit);
    assert(u32_in(number) == Some(step));
    assert(unit_of(aggregation) == Some(unit));
}

proof fn letter_is_within(s: Seq<char>, i: int)
    requires
        0 <= i <= s.len(),
    ensures
        i <= letter_from(s, i) <= s.len(),
    decreases s.len() - i,
{
    if i < s.len() && !alphabetic(s[i]) {
        letter_is_within(s, i + 1);
    }
}

/// Each aggregation is named by its own word, and the four that the store has by theirs in the text
/// of a bar type.
pub proof fn names_are_their_own(a: BarAggregation)
    ensures
        a == BarAggregation::Tick ==> a.named() == "Tick"@,
        a == BarAggregation::TickImbalance ==> a.named() == "TickImbalance"@,
        a == BarAggregation::TickRuns ==> a.named() == "TickRuns"@,
        a == BarAggregation::Volume ==> a.named() == "Volume"@,
        a == BarAggregation::VolumeImbalance ==> a.named() == "VolumeImbalance"@,
        a == BarAggregation::VolumeRuns ==> a.named() == "VolumeRuns"@,
        a == BarAggregation::Value ==> a.named() == "Value"@,
        a == BarAggregation::ValueImbalance ==> a.named() == "ValueImbalance"@,
        a == BarAggregation::ValueRuns ==> a.named() == "ValueRuns"@,
        a == BarAggregation::Millisecond ==> a.named() == "Millisecond"@,
        a == BarAggregation::Second ==> a.named() == "Second"@,
        a == BarAggregation::Minute ==> a.named() == "Minute"@,
        a == BarAggregation::Hour ==> a.named() == "Hour"@,
        a == BarAggregation::Day ==> a.named() == "Day"@,
        a == BarAggregation::Week ==> a.named() == "Week"@,
        a == BarAggregation::Month ==> a.named() == "Month"@,
        a == BarAggregation::Year ==> a.named() == "Year"@,
        a == BarAggregation::Renko ==> a.named() == "Renko"@,
        a == BarAggregation::Second ==> aggregation_word(a) == "SECOND"@,
        a == BarAggregation::Minute ==> aggregation_word(a) == "MINUTE"@,
        a == BarAggregation::Hour ==> aggregation_word(a) == "HOUR"@,
        a == BarAggregation::Day ==> aggregation_word(a) == "DAY"@,
{
}

} // verus!
