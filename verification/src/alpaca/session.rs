//! The market-session clock: which session an instant falls into, and when the next one opens.
//!
//! Session windows, in Eastern local time:
//! - regular 09:30 to 16:00, Monday to Friday;
//! - pre-market 04:00 to 09:30, Monday to Friday;
//! - after-hours 16:00 to 20:00, Monday to Friday;
//! - overnight 20:00 to 04:00, from Sunday evening to Friday morning;
//! - closed otherwise, and all day on holidays.
//!
//! On a day that closes early, regular hours end at 13:00 and after-hours at 17:00, when overnight
//! begins unless the day is a Friday.

use vstd::prelude::*;

use crate::alpaca::dates::{
    days_before_month, days_in_month, eastern_instant, eastern_local, eastern_offset,
    eastern_second, is_eastern_offset, local_seconds, next_day_is_one_later,
    previous_day_is_one_earlier, same_number_same_date, Date, Weekday, DAY_SECONDS, MAX_YEAR,
    MIN_YEAR, SECOND_NANOS, UNIX_DAY,
};

verus! {

/// A market session.
#[derive(Clone, Copy, Debug, PartialEq, Eq, Structural)]
pub enum Session {
    /// Regular trading hours.
    Regular,
    /// Before the regular open.
    PreMarket,
    /// After the regular close.
    AfterHours,
    /// Between after-hours and pre-market.
    Overnight,
    /// No session.
    Closed,
}

impl Session {
    /// Whether the session is neither regular nor closed.
    pub open spec fn extended(self) -> bool {
        self != Session::Regular && self != Session::Closed
    }

    /// Whether this is an extended-hours session.
    pub fn is_extended_hours(self) -> (r: bool)
        ensures
            r == self.extended(),
    {
        match self {
            Session::PreMarket | Session::AfterHours | Session::Overnight => true,
            Session::Regular | Session::Closed => false,
        }
    }

    /// The session's name.
    pub open spec fn named(self) -> Seq<char> {
        match self {
            Session::Regular => "Regular"@,
            Session::PreMarket => "PreMarket"@,
            Session::AfterHours => "AfterHours"@,
            Session::Overnight => "Overnight"@,
            Session::Closed => "Closed"@,
        }
    }

    /// The session's name.
    pub fn name(self) -> (r: &'static str)
        ensures
            r@ == self.named(),
    {
        match self {
            Session::Regular => "Regular",
            Session::PreMarket => "PreMarket",
            Session::AfterHours => "AfterHours",
            Session::Overnight => "Overnight",
            Session::Closed => "Closed",
        }
    }
}

/// A source of market sessions. Instants are nanoseconds of Unix time.
pub trait MarketCalendar: core::fmt::Debug + Send + Sync {
    /// The instants that the calendar can place in a session.
    spec fn covers(&self, ts: u64) -> bool;

    /// The instants from which the calendar can give the next regular open.
    spec fn covers_regular(&self, ts: u64) -> bool;

    /// The instants from which the calendar can give the next pre-market open.
    spec fn covers_premarket(&self, ts: u64) -> bool;

    /// The session in effect.
    spec fn session(&self, ts: u64) -> Session;

    /// The next regular open.
    spec fn regular_open(&self, ts: u64) -> int;

    /// The next pre-market open.
    spec fn premarket_open(&self, ts: u64) -> int;

    /// The session in effect at `ts`.
    fn session_at(&self, ts: u64) -> (r: Session)
        requires
            self.covers(ts),
        ensures
            r == self.session(ts),
    ;

    /// The next regular open after `ts`.
    fn next_regular_open(&self, ts: u64) -> (r: u64)
        requires
            self.covers_regular(ts),
        ensures
            r == self.regular_open(ts),
            ts < r,
            self.session(r) == Session::Regular,
    ;

    /// The next pre-market open after `ts`.
    fn next_premarket_open(&self, ts: u64) -> (r: u64)
        requires
            self.covers_premarket(ts),
        ensures
            r == self.premarket_open(ts),
            ts < r,
            self.session(r) == Session::PreMarket,
    ;
}

/// The calendar of US equities.
#[derive(Clone, Copy, Debug, Default)]
pub struct UsEquityCalendar;

/// The second of the day at which pre-market begins: 04:00.
pub const PRE_OPEN: u32 = 14_400;

/// The second of the day at which regular hours begin: 09:30.
pub const REGULAR_OPEN: u32 = 34_200;

/// The second of the day at which regular hours end: 16:00.
pub const REGULAR_CLOSE: u32 = 57_600;

/// The second of the day at which regular hours end on a day that closes early: 13:00.
pub const EARLY_CLOSE: u32 = 46_800;

/// The second of the day at which after-hours end: 20:00.
pub const AFTER_CLOSE: u32 = 72_000;

/// The second of the day at which after-hours end on a day that closes early: 17:00.
pub const EARLY_AFTER_CLOSE: u32 = 61_200;

/// The instants before this one, 08:00 UTC on the last Friday that nanoseconds in 63 bits reach,
/// have a next pre-market open that they reach too.
pub const PREMARKET_END: u64 = 9_223_315_200_000_000_000;

/// The instants before this one, 13:30 UTC on the last Friday that nanoseconds in 63 bits reach,
/// have a next regular open that they reach too.
pub const REGULAR_END: u64 = 9_223_335_000_000_000_000;

// ----- holidays -----

/// Whether the market is closed for the weekend.
pub open spec fn weekend(date: Date) -> bool {
    date.on() == Weekday::Sat || date.on() == Weekday::Sun
}

/// The day on which a holiday of fixed date is observed: the Friday before where it falls on a
/// Saturday, the Monday after where it falls on a Sunday.
pub open spec fn observed_date(year: i32, month: u32, day: u32) -> Date {
    let actual = Date { year, month, day };
    if actual.on() == Weekday::Sat {
        match actual.previous() {
            Some(friday) => friday,
            None => actual,
        }
    } else if actual.on() == Weekday::Sun {
        match actual.next() {
            Some(monday) => monday,
            None => actual,
        }
    } else {
        actual
    }
}

/// Whether a holiday of fixed date is observed on `date`: this year's, or next year's where it is
/// observed before that year begins, as a first of January on a Saturday is.
pub open spec fn observes(date: Date, month: u32, day: u32) -> bool {
    ||| date == observed_date(date.year, month, day)
    ||| date.year < MAX_YEAR && date == observed_date((date.year + 1) as i32, month, day)
}

/// Which occurrence of its day of the week within the month this is, from 1 on.
pub open spec fn occurrence(date: Date) -> int {
    (date.day - 1) / 7 + 1
}

/// Whether this is the last occurrence of its day of the week within the month.
pub open spec fn last_occurrence(date: Date) -> bool {
    date.day + 7 > days_in_month(date.year as int, date.month as int)
}

/// Good Friday, from 2024 to 2030.
pub open spec fn good_friday(date: Date) -> bool {
    ||| date == (Date { year: 2024, month: 3, day: 29 })
    ||| date == (Date { year: 2025, month: 4, day: 18 })
    ||| date == (Date { year: 2026, month: 4, day: 3 })
    ||| date == (Date { year: 2027, month: 3, day: 26 })
    ||| date == (Date { year: 2028, month: 4, day: 14 })
    ||| date == (Date { year: 2029, month: 3, day: 30 })
    ||| date == (Date { year: 2030, month: 4, day: 19 })
}

/// Whether the market is closed all day for a holiday.
pub open spec fn holiday(date: Date) -> bool {
    // New Year's Day
    ||| observes(date, 1, 1)
    // Juneteenth
    ||| date.year >= 2022 && observes(date, 6, 19)
    // Independence Day
    ||| observes(date, 7, 4)
    // Christmas
    ||| observes(date, 12, 25)
    // Martin Luther King Jr. Day
    ||| date.month == 1 && date.on() == Weekday::Mon && occurrence(date) == 3
    // Presidents' Day
    ||| date.month == 2 && date.on() == Weekday::Mon && occurrence(date) == 3
    // Memorial Day
    ||| date.month == 5 && date.on() == Weekday::Mon && last_occurrence(date)
    // Labor Day
    ||| date.month == 9 && date.on() == Weekday::Mon && occurrence(date) == 1
    // Thanksgiving
    ||| date.month == 11 && date.on() == Weekday::Thu && occurrence(date) == 4
    // Good Friday
    ||| good_friday(date)
}

/// Whether the market trades on this day.
pub open spec fn trading(date: Date) -> bool {
    !weekend(date) && !holiday(date)
}

/// Whether regular hours end at 13:00: the day after Thanksgiving, the third of July and Christmas
/// Eve, where the market trades on them.
pub open spec fn early_close(date: Date) -> bool {
    &&& trading(date)
    &&& {
        ||| date.month == 11 && date.on() == Weekday::Fri && (date.previous() matches Some(eve)
            && occurrence(eve) == 4)
        ||| date.month == 7 && date.day == 3
        ||| date.month == 12 && date.day == 24
    }
}

impl UsEquityCalendar {
    /// Whether the market is closed all day for a holiday. The table of Good Fridays reaches from
    /// 2024 to 2030.
    pub fn is_holiday(date: Date) -> (r: bool)
        requires
            date.valid(),
        ensures
            r == holiday(date),
    {
        let wd = date.weekday();
        Self::observed(date, 1, 1) || (date.year >= 2022 && Self::observed(date, 6, 19))
            || Self::observed(date, 7, 4) || Self::observed(date, 12, 25) || (date.month == 1 && wd
            == Weekday::Mon && Self::nth_weekday_of_month(date) == 3) || (date.month == 2 && wd
            == Weekday::Mon && Self::nth_weekday_of_month(date) == 3) || (date.month == 5 && wd
            == Weekday::Mon && Self::is_last_weekday_of_month(date)) || (date.month == 9 && wd
            == Weekday::Mon && Self::nth_weekday_of_month(date) == 1) || (date.month == 11 && wd
            == Weekday::Thu && Self::nth_weekday_of_month(date) == 4) || Self::is_good_friday(date)
    }

    /// Whether regular hours end at 13:00.
    pub fn is_early_close(date: Date) -> (r: bool)
        requires
            date.valid(),
        ensures
            r == early_close(date),
    {
        if Self::is_holiday(date) || Self::is_weekend(date) {
            return false;
        }
        if date.month == 11 && date.weekday() == Weekday::Fri {
            if let Some(eve) = date.previous_day() {
                proof {
                    previous_day_is_one_earlier(date);
                }
                if eve.weekday() == Weekday::Thu && Self::nth_weekday_of_month(eve) == 4 {
                    return true;
                }
            }
        }
        (date.month == 7 && date.day == 3) || (date.month == 12 && date.day == 24)
    }

    fn is_weekend(date: Date) -> (r: bool)
        requires
            date.valid(),
        ensures
            r == weekend(date),
    {
        match date.weekday() {
            Weekday::Sat | Weekday::Sun => true,
            _ => false,
        }
    }

    /// Whether a holiday of fixed date is observed on `date`.
    fn observed(date: Date, month: u32, day: u32) -> (r: bool)
        requires
            date.valid(),
            1 <= month <= 12,
            1 <= day <= 28,
        ensures
            r == observes(date, month, day),
    {
        Self::observed_on(date.year, month, day) == date || (date.year < MAX_YEAR
            && Self::observed_on(date.year + 1, month, day) == date)
    }

    /// The day on which a holiday of fixed date is observed.
    fn observed_on(year: i32, month: u32, day: u32) -> (r: Date)
        requires
            MIN_YEAR <= year <= MAX_YEAR,
            1 <= month <= 12,
            1 <= day <= 28,
        ensures
            r == observed_date(year, month, day),
    {
        let actual = Date { year, month, day };
        match actual.weekday() {
            Weekday::Sat => match actual.previous_day() {
                Some(friday) => friday,
                None => actual,
            },
            Weekday::Sun => match actual.next_day() {
                Some(monday) => monday,
                None => actual,
            },
            _ => actual,
        }
    }

    /// Which occurrence of its day of the week within the month this is.
    fn nth_weekday_of_month(date: Date) -> (r: u32)
        requires
            date.valid(),
        ensures
            r == occurrence(date),
    {
        (date.day - 1) / 7 + 1
    }

    /// Whether this is the last occurrence of its day of the week within the month.
    fn is_last_weekday_of_month(date: Date) -> (r: bool)
        requires
            date.valid(),
        ensures
            r == last_occurrence(date),
    {
        match date.next_week() {
            Some(next) => next.month != date.month,
            None => true,
        }
    }

    fn is_good_friday(date: Date) -> (r: bool)
        ensures
            r == good_friday(date),
    {
        (date.year == 2024 && date.month == 3 && date.day == 29) || (date.year == 2025 && date.month
            == 4 && date.day == 18) || (date.year == 2026 && date.month == 4 && date.day == 3) || (
        date.year == 2027 && date.month == 3 && date.day == 26) || (date.year == 2028 && date.month
            == 4 && date.day == 14) || (date.year == 2029 && date.month == 3 && date.day == 30) || (
        date.year == 2030 && date.month == 4 && date.day == 19)
    }
}

// ----- sessions -----

/// The second of the day at which regular hours end.
pub open spec fn regular_close(date: Date) -> u32 {
    if early_close(date) {
        EARLY_CLOSE
    } else {
        REGULAR_CLOSE
    }
}

/// The second of the day at which after-hours end.
pub open spec fn after_close(date: Date) -> u32 {
    if early_close(date) {
        EARLY_AFTER_CLOSE
    } else {
        AFTER_CLOSE
    }
}

/// The session at a second of a local date.
pub open spec fn session_of(date: Date, second: int) -> Session {
    if date.on() == Weekday::Sun && second >= AFTER_CLOSE {
        Session::Overnight
    } else if !trading(date) {
        Session::Closed
    } else if second < PRE_OPEN {
        Session::Overnight
    } else if second < REGULAR_OPEN {
        Session::PreMarket
    } else if second < regular_close(date) {
        Session::Regular
    } else if second < after_close(date) {
        Session::AfterHours
    } else if date.on() == Weekday::Fri {
        Session::Closed
    } else {
        Session::Overnight
    }
}

/// The Eastern local time at `ts`, in seconds since the local midnight that began 1970.
pub open spec fn eastern_seconds(ts: u64) -> int {
    ts as int / SECOND_NANOS as int - eastern_offset(ts as int / SECOND_NANOS as int)
}

/// The date whose day has number `n`.
pub open spec fn date_numbered(n: int) -> Date {
    choose|d: Date| d.valid() && d.number() == n
}

/// The number of the Eastern local day at `ts`.
pub open spec fn eastern_day(ts: u64) -> int {
    eastern_seconds(ts) / DAY_SECONDS as int + UNIX_DAY
}

/// The session in effect at `ts`.
pub open spec fn session_at_instant(ts: u64) -> Session {
    session_of(date_numbered(eastern_day(ts)), eastern_seconds(ts) % (DAY_SECONDS as int))
}

proof fn date_with_number(date: Date)
    requires
        date.valid(),
    ensures
        date_numbered(date.number()) == date,
{
    let d = date_numbered(date.number());
    assert(d.valid() && d.number() == date.number());
    same_number_same_date(d, date);
}

/// The local date and second at `ts` are the day and the rest of the local seconds.
proof fn local_parts(ts: u64, date: Date, second: int)
    requires
        date.valid(),
        0 <= second < DAY_SECONDS,
        local_seconds(date, second) == eastern_seconds(ts),
    ensures
        date == date_numbered(eastern_day(ts)),
        date.number() == eastern_day(ts),
        second == eastern_seconds(ts) % (DAY_SECONDS as int),
{
    date_with_number(date);
}

impl UsEquityCalendar {
    /// The session at a second of a local date.
    pub fn classify_local(date: Date, second: u32) -> (r: Session)
        requires
            date.valid(),
        ensures
            r == session_of(date, second as int),
    {
        if Self::is_weekend(date) {
            if date.weekday() == Weekday::Sun && second >= AFTER_CLOSE {
                return Session::Overnight;
            }
            return Session::Closed;
        }
        if Self::is_holiday(date) {
            return Session::Closed;
        }
        let early = Self::is_early_close(date);
        let regular_close: u32 = if early {
            EARLY_CLOSE
        } else {
            REGULAR_CLOSE
        };
        let after_close: u32 = if early {
            EARLY_AFTER_CLOSE
        } else {
            AFTER_CLOSE
        };
        if second >= REGULAR_OPEN && second < regular_close {
            Session::Regular
        } else if second >= PRE_OPEN && second < REGULAR_OPEN {
            Session::PreMarket
        } else if second >= regular_close && second < after_close {
            Session::AfterHours
        } else if second >= after_close {
            if date.weekday() == Weekday::Fri {
                Session::Closed
            } else {
                Session::Overnight
            }
        } else {
            Session::Overnight
        }
    }

    /// The session in effect at `ts`.
    pub fn classify(ts: u64) -> (r: Session)
        requires
            ts <= i64::MAX,
        ensures
            r == session_at_instant(ts),
    {
        let (date, second) = eastern_local(ts);
        proof {
            local_parts(ts, date, second as int);
        }
        Self::classify_local(date, second)
    }
}

// ----- the next open -----

/// The instant, in nanoseconds of Unix time, at a second of an Eastern local date.
pub open spec fn open_nanos(date: Date, second: u32) -> int {
    eastern_instant(local_seconds(date, second as int)) * SECOND_NANOS
}

/// The opening, at `second` of a trading day, that is first after `ts` among the `days` days from
/// day `n` on; `ts` itself if there is none.
pub open spec fn first_open(ts: u64, n: int, second: u32, days: nat) -> int
    decreases days,
{
    if days == 0 {
        ts as int
    } else if trading(date_numbered(n)) && open_nanos(date_numbered(n), second) > ts {
        open_nanos(date_numbered(n), second)
    } else {
        first_open(ts, n + 1, second, (days - 1) as nat)
    }
}

/// The days that the search for the next open looks at.
pub const SEARCH_DAYS: u32 = 14;

/// The opening, at `second` of a trading day, that is first after `ts`.
pub open spec fn open_after(ts: u64, second: u32) -> int {
    first_open(ts, eastern_day(ts), second, SEARCH_DAYS as nat)
}

/// Whether `date` is the first trading day, from the local day of `ts` on, whose opening at
/// `second` comes after `ts`.
pub open spec fn opens_first(ts: u64, second: u32, date: Date) -> bool {
    &&& date.valid()
    &&& trading(date)
    &&& open_nanos(date, second) > ts
    &&& forall|d: Date|
        #![trigger trading(d)]
        d.valid() && eastern_day(ts) <= d.number() < date.number() && trading(d) ==> open_nanos(
            d,
            second,
        ) <= ts
}

/// Whether the opening at `second` of `date` lies four or five hours after that local time.
spec fn opening_known(date: Date, second: u32) -> bool {
    is_eastern_offset(
        eastern_instant(local_seconds(date, second as int)) - local_seconds(date, second as int),
    )
}

/// A holiday of fixed date that is observed on a Tuesday or Wednesday is observed on its date.
proof fn midweek_observed(date: Date, month: u32, day: u32)
    requires
        date.valid(),
        1 <= month <= 12,
        1 <= day <= 28,
        date.on() == Weekday::Tue || date.on() == Weekday::Wed,
        observes(date, month, day),
    ensures
        date.month == month,
        date.day == day,
{
    if date == observed_date(date.year, month, day) {
        midweek_observed_on(date, date.year, month, day);
    } else {
        midweek_observed_on(date, (date.year + 1) as i32, month, day);
    }
}

proof fn midweek_observed_on(date: Date, year: i32, month: u32, day: u32)
    requires
        MIN_YEAR <= year <= MAX_YEAR,
        1 <= month <= 12,
        1 <= day <= 28,
        date.on() == Weekday::Tue || date.on() == Weekday::Wed,
        date == observed_date(year, month, day),
    ensures
        date == (Date { year, month, day }),
{
    let actual = Date { year, month, day };
    if actual.previous() is Some {
        previous_day_is_one_earlier(actual);
    }
    if actual.next() is Some {
        next_day_is_one_later(actual);
    }
}

proof fn good_fridays_are_fridays(date: Date)
    requires
        good_friday(date),
    ensures
        date.on() == Weekday::Fri,
{
    let y = date.year as int;
    assert(days_before_month(y, 2) == 31 && days_before_month(y, 3) == 31 + days_in_month(y, 2)
        && days_before_month(y, 4) == 62 + days_in_month(y, 2)) by {
        reveal_with_fuel(days_before_month, 5);
    }
    if date.year == 2024 {
        assert(date.number() == 738_974);
    } else if date.year == 2025 {
        assert(date.number() == 739_359);
    } else if date.year == 2026 {
        assert(date.number() == 739_709);
    } else if date.year == 2027 {
        assert(date.number() == 740_066);
    } else if date.year == 2028 {
        assert(date.number() == 740_451);
    } else if date.year == 2029 {
        assert(date.number() == 740_801);
    } else {
        assert(date.number() == 741_186);
    }
}

/// A holiday on a Tuesday or Wednesday is one of fixed date.
proof fn midweek_holiday(date: Date)
    requires
        date.valid(),
        date.on() == Weekday::Tue || date.on() == Weekday::Wed,
        holiday(date),
    ensures
        (date.month == 1 && date.day == 1) || (date.month == 6 && date.day == 19) || (date.month
            == 7 && date.day == 4) || (date.month == 12 && date.day == 25),
{
    if good_friday(date) {
        good_fridays_are_fridays(date);
    }
    if observes(date, 1, 1) {
        midweek_observed(date, 1, 1);
    }
    if observes(date, 6, 19) {
        midweek_observed(date, 6, 19);
    }
    if observes(date, 7, 4) {
        midweek_observed(date, 7, 4);
    }
    if observes(date, 12, 25) {
        midweek_observed(date, 12, 25);
    }
}

/// The date `k` days after `date`.
proof fn days_ahead(date: Date, k: nat) -> (r: Date)
    requires
        date.valid(),
        date.year + k < MAX_YEAR,
    ensures
        r.valid(),
        r.number() == date.number() + k,
        date.year <= r.year <= date.year + k,
    decreases k,
{
    if k == 0 {
        date
    } else {
        let before = days_ahead(date, (k - 1) as nat);
        next_day_is_one_later(before);
        before.next()->0
    }
}

/// How many days after day `n` the next Tuesday is.
proof fn days_until_tuesday(n: int) -> (k: nat)
    ensures
        1 <= k <= 7,
        (n + k - 1) % 7 == 1,
        (n + k) % 7 == 2,
{
    let week = (n - 1) / 7;
    let day = (n - 1) % 7;
    // Monday is day 0 of the week, so Tuesday is day 1.
    if day == 0 {
        assert(n == 7 * week + 1);
        1
    } else {
        assert(n + (8 - day) - 1 == 7 * (week + 1) + 1);
        (8 - day) as nat
    }
}

/// Of a Tuesday and the Wednesday after it, the market trades on one.
#[verifier::spinoff_prover]
proof fn market_trades_midweek(tuesday: Date, wednesday: Date)
    requires
        tuesday.valid(),
        wednesday.valid(),
        tuesday.next() == Some(wednesday),
        tuesday.on() == Weekday::Tue,
        wednesday.on() == Weekday::Wed,
    ensures
        trading(tuesday) || trading(wednesday),
{
    if holiday(tuesday) && holiday(wednesday) {
        midweek_holiday(tuesday);
        midweek_holiday(wednesday);
    }
}

/// The market trades on some day of the week after `date` or the day after that week.
pub proof fn market_trades_within_nine_days(date: Date) -> (r: Date)
    requires
        date.valid(),
        date.year < MAX_YEAR - 9,
    ensures
        r.valid(),
        trading(r),
        date.number() < r.number() <= date.number() + 8,
{
    let k = days_until_tuesday(date.number());
    let tuesday = days_ahead(date, k);
    next_day_is_one_later(tuesday);
    let wednesday = tuesday.next()->0;
    market_trades_midweek(tuesday, wednesday);
    if trading(tuesday) {
        tuesday
    } else {
        wednesday
    }
}

/// An opening on a later local day than that of `ts` comes after `ts`.
proof fn later_day_opens_later(ts: u64, start: Date, second: int, date: Date, at: u32)
    requires
        start.number() < date.number(),
        0 <= second < DAY_SECONDS,
        local_seconds(start, second) == eastern_seconds(ts),
        is_eastern_offset(eastern_offset(ts as int / SECOND_NANOS as int)),
        at >= PRE_OPEN,
        opening_known(date, at),
    ensures
        open_nanos(date, at) > ts,
{
    let s = ts as int / SECOND_NANOS as int;
    let o = eastern_instant(local_seconds(date, at as int));
    assert((date.number() - UNIX_DAY) * DAY_SECONDS >= (start.number() + 1 - UNIX_DAY)
        * DAY_SECONDS);
    assert(o >= s + 1);
    assert(o * SECOND_NANOS >= (s + 1) * SECOND_NANOS);
}

/// The last Friday that nanoseconds in 63 bits reach.
spec fn last_friday() -> Date {
    Date { year: 2262, month: 4, day: 11 }
}

proof fn last_friday_trades()
    ensures
        last_friday().valid(),
        trading(last_friday()),
        last_friday().number() == 825_914,
{
    let d = last_friday();
    reveal_with_fuel(days_before_month, 5);
    assert(d.on() == Weekday::Fri);
    assert(observed_date(2262, 1, 1).month != 4);
    assert(observed_date(2262, 6, 19).month != 4);
    assert(observed_date(2262, 7, 4).month != 4);
    assert(observed_date(2262, 12, 25).month != 4);
    assert(observed_date(2263, 1, 1).month != 4);
    assert(observed_date(2263, 6, 19).month != 4);
    assert(observed_date(2263, 7, 4).month != 4);
    assert(observed_date(2263, 12, 25).month != 4);
}

impl UsEquityCalendar {
    /// The instant, in nanoseconds of Unix time, at a second of an Eastern local date; negative
    /// before 1970.
    fn et_instant(date: Date, second: u32) -> (r: i128)
        requires
            date.valid(),
            1969 <= date.year <= 3000,
            PRE_OPEN <= second < DAY_SECONDS,
        ensures
            r == open_nanos(date, second),
            opening_known(date, second),
            eastern_instant(local_seconds(date, second as int)) - eastern_offset(
                eastern_instant(local_seconds(date, second as int)),
            ) == local_seconds(date, second as int),
    {
        eastern_second(date, second) as i128 * SECOND_NANOS as i128
    }

    /// The first opening after `ts` at second `at` of a trading day. The opening on the last
    /// Friday in range has to come after `ts`.
    fn next_open(ts: u64, at: u32) -> (r: u64)
        requires
            at == PRE_OPEN && ts < PREMARKET_END || at == REGULAR_OPEN && ts < REGULAR_END,
        ensures
            r == open_after(ts, at),
            ts < r <= i64::MAX,
            exists|date: Date| #[trigger] opens_first(ts, at, date) && r == open_nanos(date, at),
            session_at_instant(r) == if at == PRE_OPEN {
                Session::PreMarket
            } else {
                Session::Regular
            },
    {
        let (start, second) = eastern_local(ts);
        proof {
            local_parts(ts, start, second as int);
            last_friday_trades();
            assert(start.number() <= last_friday().number());
        }
        let mut date = start;
        let mut i: u32 = 0;
        while i < SEARCH_DAYS
            invariant
                i <= SEARCH_DAYS,
                at == PRE_OPEN && ts < PREMARKET_END || at == REGULAR_OPEN && ts < REGULAR_END,
                start.valid(),
                0 <= second < DAY_SECONDS,
                1969 <= start.year <= 2262,
                start.number() == eastern_day(ts),
                local_seconds(start, second as int) == eastern_seconds(ts),
                is_eastern_offset(eastern_offset(ts as int / SECOND_NANOS as int)),
                date.valid(),
                date.number() == start.number() + i,
                start.year <= date.year <= start.year + i,
                last_friday().valid(),
                trading(last_friday()),
                last_friday().number() == 825_914,
                date.number() <= last_friday().number() + 1,
                open_after(ts, at) == first_open(
                    ts,
                    date.number(),
                    at,
                    (SEARCH_DAYS - i) as nat,
                ),
                forall|d: Date|
                    #![trigger trading(d)]
                    d.valid() && start.number() <= d.number() < date.number() && trading(d)
                        ==> open_nanos(d, at) <= ts && opening_known(d, at),
            decreases SEARCH_DAYS - i,
        {
            proof {
                date_with_number(date);
                if date.number() > last_friday().number() {
                    // The opening on the last Friday was looked at and did not come after `ts`.
                    let o = eastern_instant(local_seconds(last_friday(), at as int));
                    assert(open_nanos(last_friday(), at) <= ts);
                    assert(false);
                }
            }
            if !Self::is_weekend(date) && !Self::is_holiday(date) {
                let open = Self::et_instant(date, at);
                if open > ts as i128 {
                    proof {
                        assert(opens_first(ts, at, date));
                        let o = eastern_instant(local_seconds(date, at as int));
                        assert(o <= local_seconds(last_friday(), at as int) + 18_000);
                        assert(open as int / SECOND_NANOS as int == o);
                        local_parts(open as u64, date, at as int);
                    }
                    return open as u64;
                }
            }
            proof {
                next_day_is_one_later(date);
                assert forall|d: Date|
                    #![trigger trading(d)]
                    d.valid() && start.number() <= d.number() < date.number() + 1 && trading(
                        d,
                    ) implies open_nanos(d, at) <= ts && opening_known(d, at) by {
                    if d.number() == date.number() {
                        same_number_same_date(d, date);
                    }
                }
            }
            date = date.next_day().unwrap();
            i = i + 1;
        }
        proof {
            let d = market_trades_within_nine_days(start);
            assert(open_nanos(d, at) <= ts);
            later_day_opens_later(ts, start, second as int, d, at);
            assert(false);
        }
        ts
    }
}

impl MarketCalendar for UsEquityCalendar {
    open spec fn covers(&self, ts: u64) -> bool {
        ts <= i64::MAX
    }

    open spec fn covers_regular(&self, ts: u64) -> bool {
        ts < REGULAR_END
    }

    open spec fn covers_premarket(&self, ts: u64) -> bool {
        ts < PREMARKET_END
    }

    open spec fn session(&self, ts: u64) -> Session {
        session_at_instant(ts)
    }

    open spec fn regular_open(&self, ts: u64) -> int {
        open_after(ts, REGULAR_OPEN)
    }

    open spec fn premarket_open(&self, ts: u64) -> int {
        open_after(ts, PRE_OPEN)
    }

    fn session_at(&self, ts: u64) -> Session {
        Self::classify(ts)
    }

    fn next_regular_open(&self, ts: u64) -> (r: u64)
        ensures
            r <= i64::MAX,
            exists|date: Date| #[trigger]
                opens_first(ts, REGULAR_OPEN, date) && r == open_nanos(date, REGULAR_OPEN),
    {
        Self::next_open(ts, REGULAR_OPEN)
    }

    fn next_premarket_open(&self, ts: u64) -> (r: u64)
        ensures
            r <= i64::MAX,
            exists|date: Date| #[trigger]
                opens_first(ts, PRE_OPEN, date) && r == open_nanos(date, PRE_OPEN),
    {
        Self::next_open(ts, PRE_OPEN)
    }
}

// ----- laws -----

/// The place of a day within the week, Monday being the first.
pub open spec fn place_in_week(on: Weekday) -> int {
    match on {
        Weekday::Mon => 0,
        Weekday::Tue => 1,
        Weekday::Wed => 2,
        Weekday::Thu => 3,
        Weekday::Fri => 4,
        Weekday::Sat => 5,
        Weekday::Sun => 6,
    }
}

/// Seven days of a month in a row hold each day of the week once: the one of day `on`.
proof fn one_of_seven(year: i32, month: u32, first: u32, on: Weekday) -> (r: Date)
    requires
        MIN_YEAR <= year <= MAX_YEAR,
        1 <= month <= 12,
        1 <= first,
        first + 6 <= days_in_month(year as int, month as int),
    ensures
        r.valid(),
        r.year == year,
        r.month == month,
        first <= r.day <= first + 6,
        r.on() == on,
        forall|d: Date|
            d.year == year && d.month == month && first <= d.day <= first + 6 && #[trigger] d.on()
                == on ==> d == r,
{
    let base = Date { year, month, day: first };
    let b = (base.number() - 1) % 7;
    let w = place_in_week(on);
    let k = if w >= b {
        w - b
    } else {
        w - b + 7
    };
    let r = Date { year, month, day: (first + k) as u32 };
    assert(r.number() == base.number() + k);
    let week = (base.number() - 1) / 7;
    assert(base.number() - 1 == 7 * week + b);
    assert((r.number() - 1) % 7 == w);
    assert forall|d: Date|
        d.year == year && d.month == month && first <= d.day <= first + 6 && #[trigger] d.on()
            == on implies d == r by {
        assert((d.number() - 1) % 7 == w);
        assert(d.number() - r.number() == d.day - r.day);
    }
    r
}

/// A holiday of fixed date, in the middle of its month, is on its date where that is no weekend
/// day, on the Friday before it or on the Monday after it.
#[verifier::spinoff_prover]
#[verifier::rlimit(60)]
proof fn fixed_holiday_days(date: Date, month: u32, day: u32)
    requires
        date.valid(),
        date.year < MAX_YEAR,
        1 <= month <= 12,
        2 <= day <= 27,
    ensures
        observes(date, month, day) <==> date.month == month && {
            ||| date.day == day && date.on() != Weekday::Sat && date.on() != Weekday::Sun
            ||| date.day + 1 == day && date.on() == Weekday::Fri
            ||| date.day == day + 1 && date.on() == Weekday::Mon
        },
{
    let actual = Date { year: date.year, month, day };
    previous_day_is_one_earlier(actual);
    next_day_is_one_later(actual);
    let later = Date { year: (date.year + 1) as i32, month, day };
    previous_day_is_one_earlier(later);
    next_day_is_one_later(later);
    assert(observed_date((date.year + 1) as i32, month, day).year == date.year + 1);
    if date.month == month {
        assert(date.number() - actual.number() == date.day - actual.day);
    }
}

/// New Year's Day is on the first of January where that is no weekend day, on the last of December
/// where that is a Friday, or on the second of January where that is a Monday.
#[verifier::spinoff_prover]
#[verifier::rlimit(60)]
proof fn new_years_days(date: Date)
    requires
        date.valid(),
        MIN_YEAR < date.year < MAX_YEAR,
    ensures
        observes(date, 1, 1) <==> {
            ||| date.month == 1 && date.day == 1 && date.on() != Weekday::Sat && date.on()
                != Weekday::Sun
            ||| date.month == 1 && date.day == 2 && date.on() == Weekday::Mon
            ||| date.month == 12 && date.day == 31 && date.on() == Weekday::Fri
        },
{
    let actual = Date { year: date.year, month: 1, day: 1 };
    previous_day_is_one_earlier(actual);
    next_day_is_one_later(actual);
    let later = Date { year: (date.year + 1) as i32, month: 1, day: 1 };
    previous_day_is_one_earlier(later);
    next_day_is_one_later(later);
    if date.month == 1 {
        assert(date.number() - actual.number() == date.day - actual.day);
    }
    if date.month == 12 && date.day == 31 {
        assert(date.next() == Some(later));
        next_day_is_one_later(date);
    }
}

/// The days on which the market is closed for a holiday, month by month:
/// - January: the first, unless it is a weekend day; the second, where it is a Monday; and the Monday
///   from the 15th to the 21st;
/// - February: the Monday from the 15th to the 21st;
/// - March and April: the Friday before Easter, as far as it is tabled;
/// - May: the Monday from the 25th on;
/// - June, July and December, for the 19th from 2022 on, the fourth and the 25th: that day, unless it
///   is a weekend day; the day before it, where that is a Friday; and the day after it, where that
///   is a Monday;
/// - September: the Monday up to the seventh;
/// - November: the Thursday from the 22nd to the 28th;
/// - the last of December, where it is a Friday.
#[verifier::spinoff_prover]
#[verifier::rlimit(60)]
pub proof fn holidays_month_by_month(date: Date)
    requires
        date.valid(),
        MIN_YEAR < date.year < MAX_YEAR,
    ensures
        ({
            let on = date.on();
            let day = date.day;
            let workday = on != Weekday::Sat && on != Weekday::Sun;
            holiday(date) <==> match date.month {
                1u32 => (day == 1 && workday) || (day == 2 && on == Weekday::Mon) || (15 <= day <= 21
                    && on == Weekday::Mon),
                2u32 => 15 <= day <= 21 && on == Weekday::Mon,
                5u32 => 25 <= day <= 31 && on == Weekday::Mon,
                6u32 => date.year >= 2022 && ((day == 19 && workday) || (day == 18 && on
                    == Weekday::Fri) || (day == 20 && on == Weekday::Mon)),
                7u32 => (day == 4 && workday) || (day == 3 && on == Weekday::Fri) || (day == 5 && on
                    == Weekday::Mon),
                9u32 => 1 <= day <= 7 && on == Weekday::Mon,
                11u32 => 22 <= day <= 28 && on == Weekday::Thu,
                12u32 => (day == 25 && workday) || (day == 24 && on == Weekday::Fri) || (day == 26
                    && on == Weekday::Mon) || (day == 31 && on == Weekday::Fri),
                3u32 => good_friday(date),
                4u32 => good_friday(date),
                _ => false,
            }
        }),
{
    new_years_days(date);
    fixed_holiday_days(date, 6, 19);
    fixed_holiday_days(date, 7, 4);
    fixed_holiday_days(date, 12, 25);
}

/// Every year has Martin Luther King Jr. Day once, on a Monday from the 15th to the 21st of
/// January: no other Monday of January is a holiday, but for New Year's Day on the first or the
/// second.
pub proof fn one_king_day_a_year(year: i32) -> (r: Date)
    requires
        MIN_YEAR < year < MAX_YEAR,
    ensures
        r.valid() && r.year == year && r.month == 1 && r.on() == Weekday::Mon,
        15 <= r.day <= 21,
        holiday(r),
        forall|d: Date|
            d.valid() && d.year == year && d.month == 1 && d.on() == Weekday::Mon && #[trigger]
                holiday(d) ==> d == r || d.day <= 2,
{
    let r = one_of_seven(year, 1, 15, Weekday::Mon);
    holidays_month_by_month(r);
    assert forall|d: Date|
        d.valid() && d.year == year && d.month == 1 && d.on() == Weekday::Mon && #[trigger] holiday(
            d,
        ) implies d == r || d.day <= 2 by {
        holidays_month_by_month(d);
    }
    r
}

/// Every year has Presidents' Day once, on a Monday from the 15th to the 21st of February: no other
/// day of February is a holiday.
pub proof fn one_presidents_day_a_year(year: i32) -> (r: Date)
    requires
        MIN_YEAR < year < MAX_YEAR,
    ensures
        r.valid() && r.year == year && r.month == 2 && r.on() == Weekday::Mon,
        15 <= r.day <= 21,
        holiday(r),
        forall|d: Date|
            d.valid() && d.year == year && d.month == 2 && #[trigger] holiday(d) ==> d == r,
{
    let r = one_of_seven(year, 2, 15, Weekday::Mon);
    holidays_month_by_month(r);
    assert forall|d: Date|
        d.valid() && d.year == year && d.month == 2 && #[trigger] holiday(d) implies d == r by {
        holidays_month_by_month(d);
    }
    r
}

/// Every year has Memorial Day once, on the last Monday of May: no other day of May is a holiday.
pub proof fn one_memorial_day_a_year(year: i32) -> (r: Date)
    requires
        MIN_YEAR < year < MAX_YEAR,
    ensures
        r.valid() && r.year == year && r.month == 5 && r.on() == Weekday::Mon,
        forall|d: Date|
            d.valid() && d.year == year && d.month == 5 && #[trigger] d.on() == Weekday::Mon
                ==> d.day <= r.day,
        holiday(r),
        forall|d: Date|
            d.valid() && d.year == year && d.month == 5 && #[trigger] holiday(d) ==> d == r,
{
    let r = one_of_seven(year, 5, 25, Weekday::Mon);
    holidays_month_by_month(r);
    assert forall|d: Date|
        d.valid() && d.year == year && d.month == 5 && #[trigger] holiday(d) implies d == r by {
        holidays_month_by_month(d);
    }
    r
}

/// Every year has Labor Day once, on the Monday of the first seven days of September: no other day
/// of September is a holiday.
pub proof fn one_labor_day_a_year(year: i32) -> (r: Date)
    requires
        MIN_YEAR < year < MAX_YEAR,
    ensures
        r.valid() && r.year == year && r.month == 9 && r.on() == Weekday::Mon,
        1 <= r.day <= 7,
        holiday(r),
        forall|d: Date|
            d.valid() && d.year == year && d.month == 9 && #[trigger] holiday(d) ==> d == r,
{
    let r = one_of_seven(year, 9, 1, Weekday::Mon);
    holidays_month_by_month(r);
    assert forall|d: Date|
        d.valid() && d.year == year && d.month == 9 && #[trigger] holiday(d) implies d == r by {
        holidays_month_by_month(d);
    }
    r
}

/// Every year has Thanksgiving once, on the fourth Thursday of November: three earlier Thursdays of
/// that month lie a week, two weeks and three weeks before it. No other day of November is a
/// holiday, and the Friday after it closes early.
pub proof fn one_thanksgiving_a_year(year: i32) -> (r: Date)
    requires
        MIN_YEAR < year < MAX_YEAR,
    ensures
        r.valid() && r.year == year && r.month == 11 && r.on() == Weekday::Thu,
        21 < r.day <= 28,
        holiday(r),
        forall|d: Date|
            d.valid() && d.year == year && d.month == 11 && #[trigger] holiday(d) ==> d == r,
        early_close(Date { year, month: 11, day: (r.day + 1) as u32 }),
{
    let r = one_of_seven(year, 11, 22, Weekday::Thu);
    holidays_month_by_month(r);
    assert forall|d: Date|
        d.valid() && d.year == year && d.month == 11 && #[trigger] holiday(d) implies d == r by {
        holidays_month_by_month(d);
    }
    let friday = Date { year, month: 11, day: (r.day + 1) as u32 };
    next_day_is_one_later(r);
    assert(r.next() == Some(friday));
    early_closes_by_date(friday);
    r
}

/// The days that close early: the Friday from the 23rd to the 29th of November, and the third of
/// July and the 24th of December from Monday to Thursday.
pub proof fn early_closes_by_date(date: Date)
    requires
        date.valid(),
        MIN_YEAR < date.year < MAX_YEAR,
    ensures
        early_close(date) <==> {
            ||| date.month == 11 && 23 <= date.day <= 29 && date.on() == Weekday::Fri
            ||| (date.month == 7 && date.day == 3 || date.month == 12 && date.day == 24)
                && date.on() != Weekday::Fri && date.on() != Weekday::Sat && date.on()
                != Weekday::Sun
        },
{
    holidays_month_by_month(date);
}

/// The month and the day of Easter Sunday, by the rule of the Gregorian calendar: the first Sunday
/// after the first full moon, as the church reckons it, on or after the 21st of March.
pub open spec fn easter(year: int) -> (int, int) {
    let golden = year % 19;
    let century = year / 100;
    let skipped = century / 4;
    let moon = (century + 8) / 25;
    let epact = (19 * golden + century - skipped - (century - moon + 1) / 3 + 15) % 30;
    let rest = year % 100;
    let sunday = (32 + 2 * (century % 4) + 2 * (rest / 4) - epact - rest % 4) % 7;
    let late = (golden + 11 * epact + 22 * sunday) / 451;
    let n = epact + sunday - 7 * late + 114;
    (n / 31, n % 31 + 1)
}

/// In the years of the table, the market is closed on the Friday two days before Easter Sunday, and
/// on no other day of March and April.
pub proof fn good_friday_precedes_easter(date: Date)
    requires
        date.valid(),
        2024 <= date.year <= 2030,
        date.month == 3 || date.month == 4,
    ensures
        ({
            let (month, day) = easter(date.year as int);
            let sunday = Date { year: date.year, month: month as u32, day: day as u32 };
            &&& sunday.on() == Weekday::Sun
            &&& holiday(date) <==> date.number() + 2 == sunday.number()
        }),
{
    holidays_month_by_month(date);
    let y = date.year as int;
    let (month, day) = easter(y);
    assert(days_before_month(y, 2) == 31 && days_before_month(y, 3) == 31 + days_in_month(y, 2)
        && days_before_month(y, 4) == 62 + days_in_month(y, 2)) by {
        reveal_with_fuel(days_before_month, 5);
    }
    if y == 2024 {
        assert(month == 3 && day == 31);
    } else if y == 2025 {
        assert(month == 4 && day == 20);
    } else if y == 2026 {
        assert(month == 4 && day == 5);
    } else if y == 2027 {
        assert(month == 3 && day == 28);
    } else if y == 2028 {
        assert(month == 4 && day == 16);
    } else if y == 2029 {
        assert(month == 4 && day == 1);
    } else {
        assert(month == 4 && day == 21);
    }
    let sunday = Date { year: date.year, month: month as u32, day: day as u32 };
    assert(sunday.valid());
    if good_friday(date) {
        good_fridays_are_fridays(date);
    }
}

/// The session at each hour of the clock. A weekday that is no holiday is overnight until 4:00,
/// then pre-market until 9:30, then regular until 16:00, then after hours until 20:00, then
/// overnight again, but closed on a Friday. On a day that closes early regular hours end at 13:00
/// and after-hours at 17:00. A weekday that is a holiday and a Saturday are closed; a Sunday is
/// closed until 20:00 and then overnight.
pub proof fn sessions_by_the_clock(date: Date, second: int)
    requires
        date.valid(),
        0 <= second < 24 * 3600,
    ensures
        ({
            let weekday = date.on() != Weekday::Sat && date.on() != Weekday::Sun;
            let session = session_of(date, second);
            let close = if early_close(date) {
                13int
            } else {
                16
            };
            &&& date.on() == Weekday::Sat ==> session == Session::Closed
            &&& date.on() == Weekday::Sun ==> session == if second < 20 * 3600 {
                Session::Closed
            } else {
                Session::Overnight
            }
            &&& weekday && holiday(date) ==> session == Session::Closed
            &&& weekday && !holiday(date) ==> {
                &&& second < 4 * 3600 ==> session == Session::Overnight
                &&& 4 * 3600 <= second < 9 * 3600 + 1800 ==> session == Session::PreMarket
                &&& 9 * 3600 + 1800 <= second < close * 3600 ==> session == Session::Regular
                &&& close * 3600 <= second < (close + 4) * 3600 ==> session == Session::AfterHours
                &&& (close + 4) * 3600 <= second ==> session == if date.on() == Weekday::Fri {
                    Session::Closed
                } else {
                    Session::Overnight
                }
            }
        }),
{
}

/// The session at an instant is that of the Eastern local date and time of day then.
pub proof fn sessions_go_by_local_time(ts: u64, date: Date, second: int)
    requires
        date.valid(),
        0 <= second < DAY_SECONDS,
        local_seconds(date, second) == ts as int / 1_000_000_000 - eastern_offset(
            ts as int / 1_000_000_000,
        ),
    ensures
        session_at_instant(ts) == session_of(date, second),
{
    local_parts(ts, date, second);
}

proof fn earliest_is_found(ts: u64, start: Date, second: u32, days: nat, date: Date)
    requires
        start.valid(),
        start.year + days < MAX_YEAR,
        date.valid(),
        trading(date),
        open_nanos(date, second) > ts,
        start.number() <= date.number() < start.number() + days,
        forall|d: Date|
            #![trigger trading(d)]
            d.valid() && start.number() <= d.number() < date.number() && trading(d) ==> open_nanos(
                d,
                second,
            ) <= ts,
    ensures
        first_open(ts, start.number(), second, days) == open_nanos(date, second),
    decreases days,
{
    date_with_number(start);
    if start.number() == date.number() {
        same_number_same_date(start, date);
    } else {
        next_day_is_one_later(start);
        assert(trading(start) ==> open_nanos(start, second) <= ts);
        earliest_is_found(ts, start.next()->0, second, (days - 1) as nat, date);
    }
}

/// The next open, at a second of the day, is that of the first day from today on on which the
/// market trades and whose opening has not passed: no opening of a day between was still to come.
pub proof fn the_next_open_is_the_first(ts: u64, today: Date, second: u32, date: Date)
    requires
        today.valid(),
        today.year + SEARCH_DAYS < MAX_YEAR,
        today.number() == eastern_day(ts),
        date.valid(),
        date.on() != Weekday::Sat && date.on() != Weekday::Sun && !holiday(date),
        open_nanos(date, second) > ts,
        today.number() <= date.number() < today.number() + 14,
        forall|d: Date|
            #![trigger holiday(d)]
            d.valid() && today.number() <= d.number() < date.number() && d.on() != Weekday::Sat
                && d.on() != Weekday::Sun && !holiday(d) ==> open_nanos(d, second) <= ts,
    ensures
        open_after(ts, second) == open_nanos(date, second),
{
    assert forall|d: Date|
        #![trigger trading(d)]
        d.valid() && today.number() <= d.number() < date.number() && trading(d) implies open_nanos(
        d,
        second,
    ) <= ts by {
        assert(!holiday(d));
    }
    earliest_is_found(ts, today, second, SEARCH_DAYS as nat, date);
}

/// The sessions are exactly their windows: half-open intervals of local time on trading days.
pub proof fn sessions_are_their_windows(date: Date, second: int)
    requires
        date.valid(),
        0 <= second < DAY_SECONDS,
    ensures
        session_of(date, second) == Session::Regular <==> trading(date) && REGULAR_OPEN <= second
            < regular_close(date),
        session_of(date, second) == Session::PreMarket <==> trading(date) && PRE_OPEN <= second
            < REGULAR_OPEN,
        session_of(date, second) == Session::AfterHours <==> trading(date) && regular_close(date)
            <= second < after_close(date),
        session_of(date, second) == Session::Overnight <==> (trading(date) && (second < PRE_OPEN
            || second >= after_close(date) && date.on() != Weekday::Fri)) || (date.on()
            == Weekday::Sun && second >= AFTER_CLOSE),
{
}

/// All of Saturday is closed, and all of a holiday that is not a Sunday.
pub proof fn closed_days(date: Date, second: int)
    requires
        date.on() == Weekday::Sat || holiday(date) && date.on() != Weekday::Sun,
    ensures
        session_of(date, second) == Session::Closed,
{
}

/// Every holiday of fixed date moves off the weekend: where it falls on a Saturday the Friday
/// before is a holiday, where it falls on a Sunday the Monday after, else the day itself.
pub proof fn fixed_holidays_move_off_the_weekend(year: i32, month: u32, day: u32)
    requires
        MIN_YEAR < year < MAX_YEAR,
        (month == 1 && day == 1) || (month == 6 && day == 19 && year >= 2022) || (month == 7 && day
            == 4) || (month == 12 && day == 25),
    ensures
        holiday(observed_date(year, month, day)),
        !weekend(observed_date(year, month, day)),
        observed_date(year, month, day).number() == (Date { year, month, day }).number() + (
        match (Date { year, month, day }).on() {
            Weekday::Sat => -1int,
            Weekday::Sun => 1,
            _ => 0,
        }),
{
    let actual = Date { year, month, day };
    previous_day_is_one_earlier(actual);
    next_day_is_one_later(actual);
    let date = observed_date(year, month, day);
    assert(observes(date, month, day));
}

/// A day that closes early is a trading day, never a weekend day or a holiday.
pub proof fn early_close_days_trade(date: Date)
    requires
        early_close(date),
    ensures
        trading(date),
{
}

/// On a trading day the regular open is in regular hours, and the second before it is not.
pub proof fn regular_hours_begin_at_the_open(date: Date)
    requires
        trading(date),
    ensures
        session_of(date, REGULAR_OPEN as int) == Session::Regular,
        session_of(date, REGULAR_OPEN - 1) == Session::PreMarket,
        session_of(date, PRE_OPEN as int) == Session::PreMarket,
        session_of(date, PRE_OPEN - 1) == Session::Overnight,
{
}

/// Each session is named by its own word, and those before, after and between regular hours are the
/// extended ones.
pub proof fn names_are_their_own(session: Session)
    ensures
        session == Session::Regular ==> session.named() == "Regular"@,
        session == Session::PreMarket ==> session.named() == "PreMarket"@,
        session == Session::AfterHours ==> session.named() == "AfterHours"@,
        session == Session::Overnight ==> session.named() == "Overnight"@,
        session == Session::Closed ==> session.named() == "Closed"@,
        session.extended() <==> session == Session::PreMarket || session == Session::AfterHours
            || session == Session::Overnight,
{
}

/// Regular hours open at half past nine and pre-market at four, local time.
pub proof fn opens_are_at_their_hours(ts: u64)
    ensures
        UsEquityCalendar.regular_open(ts) == open_after(ts, (9 * 3600 + 30 * 60) as u32),
        UsEquityCalendar.premarket_open(ts) == open_after(ts, (4 * 3600) as u32),
{
}

/// An opening is at its local time, to the nanosecond: where the zone has an instant for the local
/// time, the opening is that instant, and local time is then the second of the day at which the day
/// opens.
pub proof fn openings_are_at_their_local_time(date: Date, second: u32, ts: u64)
    requires
        open_nanos(date, second) == ts,
        ({
            let s = eastern_instant(local_seconds(date, second as int));
            s - eastern_offset(s) == local_seconds(date, second as int)
        }),
    ensures
        ts as int % 1_000_000_000 == 0,
        ts as int / 1_000_000_000 == eastern_instant(local_seconds(date, second as int)),
        eastern_seconds(ts) == local_seconds(date, second as int),
{
    let s = eastern_instant(local_seconds(date, second as int));
    assert(ts as int == s * 1_000_000_000);
}

} // verus!
