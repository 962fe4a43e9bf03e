//! Calendar dates, and local time in the Eastern time zone of the United States.
//!
//! [`Date`] holds what `chrono::NaiveDate` holds. The calendar arithmetic and the time zone are
//! those of `chrono` and `chrono_tz`.

use chrono::{DateTime, Datelike, Days, NaiveDate, NaiveTime, TimeZone, Timelike};
use chrono_tz::US::Eastern;
use vstd::prelude::*;

verus! {

/// A day of the week.
#[derive(Clone, Copy, Debug, PartialEq, Eq, Structural)]
pub enum Weekday {
    Mon,
    Tue,
    Wed,
    Thu,
    Fri,
    Sat,
    Sun,
}

/// The first year of the calendar.
pub const MIN_YEAR: i32 = -262_143;

/// The last year of the calendar.
pub const MAX_YEAR: i32 = 262_142;

/// A date of the proleptic Gregorian calendar.
#[derive(Clone, Copy, Debug, PartialEq, Eq, Structural)]
pub struct Date {
    pub year: i32,
    /// From 1 on.
    pub month: u32,
    /// From 1 on.
    pub day: u32,
}

/// Whether `year` has a 29th of February.
pub open spec fn is_leap(year: int) -> bool {
    year % 4 == 0 && (year % 100 != 0 || year % 400 == 0)
}

/// The number of days of a month.
pub open spec fn days_in_month(year: int, month: int) -> int {
    if month == 2 {
        if is_leap(year) {
            29
        } else {
            28
        }
    } else if month == 4 || month == 6 || month == 9 || month == 11 {
        30
    } else {
        31
    }
}

/// The number of days of a year before a month begins.
pub open spec fn days_before_month(year: int, month: int) -> int
    decreases month,
{
    if month <= 1 {
        0
    } else {
        days_before_month(year, month - 1) + days_in_month(year, month - 1)
    }
}

/// The number of days from the first of January of year 1 until a year begins.
pub open spec fn days_before_year(year: int) -> int {
    365 * (year - 1) + (year - 1) / 4 - (year - 1) / 100 + (year - 1) / 400
}

impl Date {
    /// Whether this is a date of the calendar.
    pub open spec fn valid(self) -> bool {
        &&& MIN_YEAR <= self.year <= MAX_YEAR
        &&& 1 <= self.month <= 12
        &&& 1 <= self.day <= days_in_month(self.year as int, self.month as int)
    }

    /// The number of the day, counted from the first of January of year 1, which is day 1.
    pub open spec fn number(self) -> int {
        days_before_year(self.year as int) + days_before_month(self.year as int, self.month as int)
            + self.day
    }

    /// The day of the week; day 1 is a Monday.
    pub open spec fn on(self) -> Weekday {
        let k = (self.number() - 1) % 7;
        if k == 0 {
            Weekday::Mon
        } else if k == 1 {
            Weekday::Tue
        } else if k == 2 {
            Weekday::Wed
        } else if k == 3 {
            Weekday::Thu
        } else if k == 4 {
            Weekday::Fri
        } else if k == 5 {
            Weekday::Sat
        } else {
            Weekday::Sun
        }
    }

    /// The date of the next day; past the last date there is none.
    pub open spec fn next(self) -> Option<Date> {
        if self.day < days_in_month(self.year as int, self.month as int) {
            Some(Date { year: self.year, month: self.month, day: (self.day + 1) as u32 })
        } else if self.month < 12 {
            Some(Date { year: self.year, month: (self.month + 1) as u32, day: 1 })
        } else if self.year < MAX_YEAR {
            Some(Date { year: (self.year + 1) as i32, month: 1, day: 1 })
        } else {
            None
        }
    }

    /// The date of the day before; before the first date there is none.
    pub open spec fn previous(self) -> Option<Date> {
        if self.day > 1 {
            Some(Date { year: self.year, month: self.month, day: (self.day - 1) as u32 })
        } else if self.month > 1 {
            Some(
                Date {
                    year: self.year,
                    month: (self.month - 1) as u32,
                    day: days_in_month(self.year as int, self.month - 1) as u32,
                },
            )
        } else if self.year > MIN_YEAR {
            Some(Date { year: (self.year - 1) as i32, month: 12, day: 31 })
        } else {
            None
        }
    }

    /// The date a week later; past the last date there is none.
    pub open spec fn week_after(self) -> Option<Date> {
        let last = days_in_month(self.year as int, self.month as int);
        if self.day + 7 <= last {
            Some(Date { year: self.year, month: self.month, day: (self.day + 7) as u32 })
        } else if self.month < 12 {
            Some(
                Date {
                    year: self.year,
                    month: (self.month + 1) as u32,
                    day: (self.day + 7 - last) as u32,
                },
            )
        } else if self.year < MAX_YEAR {
            Some(Date { year: (self.year + 1) as i32, month: 1, day: (self.day + 7 - last) as u32 })
        } else {
            None
        }
    }
}

/// `NaiveDate::from_ymd_opt` gives a date for exactly the parts that are a date of the calendar.
#[verifier::external_body]
fn outside_date_exists(year: i32, month: u32, day: u32) -> (r: bool)
    ensures
        r == (Date { year, month, day }).valid(),
{
    NaiveDate::from_ymd_opt(year, month, day).is_some()
}

/// `NaiveDate::weekday` gives the day of the week; the calendar's first of January of year 1 is a
/// Monday and the days of the week follow each other from there.
#[verifier::external_body]
fn outside_weekday(date: Date) -> (r: Weekday)
    requires
        date.valid(),
    ensures
        r == date.on(),
{
    match NaiveDate::from_ymd_opt(date.year, date.month, date.day).unwrap().weekday() {
        chrono::Weekday::Mon => Weekday::Mon,
        chrono::Weekday::Tue => Weekday::Tue,
        chrono::Weekday::Wed => Weekday::Wed,
        chrono::Weekday::Thu => Weekday::Thu,
        chrono::Weekday::Fri => Weekday::Fri,
        chrono::Weekday::Sat => Weekday::Sat,
        chrono::Weekday::Sun => Weekday::Sun,
    }
}

/// `NaiveDate::succ_opt` gives the date of the next day, if the calendar has one.
#[verifier::external_body]
fn outside_next(date: Date) -> (r: Option<Date>)
    requires
        date.valid(),
    ensures
        r == date.next(),
{
    let d = NaiveDate::from_ymd_opt(date.year, date.month, date.day).unwrap();
    d.succ_opt().map(|d| Date { year: d.year(), month: d.month(), day: d.day() })
}

/// `NaiveDate::pred_opt` gives the date of the day before, if the calendar has one.
#[verifier::external_body]
fn outside_previous(date: Date) -> (r: Option<Date>)
    requires
        date.valid(),
    ensures
        r == date.previous(),
{
    let d = NaiveDate::from_ymd_opt(date.year, date.month, date.day).unwrap();
    d.pred_opt().map(|d| Date { year: d.year(), month: d.month(), day: d.day() })
}

/// `NaiveDate::checked_add_days` with seven days gives the date a week later, if the calendar has
/// one.
#[verifier::external_body]
fn outside_week_after(date: Date) -> (r: Option<Date>)
    requires
        date.valid(),
    ensures
        r == date.week_after(),
{
    let d = NaiveDate::from_ymd_opt(date.year, date.month, date.day).unwrap();
    let later = d.checked_add_days(Days::new(7));
    later.map(|d| Date { year: d.year(), month: d.month(), day: d.day() })
}

impl Date {
    /// The date with these parts, if there is one.
    pub fn new(year: i32, month: u32, day: u32) -> (r: Option<Date>)
        ensures
            r == (if (Date { year, month, day }).valid() {
                Some(Date { year, month, day })
            } else {
                None
            }),
    {
        if outside_date_exists(year, month, day) {
            Some(Date { year, month, day })
        } else {
            None
        }
    }

    /// The day of the week.
    pub fn weekday(self) -> (r: Weekday)
        requires
            self.valid(),
        ensures
            r == self.on(),
    {
        outside_weekday(self)
    }

    /// The date of the next day.
    pub fn next_day(self) -> (r: Option<Date>)
        requires
            self.valid(),
        ensures
            r == self.next(),
            r matches Some(d) ==> d.valid(),
    {
        outside_next(self)
    }

    /// The date of the day before.
    pub fn previous_day(self) -> (r: Option<Date>)
        requires
            self.valid(),
        ensures
            r == self.previous(),
            r matches Some(d) ==> d.valid(),
    {
        outside_previous(self)
    }

    /// The date a week later.
    pub fn next_week(self) -> (r: Option<Date>)
        requires
            self.valid(),
        ensures
            r == self.week_after(),
            r matches Some(d) ==> d.valid(),
    {
        outside_week_after(self)
    }
}

// ----- Eastern time -----

/// The number of the day on which Unix time begins, the first of January 1970.
pub const UNIX_DAY: i64 = 719_163;

/// The seconds of a day.
pub const DAY_SECONDS: i64 = 86_400;

/// The nanoseconds of a second.
pub const SECOND_NANOS: u64 = 1_000_000_000;

/// The seconds by which Eastern local time is behind Unix time at a second of Unix time, as
/// `chrono_tz` has it.
pub uninterp spec fn eastern_offset(unix_seconds: int) -> int;

/// The second of Unix time at which Eastern local time is the given number of seconds past the
/// local midnight that began the first of January 1970, as `chrono_tz` has it; the earliest one
/// where there are two.
pub uninterp spec fn eastern_instant(local_seconds: int) -> int;

/// The seconds from the local midnight that began the first of January 1970 until `second` of the
/// day `date`.
pub open spec fn local_seconds(date: Date, second: int) -> int {
    (date.number() - UNIX_DAY) * DAY_SECONDS + second
}

/// Whether local time is four or five hours behind Unix time.
pub open spec fn is_eastern_offset(offset: int) -> bool {
    offset == 14_400 || offset == 18_000
}

/// `DateTime::from_timestamp_nanos` followed by `DateTime::with_timezone` for
/// `chrono_tz::US::Eastern`: the local date, and the whole seconds since its midnight, at an
/// instant of Unix time. From 1970 on the zone is always four or five hours behind.
#[verifier::external_body]
fn outside_eastern_local(ts: u64) -> (r: (Date, u32))
    requires
        ts <= i64::MAX,
    ensures
        r.0.valid(),
        r.1 < DAY_SECONDS,
        1969 <= r.0.year <= 2262,
        local_seconds(r.0, r.1 as int) == ts as int / SECOND_NANOS as int - eastern_offset(
            ts as int / SECOND_NANOS as int,
        ),
        is_eastern_offset(ts as int / SECOND_NANOS as int - local_seconds(r.0, r.1 as int)),
{
    let local = DateTime::from_timestamp_nanos(ts as i64).with_timezone(&Eastern);
    let date = local.date_naive();
    let second = local.time().num_seconds_from_midnight();
    (Date { year: date.year(), month: date.month(), day: date.day() }, second)
}

/// `TimeZone::from_local_datetime` for `chrono_tz::US::Eastern`, then `earliest`: the second of
/// Unix time at a local date and second of the day. From 1969 on the zone's clocks skip only local
/// times between two and three o'clock, so from three o'clock on there is such a second, at which
/// the zone is four or five hours behind.
#[verifier::external_body]
fn outside_eastern_instant(date: Date, second: u32) -> (r: i64)
    requires
        date.valid(),
        1969 <= date.year <= 3000,
        10_800 <= second < DAY_SECONDS,
    ensures
        r == eastern_instant(local_seconds(date, second as int)),
        r - eastern_offset(r as int) == local_seconds(date, second as int),
        is_eastern_offset(r - local_seconds(date, second as int)),
{
    let day = NaiveDate::from_ymd_opt(date.year, date.month, date.day).unwrap();
    let time = NaiveTime::from_num_seconds_from_midnight_opt(second, 0).unwrap();
    Eastern.from_local_datetime(&day.and_time(time)).earliest().unwrap().timestamp()
}

/// The Eastern local date, and the whole seconds since its midnight, at `ts` nanoseconds of Unix
/// time.
pub fn eastern_local(ts: u64) -> (r: (Date, u32))
    requires
        ts <= i64::MAX,
    ensures
        r.0.valid(),
        r.1 < DAY_SECONDS,
        1969 <= r.0.year <= 2262,
        local_seconds(r.0, r.1 as int) == ts as int / SECOND_NANOS as int - eastern_offset(
            ts as int / SECOND_NANOS as int,
        ),
        is_eastern_offset(ts as int / SECOND_NANOS as int - local_seconds(r.0, r.1 as int)),
{
    outside_eastern_local(ts)
}

/// The second of Unix time at a second, from three o'clock on, of an Eastern local date.
pub fn eastern_second(date: Date, second: u32) -> (r: i64)
    requires
        date.valid(),
        1969 <= date.year <= 3000,
        10_800 <= second < DAY_SECONDS,
    ensures
        r == eastern_instant(local_seconds(date, second as int)),
        r - eastern_offset(r as int) == local_seconds(date, second as int),
        is_eastern_offset(r - local_seconds(date, second as int)),
{
    outside_eastern_instant(date, second)
}

// ----- laws -----

proof fn months_add_up(year: int)
    ensures
        days_before_month(year, 12) + 31 == if is_leap(year) {
            366int
        } else {
            365
        },
{
    reveal_with_fuel(days_before_month, 13);
}

proof fn years_add_up(year: int)
    ensures
        days_before_year(year + 1) == days_before_year(year) + if is_leap(year) {
            366int
        } else {
            365
        },
{
}

/// The number of the next day is one more, and the day of the week moves on by one.
pub proof fn next_day_is_one_later(date: Date)
    requires
        date.valid(),
        date.next() is Some,
    ensures
        date.next()->0.valid(),
        date.next()->0.number() == date.number() + 1,
{
    months_add_up(date.year as int);
    years_add_up(date.year as int);
    reveal_with_fuel(days_before_month, 2);
}

/// The day before is undone by the next day, and its number is one less.
pub proof fn previous_day_is_one_earlier(date: Date)
    requires
        date.valid(),
        date.previous() is Some,
    ensures
        date.previous()->0.valid(),
        date.previous()->0.next() == Some(date),
        date.previous()->0.number() == date.number() - 1,
{
    next_day_is_one_later(date.previous()->0);
}

proof fn months_grow(year: int, a: int, b: int)
    requires
        1 <= a <= b,
    ensures
        days_before_month(year, a) <= days_before_month(year, b),
        a < b ==> days_before_month(year, a) + days_in_month(year, a) <= days_before_month(
            year,
            b,
        ),
    decreases b - a,
{
    if a < b {
        months_grow(year, a, b - 1);
    }
}

proof fn years_grow(a: int, b: int)
    requires
        a <= b,
    ensures
        days_before_year(a) + 365 * (b - a) <= days_before_year(b),
    decreases b - a,
{
    if a < b {
        years_add_up(b - 1);
        years_grow(a, b - 1);
    }
}

proof fn number_within_year(date: Date)
    requires
        date.valid(),
    ensures
        days_before_year(date.year as int) < date.number() <= days_before_year(date.year + 1),
{
    months_grow(date.year as int, 1, date.month as int);
    months_grow(date.year as int, date.month as int, 12);
    months_add_up(date.year as int);
    years_add_up(date.year as int);
}

/// A date is determined by the number of its day.
pub proof fn same_number_same_date(a: Date, b: Date)
    requires
        a.valid(),
        b.valid(),
        a.number() == b.number(),
    ensures
        a == b,
{
    number_within_year(a);
    number_within_year(b);
    if a.year < b.year {
        years_grow(a.year + 1, b.year as int);
    }
    if b.year < a.year {
        years_grow(b.year + 1, a.year as int);
    }
    let y = a.year as int;
    if a.month < b.month {
        months_grow(y, a.month as int, b.month as int);
    }
    if b.month < a.month {
        months_grow(y, b.month as int, a.month as int);
    }
}

/// A week later is seven days later, on the same day of the week.
pub proof fn week_after_is_seven_later(date: Date)
    requires
        date.valid(),
        date.week_after() is Some,
    ensures
        date.week_after()->0.valid(),
        date.week_after()->0.number() == date.number() + 7,
        date.week_after()->0.on() == date.on(),
{
    months_add_up(date.year as int);
    years_add_up(date.year as int);
    reveal_with_fuel(days_before_month, 2);
}

} // verus!
