//! The market's calendar.

use broker_feeds::alpaca::dates::{eastern_local, eastern_second, Date, Weekday};
use broker_feeds::alpaca::session::{
    MarketCalendar, Session, UsEquityCalendar, PREMARKET_END, REGULAR_END,
};
use chrono::{NaiveDate, TimeZone};
use chrono_tz::US::Eastern;

fn et(y: i32, mo: u32, d: u32, h: u32, mi: u32) -> u64 {
    let naive = NaiveDate::from_ymd_opt(y, mo, d).unwrap().and_hms_opt(h, mi, 0).unwrap();
    let dt = Eastern.from_local_datetime(&naive).earliest().unwrap();
    dt.timestamp_nanos_opt().unwrap() as u64
}

fn date(y: i32, m: u32, d: u32) -> Date {
    Date::new(y, m, d).unwrap()
}

#[test]
fn regular_session_weekday_midday() {
    assert_eq!(UsEquityCalendar.session_at(et(2026, 6, 24, 11, 0)), Session::Regular);
}

#[test]
fn premarket_and_afterhours() {
    assert_eq!(UsEquityCalendar.session_at(et(2026, 6, 24, 5, 0)), Session::PreMarket);
    assert_eq!(UsEquityCalendar.session_at(et(2026, 6, 24, 17, 0)), Session::AfterHours);
}

#[test]
fn boundaries_open_and_close() {
    assert_eq!(UsEquityCalendar.session_at(et(2026, 6, 24, 9, 30)), Session::Regular);
    assert_eq!(UsEquityCalendar.session_at(et(2026, 6, 24, 16, 0)), Session::AfterHours);
    assert_eq!(UsEquityCalendar.session_at(et(2026, 6, 24, 4, 0)), Session::PreMarket);
    assert_eq!(UsEquityCalendar.session_at(et(2026, 6, 24, 3, 59)), Session::Overnight);
}

#[test]
fn overnight_and_weekend() {
    assert_eq!(UsEquityCalendar.session_at(et(2026, 6, 24, 21, 0)), Session::Overnight);
    assert_eq!(UsEquityCalendar.session_at(et(2026, 6, 26, 21, 0)), Session::Closed);
    assert_eq!(UsEquityCalendar.session_at(et(2026, 6, 27, 12, 0)), Session::Closed);
    assert_eq!(UsEquityCalendar.session_at(et(2026, 6, 28, 21, 0)), Session::Overnight);
}

#[test]
fn holidays_are_closed() {
    assert_eq!(UsEquityCalendar.session_at(et(2026, 12, 25, 11, 0)), Session::Closed);
    assert!(UsEquityCalendar::is_holiday(date(2026, 7, 3)));
    assert_eq!(UsEquityCalendar.session_at(et(2026, 1, 1, 11, 0)), Session::Closed);
    assert!(UsEquityCalendar::is_holiday(date(2026, 1, 19)));
    assert!(UsEquityCalendar::is_holiday(date(2026, 11, 26)));
    assert!(UsEquityCalendar::is_holiday(date(2026, 4, 3)));
}

#[test]
fn early_close_day_shifts_windows() {
    assert!(UsEquityCalendar::is_early_close(date(2026, 11, 27)));
    assert_eq!(UsEquityCalendar.session_at(et(2026, 11, 27, 12, 30)), Session::Regular);
    assert_eq!(UsEquityCalendar.session_at(et(2026, 11, 27, 14, 0)), Session::AfterHours);
    assert_eq!(UsEquityCalendar.session_at(et(2026, 11, 27, 17, 0)), Session::Closed);
    assert_eq!(UsEquityCalendar.session_at(et(2026, 11, 27, 16, 30)), Session::AfterHours);
}

#[test]
fn next_regular_open_skips_weekend_and_holiday() {
    let from = et(2026, 6, 26, 18, 0);
    let open = UsEquityCalendar.next_regular_open(from);
    let expected = et(2026, 6, 29, 9, 30);
    assert_eq!(open, expected);
}

#[test]
fn next_premarket_open_is_4am() {
    let from = et(2026, 6, 24, 21, 0);
    let open = UsEquityCalendar.next_premarket_open(from);
    let expected = et(2026, 6, 25, 4, 0);
    assert_eq!(open, expected);
}

#[test]
fn dst_spring_forward_regular_open() {
    assert_eq!(UsEquityCalendar.session_at(et(2026, 3, 9, 9, 30)), Session::Regular);
}

#[test]
fn extended_hours_sessions() {
    assert!(Session::PreMarket.is_extended_hours());
    assert!(Session::AfterHours.is_extended_hours());
    assert!(Session::Overnight.is_extended_hours());
    assert!(!Session::Regular.is_extended_hours());
    assert!(!Session::Closed.is_extended_hours());
}

#[test]
fn every_holiday_of_a_year() {
    let holidays = [(1, 1), (1, 20), (2, 17), (4, 18), (5, 26), (6, 19), (7, 4), (9, 1), (11, 27), (12, 25)];
    let mut d = date(2025, 1, 1);
    let mut found = Vec::new();
    while d.year == 2025 {
        if UsEquityCalendar::is_holiday(d) {
            found.push((d.month, d.day));
        }
        d = d.next_day().unwrap();
    }
    assert_eq!(found, holidays);
}

#[test]
fn early_closes_of_a_year() {
    let mut d = date(2025, 1, 1);
    let mut found = Vec::new();
    while d.year == 2025 {
        if UsEquityCalendar::is_early_close(d) {
            found.push((d.month, d.day));
        }
        d = d.next_day().unwrap();
    }
    assert_eq!(found, [(7, 3), (11, 28), (12, 24)]);
    assert!(!UsEquityCalendar::is_early_close(date(2026, 7, 3)));
}

#[test]
fn weekend_observance() {
    // The fourth of July 2027 is a Sunday, Christmas 2027 a Saturday.
    assert!(UsEquityCalendar::is_holiday(date(2027, 7, 5)));
    assert!(UsEquityCalendar::is_holiday(date(2027, 12, 24)));
    // Before 2022 the nineteenth of June was a trading day.
    assert!(!UsEquityCalendar::is_holiday(date(2020, 6, 19)));
    // New Year's Day 2028 is a Saturday, and 2022 began on one.
    assert!(UsEquityCalendar::is_holiday(date(2027, 12, 31)));
    assert!(UsEquityCalendar::is_holiday(date(2021, 12, 31)));
    assert!(!UsEquityCalendar::is_holiday(date(2026, 12, 31)));
    assert_eq!(UsEquityCalendar.session_at(et(2027, 12, 31, 11, 0)), Session::Closed);
    assert!(UsEquityCalendar::is_holiday(date(2023, 1, 2)));
}

#[test]
fn early_close_on_a_weekday_leads_to_overnight() {
    // Christmas Eve 2026 is a Thursday.
    assert_eq!(UsEquityCalendar::classify_local(date(2026, 12, 24), 46_799), Session::Regular);
    assert_eq!(UsEquityCalendar::classify_local(date(2026, 12, 24), 46_800), Session::AfterHours);
    assert_eq!(UsEquityCalendar::classify_local(date(2026, 12, 24), 61_200), Session::Overnight);
}

#[test]
fn next_open_is_strictly_later() {
    let open = et(2026, 6, 24, 9, 30);
    assert_eq!(UsEquityCalendar.next_regular_open(open), et(2026, 6, 25, 9, 30));
    assert_eq!(UsEquityCalendar.next_regular_open(open - 1), open);
    // Across Thanksgiving.
    assert_eq!(
        UsEquityCalendar.next_premarket_open(et(2026, 11, 25, 4, 0)),
        et(2026, 11, 27, 4, 0)
    );
    // Across the change of the clocks.
    assert_eq!(
        UsEquityCalendar.next_regular_open(et(2026, 10, 30, 12, 0)),
        et(2026, 11, 2, 9, 30)
    );
}

#[test]
fn the_last_openings_in_range() {
    // The zone's table has standard time all year by then.
    assert_eq!(UsEquityCalendar.next_regular_open(REGULAR_END - 1), 9_223_338_600_000_000_000);
    assert_eq!(UsEquityCalendar.next_premarket_open(PREMARKET_END - 1), 9_223_318_800_000_000_000);
    assert_eq!(UsEquityCalendar.session_at(9_223_338_600_000_000_000), Session::Regular);
    assert_eq!(UsEquityCalendar.session_at(i64::MAX as u64), Session::AfterHours);
    assert_eq!(UsEquityCalendar.session_at(0), Session::AfterHours);
}

#[test]
fn dates_and_their_neighbours() {
    assert_eq!(Date::new(2023, 2, 29), None);
    assert_eq!(Date::new(2024, 13, 1), None);
    assert_eq!(date(2024, 2, 28).next_day(), Some(date(2024, 2, 29)));
    assert_eq!(date(2023, 12, 31).next_day(), Some(date(2024, 1, 1)));
    assert_eq!(date(2024, 3, 1).previous_day(), Some(date(2024, 2, 29)));
    assert_eq!(date(2024, 2, 27).next_week(), Some(date(2024, 3, 5)));
    assert_eq!(date(262_142, 12, 31).next_day(), None);
    assert_eq!(date(-262_143, 1, 1).previous_day(), None);
    assert_eq!(date(262_142, 12, 30).next_week(), None);
    assert_eq!(date(2026, 6, 24).weekday(), Weekday::Wed);
    assert_eq!(date(1, 1, 1).weekday(), Weekday::Mon);
}

#[test]
fn eastern_time_both_ways() {
    let ts = et(2026, 1, 15, 9, 30);
    assert_eq!(eastern_local(ts), (date(2026, 1, 15), 34_200));
    assert_eq!(eastern_second(date(2026, 1, 15), 34_200), 1_768_487_400);
    assert_eq!(eastern_second(date(2026, 7, 15), 34_200), 1_784_122_200);
}

#[test]
fn the_next_open_is_later() {
    // At the open itself, and an hour after it.
    for now in [et(2026, 6, 24, 9, 30), et(2026, 6, 24, 10, 30)] {
        let next = UsEquityCalendar.next_regular_open(now);
        assert!(now < next);
        assert_eq!(next, et(2026, 6, 25, 9, 30));
    }
    // Over New Year's Day, observed on the Friday before.
    assert_eq!(UsEquityCalendar.next_regular_open(et(2027, 12, 30, 17, 0)), et(2028, 1, 3, 9, 30));
}
