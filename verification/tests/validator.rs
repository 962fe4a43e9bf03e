//! The order validator.

use broker_feeds::alpaca::session::{Session, UsEquityCalendar};
use broker_feeds::alpaca::validator::{
    check_structure, validate_in, OrderShape, OrderValidator, Validity, QUEUE_FOR_OPEN_TAG,
};
use broker_feeds::decimal::Dec;
use broker_feeds::model::{OrderType, TimeInForce};
use chrono::{NaiveDate, TimeZone};
use chrono_tz::US::Eastern;

fn et(y: i32, mo: u32, d: u32, h: u32, mi: u32) -> u64 {
    let naive = NaiveDate::from_ymd_opt(y, mo, d).unwrap().and_hms_opt(h, mi, 0).unwrap();
    let dt = Eastern.from_local_datetime(&naive).earliest().unwrap();
    dt.timestamp_nanos_opt().unwrap() as u64
}

fn validator() -> OrderValidator<UsEquityCalendar> {
    OrderValidator::new(UsEquityCalendar)
}

fn dec(s: &str) -> Dec {
    Dec::parse(s).unwrap()
}

fn simple(ot: OrderType, tif: TimeInForce, limit: Option<&str>) -> OrderShape {
    OrderShape {
        order_type: ot,
        time_in_force: tif,
        is_complex: false,
        limit_price: limit.map(dec),
        stop_price: None,
        trail_price: None,
    }
}

fn regular() -> u64 {
    et(2026, 6, 24, 11, 0)
}

fn after_hours() -> u64 {
    et(2026, 6, 24, 17, 0)
}

fn premarket() -> u64 {
    et(2026, 6, 24, 5, 0)
}

#[test]
fn market_in_regular_ok_no_eh() {
    let v = validator().validate(&simple(OrderType::Market, TimeInForce::Day, None), regular());
    assert_eq!(v, Validity::Valid { extended_hours: false });
}

#[test]
fn market_after_hours_session_reject() {
    let v =
        validator().validate(&simple(OrderType::Market, TimeInForce::Day, None), after_hours());
    assert!(matches!(v, Validity::SessionReject { .. }));
}

#[test]
fn limit_premarket_sets_extended_hours() {
    let v = validator()
        .validate(&simple(OrderType::Limit, TimeInForce::Day, Some("189.50")), premarket());
    assert_eq!(v, Validity::Valid { extended_hours: true });
}

#[test]
fn limit_after_hours_sets_extended_hours() {
    let v = validator()
        .validate(&simple(OrderType::Limit, TimeInForce::Gtc, Some("189.50")), after_hours());
    assert_eq!(v, Validity::Valid { extended_hours: true });
}

#[test]
fn subpenny_is_structure_reject() {
    let v = validator()
        .validate(&simple(OrderType::Limit, TimeInForce::Day, Some("189.123")), regular());
    assert!(matches!(v, Validity::StructureReject { .. }));
}

#[test]
fn bracket_in_regular_ok_in_eh_session_reject() {
    let bracket = OrderShape {
        order_type: OrderType::Limit,
        time_in_force: TimeInForce::Day,
        is_complex: true,
        limit_price: Some(dec("189.50")),
        stop_price: None,
        trail_price: None,
    };
    assert_eq!(
        validator().validate(&bracket, regular()),
        Validity::Valid { extended_hours: false }
    );
    assert!(matches!(
        validator().validate(&bracket, after_hours()),
        Validity::SessionReject { .. }
    ));
}

#[test]
fn unsupported_tif_structure_reject() {
    let v = validator()
        .validate(&simple(OrderType::Limit, TimeInForce::Ioc, Some("189.50")), regular());
    assert!(matches!(v, Validity::StructureReject { .. }));
}

#[test]
fn capabilities_per_session() {
    let caps_reg = validator().order_capabilities(regular());
    assert_eq!(caps_reg.session, Session::Regular);
    assert_eq!(caps_reg.simple.len(), 8);
    assert!(caps_reg.complex_allowed);

    let caps_eh = validator().order_capabilities(after_hours());
    assert_eq!(caps_eh.session, Session::AfterHours);
    assert_eq!(caps_eh.simple.len(), 2);
    assert!(caps_eh.simple.iter().all(|(ot, _)| *ot == OrderType::Limit));
    assert!(!caps_eh.complex_allowed);
}

#[test]
fn earliest_open_eh_eligible_vs_not() {
    let limit = simple(OrderType::Limit, TimeInForce::Day, Some("189.50"));
    assert_eq!(validator().earliest_valid_open(&limit, after_hours()), et(2026, 6, 25, 4, 0));
    let market = simple(OrderType::Market, TimeInForce::Day, None);
    assert_eq!(validator().earliest_valid_open(&market, after_hours()), et(2026, 6, 25, 9, 30));
}

#[test]
fn reject_texts() {
    assert_eq!(
        validate_in(&simple(OrderType::StopMarket, TimeInForce::Gtc, None), Session::AfterHours),
        Validity::SessionReject {
            reason: "StopMarket Gtc not accepted in session AfterHours".to_owned()
        }
    );
    let complex = OrderShape { is_complex: true, ..simple(OrderType::Limit, TimeInForce::Day, None) };
    assert_eq!(
        validate_in(&complex, Session::Overnight),
        Validity::SessionReject {
            reason: "bracket/OCO/OTO orders require Regular hours (current session: Overnight)"
                .to_owned()
        }
    );
    assert_eq!(
        check_structure(&simple(OrderType::Limit, TimeInForce::Fok, Some("1.00"))),
        Some("time-in-force Fok is out of scope for US equities (only DAY/GTC; Alpaca rejects GTD/IOC/FOK/auction TIFs)".to_owned())
    );
}

#[test]
fn the_first_bad_price_is_named() {
    let shape = OrderShape {
        limit_price: Some(dec("2.50")),
        stop_price: Some(dec("2.505")),
        trail_price: Some(dec("0.00001")),
        ..simple(OrderType::StopLimit, TimeInForce::Ioc, None)
    };
    assert_eq!(
        check_structure(&shape),
        Some("price 2.505 violates sub-penny rule (max 2 decimals for price ≥ $1.00)".to_owned())
    );
    let shape = OrderShape { stop_price: None, ..shape };
    assert_eq!(
        check_structure(&shape),
        Some("price 0.00001 violates sub-penny rule (max 4 decimals for price < $1.00)".to_owned())
    );
}

#[test]
fn complex_limit_orders_are_held_until_the_regular_open() {
    let complex = OrderShape { is_complex: true, ..simple(OrderType::Limit, TimeInForce::Day, None) };
    assert_eq!(validator().earliest_valid_open(&complex, premarket()), et(2026, 6, 24, 9, 30));
    assert_eq!(validator().session_at(premarket()), Session::PreMarket);
    assert_eq!(QUEUE_FOR_OPEN_TAG, "queue_for_open");
}

#[test]
fn types_that_no_session_accepts() {
    for (ot, name) in [
        (OrderType::MarketIfTouched, "MarketIfTouched"),
        (OrderType::LimitIfTouched, "LimitIfTouched"),
    ] {
        let reason = format!("unsupported order type for Alpaca: {name}");
        let shape = simple(ot, TimeInForce::Day, None);
        assert_eq!(check_structure(&shape), Some(reason.clone()));
        for at in [regular(), premarket(), after_hours(), 0, 1_782_313_200_000_000_000] {
            assert_eq!(
                validator().validate(&shape, at),
                Validity::StructureReject { reason: reason.clone() }
            );
        }
        // Legs of complex orders are not held to the table of types.
        let complex = OrderShape { is_complex: true, ..shape };
        assert_eq!(check_structure(&complex), None);
    }
    assert_eq!(
        check_structure(&simple(OrderType::MarketIfTouched, TimeInForce::Ioc, None)),
        check_structure(&simple(OrderType::Limit, TimeInForce::Ioc, None))
    );
}
