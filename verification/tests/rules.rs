//! Which order shapes are accepted in which session.

use broker_feeds::alpaca::rules::{check_subpenny, complex_allowed, simple_validity};
use broker_feeds::alpaca::session::Session;
use broker_feeds::decimal::Dec;
use broker_feeds::model::{OrderType, TimeInForce};
use rust_decimal::Decimal;

fn price(value: f64) -> Dec {
    let d = Decimal::try_from(value).unwrap();
    Dec::new(d.mantissa(), d.scale()).unwrap()
}

#[test]
fn regular_accepts_all_types_no_eh() {
    for ot in [
        OrderType::Market,
        OrderType::Limit,
        OrderType::StopMarket,
        OrderType::StopLimit,
        OrderType::TrailingStopMarket,
        OrderType::TrailingStopLimit,
        OrderType::MarketToLimit,
    ] {
        assert_eq!(
            simple_validity(ot, TimeInForce::Day, Session::Regular),
            Some(false),
            "{ot:?} should be valid in Regular with no EH flag"
        );
    }
}

#[test]
fn gtd_out_of_scope_for_equities() {
    assert_eq!(simple_validity(OrderType::Limit, TimeInForce::Gtd, Session::Regular), None);
}

#[test]
fn trailing_and_mtl_rejected_in_extended_hours() {
    for session in [Session::PreMarket, Session::AfterHours] {
        for ot in [OrderType::TrailingStopMarket, OrderType::MarketToLimit] {
            assert_eq!(
                simple_validity(ot, TimeInForce::Day, session),
                None,
                "{ot:?} should be rejected in {session:?}"
            );
        }
    }
}

#[test]
fn extended_hours_only_limit_with_eh_flag() {
    for session in [Session::PreMarket, Session::AfterHours, Session::Overnight] {
        assert_eq!(
            simple_validity(OrderType::Limit, TimeInForce::Day, session),
            Some(true),
            "limit should be valid in {session:?} with EH flag"
        );
        for ot in [OrderType::Market, OrderType::StopMarket, OrderType::StopLimit] {
            assert_eq!(
                simple_validity(ot, TimeInForce::Day, session),
                None,
                "{ot:?} should be rejected in {session:?}"
            );
        }
    }
}

#[test]
fn closed_rejects_everything() {
    for ot in [OrderType::Market, OrderType::Limit] {
        assert_eq!(simple_validity(ot, TimeInForce::Gtc, Session::Closed), None);
    }
}

#[test]
fn unsupported_tif_rejected() {
    assert_eq!(simple_validity(OrderType::Limit, TimeInForce::Ioc, Session::Regular), None);
}

#[test]
fn complex_only_in_regular() {
    assert!(complex_allowed(TimeInForce::Day, Session::Regular));
    assert!(complex_allowed(TimeInForce::Gtc, Session::Regular));
    for s in [Session::PreMarket, Session::AfterHours, Session::Overnight, Session::Closed] {
        assert!(!complex_allowed(TimeInForce::Day, s), "complex in {s:?}");
    }
    assert!(!complex_allowed(TimeInForce::Ioc, Session::Regular));
}

#[test]
fn subpenny_rules() {
    assert!(check_subpenny(price(189.50)).is_ok());
    assert!(check_subpenny(price(189.123)).is_err());
    assert!(check_subpenny(price(0.1234)).is_ok());
    assert!(check_subpenny(price(0.12345)).is_err());
    assert!(check_subpenny(price(1.00)).is_ok());
    assert!(check_subpenny(price(0.0)).is_err());
}

#[test]
fn subpenny_texts() {
    assert_eq!(
        check_subpenny(price(189.123)),
        Err("price 189.123 violates sub-penny rule (max 2 decimals for price ≥ $1.00)".to_owned())
    );
    assert_eq!(
        check_subpenny(Dec::parse("0.123450").unwrap()),
        Err("price 0.12345 violates sub-penny rule (max 4 decimals for price < $1.00)".to_owned())
    );
    assert_eq!(
        check_subpenny(Dec::parse("-1.50").unwrap()),
        Err("price -1.5 must be positive and finite".to_owned())
    );
    assert_eq!(check_subpenny(Dec::parse("189.5000000").unwrap()), Ok(()));
}

#[test]
fn touched_types_are_never_accepted() {
    for ot in [OrderType::MarketIfTouched, OrderType::LimitIfTouched] {
        assert_eq!(simple_validity(ot, TimeInForce::Day, Session::Regular), None);
    }
}
