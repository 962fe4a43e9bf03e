//! Refusal of orders that the state of the account rules out.

use broker_feeds::alpaca::wash::{
    check_wash_trade, try_check_wash_trade, OpenOrderView, PendingOrder,
};
use broker_feeds::decimal::Dec;

fn dec(v: &str) -> Dec {
    Dec::parse(v).unwrap()
}

fn sell(qty: &str, limit: Option<&str>) -> PendingOrder {
    PendingOrder { is_buy: false, quantity: dec(qty), limit_price: limit.map(dec) }
}

fn buy(qty: &str, limit: Option<&str>) -> PendingOrder {
    PendingOrder { is_buy: true, quantity: dec(qty), limit_price: limit.map(dec) }
}

fn open_sell(qty: &str, limit: Option<&str>) -> OpenOrderView {
    OpenOrderView { is_buy: false, leaves_qty: dec(qty), limit_price: limit.map(dec) }
}

fn open_buy(qty: &str, limit: Option<&str>) -> OpenOrderView {
    OpenOrderView { is_buy: true, leaves_qty: dec(qty), limit_price: limit.map(dec) }
}

#[test]
fn sell_within_position_is_allowed() {
    assert!(check_wash_trade(&sell("1", None), dec("2"), &[]).is_none());
}

#[test]
fn sell_exceeding_position_is_blocked() {
    assert!(check_wash_trade(&sell("1", None), dec("0"), &[]).is_some());
}

#[test]
fn sell_exceeding_available_after_reservation_is_blocked() {
    let reason = check_wash_trade(&sell("1", None), dec("2"), &[open_sell("2", None)]);
    assert!(reason.is_some());
    assert!(reason.unwrap().contains("only 0 available"));
}

#[test]
fn sell_using_remaining_available_is_allowed() {
    assert!(check_wash_trade(&sell("2", None), dec("3"), &[open_sell("1", None)]).is_none());
}

#[test]
fn sell_limit_crossing_resting_buy_is_wash() {
    let reason =
        check_wash_trade(&sell("1", Some("3.00")), dec("5"), &[open_buy("1", Some("3.00"))]);
    assert!(reason.is_some());
    assert!(reason.unwrap().contains("wash trade"));
}

#[test]
fn sell_limit_above_resting_buy_not_wash() {
    assert!(
        check_wash_trade(&sell("1", Some("3.01")), dec("5"), &[open_buy("1", Some("3.00"))])
            .is_none()
    );
}

#[test]
fn buy_limit_crossing_resting_sell_is_wash() {
    let reason =
        check_wash_trade(&buy("1", Some("4.00")), dec("0"), &[open_sell("1", Some("4.00"))]);
    assert!(reason.is_some());
}

#[test]
fn plain_buy_entry_is_allowed() {
    assert!(check_wash_trade(&buy("1", Some("4.00")), dec("0"), &[]).is_none());
}

#[test]
fn refusal_texts() {
    assert_eq!(
        check_wash_trade(&sell("1", None), dec("0"), &[]).unwrap(),
        "would sell 1 share(s) but only 0 available (position 0, 0 reserved by open sells) — Alpaca rejects this as an uncovered short / insufficient qty"
    );
    assert_eq!(
        check_wash_trade(
            &sell("2.5", None),
            dec("4"),
            &[open_sell("1.25", None), open_buy("9", None), open_sell("0.5", Some("1"))]
        )
        .unwrap(),
        "would sell 2.5 share(s) but only 2.25 available (position 4, 1.75 reserved by open sells) — Alpaca rejects this as an uncovered short / insufficient qty"
    );
    assert_eq!(
        check_wash_trade(&buy("3", None), dec("-4"), &[open_buy("2", None)]).unwrap(),
        "would buy 3 share(s) to cover a 4 short but only 2 available (2 reserved by open buys) — Alpaca rejects this as flipping long while short"
    );
    assert_eq!(
        check_wash_trade(
            &buy("1", Some("4.5")),
            dec("0"),
            &[open_sell("1", None), open_sell("1", Some("5")), open_sell("1", Some("4.50"))]
        )
        .unwrap(),
        "limit 4.5 would cross own resting sell limit 4.50 — Alpaca rejects this as a potential wash trade (use complex/limit/stop-limit)"
    );
    assert_eq!(
        check_wash_trade(&sell("1", Some("3")), dec("5"), &[open_buy("1", Some("3.01"))]).unwrap(),
        "limit 3 would cross own resting buy limit 3.01 — Alpaca rejects this as a potential wash trade (use complex/limit/stop-limit)"
    );
}

#[test]
fn a_short_position_backs_no_sale() {
    let reason = check_wash_trade(&sell("1", None), dec("-5"), &[]).unwrap();
    assert!(reason.contains("only 0 available (position -5, 0 reserved"));
    assert!(check_wash_trade(&buy("5", None), dec("-5"), &[]).is_none());
}

#[test]
fn quantities_that_do_not_fit_give_no_answer() {
    let huge = "79228162514264337593543950335";
    let open = [open_sell(huge, None), open_sell(huge, None)];
    assert!(try_check_wash_trade(&sell("1", None), dec("1"), &open).is_none());
    assert_eq!(try_check_wash_trade(&buy("1", None), dec("1"), &open), Some(None));
}

#[test]
fn free_shares_decide_a_sale() {
    let open = [open_sell("2.5", None), open_buy("100", None), open_sell("0.25", None)];
    assert!(check_wash_trade(&sell("7.25", None), dec("10"), &open).is_none());
    assert!(check_wash_trade(&sell("7.2501", None), dec("10"), &open).is_some());
}

#[test]
fn further_open_orders_clear_nothing() {
    let held = dec("10");
    let mut open = vec![open_sell("4", None)];
    let order = sell("7", Some("3.00"));
    assert!(check_wash_trade(&order, held, &open).is_some());
    for further in [
        open_sell("0", None),
        open_sell("1", Some("9")),
        open_buy("5", None),
        open_buy("5", Some("3.50")),
    ] {
        open.push(further);
        assert!(check_wash_trade(&order, held, &open).is_some());
    }
}

#[test]
fn the_order_of_open_orders_does_not_matter() {
    let a = || open_sell("2.50", None);
    let b = || open_sell("0.25", Some("8"));
    let c = || open_buy("3", Some("2.99"));
    for (qty, refused) in [("7.25", false), ("7.26", true)] {
        for open in [
            [a(), b(), c()],
            [a(), c(), b()],
            [b(), a(), c()],
            [b(), c(), a()],
            [c(), a(), b()],
            [c(), b(), a()],
        ] {
            let reason = check_wash_trade(&sell(qty, Some("3.00")), dec("10"), &open);
            assert_eq!(reason.is_some(), refused);
        }
    }
}
