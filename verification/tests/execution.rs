//! Commands of the execution client, the stream of trade updates, and reports.

use broker_feeds::alpaca::execution::{
    account_info_for, ask_gatekeeper, await_account_registered, batch_cancel_orders,
    build_bracket_request, build_request, check_account, expires_at_rfc3339, format_qty,
    has_queue_tag, hold_delay, list_entry, lookback_start, modify_request, order_shape,
    queue_bracket_until_open, queue_until_open, reference_price_for, refusal_reason, release_order,
    submission_outcome, submit_order, submit_order_list, trailing_params, wash_reason_for,
    CancelView, Leg, ListAction, OpenOrder, OrderView, Outcome, PositionView, Quote, Registration,
    RequestKind, Snapshot, SubmitAction,
};
use broker_feeds::alpaca::gatekeeper::{Cap, Decision, GatekeeperLimits};
use broker_feeds::alpaca::http::error::Error;
use broker_feeds::alpaca::http::models::{
    AlpacaAccount, AlpacaOrder, AlpacaPosition, CreateOrderRequest,
};
use broker_feeds::alpaca::reports::{order_status_reports, position_status_reports, Wanted};
use broker_feeds::alpaca::session::UsEquityCalendar;
use broker_feeds::alpaca::validator::OrderValidator;
use broker_feeds::alpaca::websocket::{
    auth_message, build_fill_report, handle_trade_update, listen_message, stream_of,
    AlpacaAuthData, AlpacaTradeUpdate, AlpacaWsOrder, Stream,
};
use broker_feeds::decimal::Dec;
use broker_feeds::fixed::Fixed;
use broker_feeds::model::{
    ContingencyType, Money, OrderSide, OrderType, TimeInForce, TrailingOffsetType,
};
use chrono::{NaiveDate, TimeZone};
use chrono_tz::US::Eastern;

fn dec(s: &str) -> Dec {
    Dec::parse(s).unwrap()
}

fn et(y: i32, mo: u32, d: u32, h: u32, mi: u32) -> u64 {
    let naive = NaiveDate::from_ymd_opt(y, mo, d).unwrap().and_hms_opt(h, mi, 0).unwrap();
    let dt = Eastern.from_local_datetime(&naive).earliest().unwrap();
    dt.timestamp_nanos_opt().unwrap() as u64
}

fn regular() -> u64 {
    et(2026, 6, 24, 11, 0)
}

fn after_hours() -> u64 {
    et(2026, 6, 24, 17, 0)
}

fn validator() -> OrderValidator<UsEquityCalendar> {
    OrderValidator::new(UsEquityCalendar)
}

fn order(order_type: OrderType, price: Option<&str>) -> OrderView {
    OrderView {
        client_order_id: "c-1".to_owned(),
        symbol: "AAPL".to_owned(),
        venue: "ALPACA".to_owned(),
        side: OrderSide::Buy,
        order_type,
        time_in_force: TimeInForce::Day,
        quantity: dec("10"),
        price: price.map(dec),
        trigger_price: None,
        contingency: Some(ContingencyType::NoContingency),
        is_emulated: false,
        is_closed: false,
        tags: vec![],
        trailing_offset: None,
        trailing_offset_type: None,
        expire_time: None,
    }
}

fn snapshot() -> Snapshot {
    Snapshot {
        equity: Some(Money { amount: dec("100000.00"), currency: "USD".to_owned() }),
        positions: vec![],
        open_orders: vec![],
        quote: None,
        last_trade: None,
    }
}

fn open_limits() -> GatekeeperLimits {
    GatekeeperLimits { allow_market_orders: true, ..Default::default() }
}

fn sent(action: Option<SubmitAction>) -> CreateOrderRequest {
    match action {
        Some(SubmitAction::Send(request)) => request,
        other => panic!("expected a request, got {other:?}"),
    }
}

fn position(symbol: &str, qty: &str, px: &str) -> PositionView {
    PositionView { symbol: symbol.to_owned(), signed_qty: dec(qty), avg_px: dec(px) }
}

#[test]
fn a_limit_order_is_sent() {
    let r = sent(submit_order(
        &order(OrderType::Limit, Some("189.50")),
        &snapshot(),
        &GatekeeperLimits::default(),
        &validator(),
        regular(),
    ));
    assert_eq!(r.symbol, "AAPL");
    assert_eq!(r.qty, "10");
    assert_eq!(r.side, "buy");
    assert_eq!(r.order_type, "limit");
    assert_eq!(r.time_in_force, "day");
    assert_eq!(r.limit_price.as_deref(), Some("189.50"));
    assert_eq!(r.stop_price, None);
    assert_eq!(r.extended_hours, None);
    assert_eq!(r.client_order_id.as_deref(), Some("c-1"));
    assert!(r.order_class.is_none() && r.take_profit.is_none() && r.stop_loss.is_none());
}

#[test]
fn extended_hours_set_the_flag() {
    let r = sent(submit_order(
        &order(OrderType::Limit, Some("189.50")),
        &snapshot(),
        &GatekeeperLimits::default(),
        &validator(),
        after_hours(),
    ));
    assert_eq!(r.extended_hours, Some(true));
}

#[test]
fn the_gatekeeper_is_asked_first() {
    let limits = GatekeeperLimits {
        max_order_shares: Some(Cap { limit: dec("5"), shown: "5".to_owned() }),
        ..Default::default()
    };
    let mut o = order(OrderType::Limit, Some("189.123"));
    o.side = OrderSide::Sell;
    match submit_order(&o, &snapshot(), &limits, &validator(), regular()) {
        Some(SubmitAction::Deny(reason)) => assert_eq!(
            reason,
            "gatekeeper: order quantity 10 > ALPACA_GATE_MAX_ORDER_SHARES (5)"
        ),
        other => panic!("{other:?}"),
    }
    // Then the wash-trade guard.
    match submit_order(&o, &snapshot(), &open_limits(), &validator(), regular()) {
        Some(SubmitAction::Deny(reason)) => {
            assert!(reason.starts_with("wash-guard: would sell 10 share(s) but only 0 available"))
        }
        other => panic!("{other:?}"),
    }
    // Then the validator.
    let mut snap = snapshot();
    snap.positions = vec![position("AAPL", "10", "1")];
    match submit_order(&o, &snap, &open_limits(), &validator(), regular()) {
        Some(SubmitAction::Reject(reason)) => assert_eq!(
            reason,
            "validator: price 189.123 violates sub-penny rule (max 2 decimals for price ≥ $1.00)"
        ),
        other => panic!("{other:?}"),
    }
    o.is_closed = true;
    assert!(matches!(
        submit_order(&o, &snap, &limits, &validator(), regular()),
        Some(SubmitAction::Ignore)
    ));
}

#[test]
fn market_orders_are_valued_at_the_quote() {
    let limits = GatekeeperLimits {
        max_order_notional: Some(Cap { limit: dec("1000"), shown: "1000".to_owned() }),
        allow_market_orders: true,
        ..Default::default()
    };
    let mut snap = snapshot();
    snap.last_trade = Some(dec("90.00"));
    snap.quote = Some(Quote { bid: dec("101.00"), ask: dec("101.04"), mid: dec("101.02") });
    assert_eq!(reference_price_for(&snap), Some(dec("101.02")));
    match ask_gatekeeper(&order(OrderType::Market, None), &snap, &limits) {
        Some(Decision::Deny { reason }) => assert_eq!(
            reason,
            "order notional 1010.20 > ALPACA_GATE_MAX_ORDER_NOTIONAL (1000)"
        ),
        other => panic!("{other:?}"),
    }
    snap.quote = Some(Quote { bid: dec("0.00"), ask: dec("101.04"), mid: dec("50.52") });
    assert_eq!(reference_price_for(&snap), Some(dec("90.00")));
    assert!(ask_gatekeeper(&order(OrderType::Market, None), &snap, &limits).unwrap().is_allowed());
    snap.quote = None;
    snap.last_trade = None;
    assert_eq!(reference_price_for(&snap), None);
}

#[test]
fn exposure_is_added_up_over_positions() {
    let mut snap = snapshot();
    snap.positions = vec![position("AAPL", "-2", "10.5"), position("MSFT", "3", "100")];
    let info = account_info_for(&snap, "AAPL").unwrap();
    assert_eq!(info.symbol_net_qty, dec("-2"));
    assert_eq!(info.symbol_avg_px, dec("10.5"));
    assert_eq!(info.total_gross_exposure, dec("321.0"));
    let info = account_info_for(&snap, "TSLA").unwrap();
    assert_eq!(info.symbol_net_qty, Dec::zero());
    assert_eq!(info.total_gross_exposure, dec("321.0"));
    // Several positions in one symbol are added up, at their cost.
    snap.positions.push(position("AAPL", "-6", "12.50"));
    let info = account_info_for(&snap, "AAPL").unwrap();
    assert_eq!(info.symbol_net_qty, dec("-8"));
    assert_eq!(info.symbol_avg_px.normalize(), dec("12"));
    assert_eq!(info.total_gross_exposure.text(), "396.00");
    snap.positions.push(position("AAPL", "8", "1"));
    let info = account_info_for(&snap, "AAPL").unwrap();
    assert!(!info.symbol_net_qty.is_positive() && !info.symbol_net_qty.is_negative());
    assert_eq!(info.symbol_avg_px, Dec::zero());
    snap.positions.push(position("X", "79228162514264337593543950335", "10"));
    assert!(account_info_for(&snap, "AAPL").is_none());
    assert!(submit_order(
        &order(OrderType::Market, None),
        &snap,
        &open_limits(),
        &validator(),
        regular()
    )
    .is_none());
}

#[test]
fn the_order_itself_is_not_an_open_order() {
    let mut snap = snapshot();
    snap.positions = vec![position("AAPL", "10", "1"), position("MSFT", "90", "1")];
    let open = |id: &str, side: OrderSide| OpenOrder {
        client_order_id: id.to_owned(),
        side,
        leaves_qty: dec("10"),
        price: None,
    };
    let mut o = order(OrderType::Market, None);
    o.side = OrderSide::Sell;
    snap.open_orders = vec![open("c-1", OrderSide::Sell)];
    assert_eq!(wash_reason_for(&o, &snap), Some(None));
    snap.open_orders.push(open("c-2", OrderSide::Sell));
    assert!(wash_reason_for(&o, &snap).unwrap().is_some());
    // The positions are the broker's: an instrument of another venue has none.
    o.venue = "XNAS".to_owned();
    snap.open_orders.clear();
    assert!(wash_reason_for(&o, &snap).unwrap().is_some());
}

#[test]
fn tagged_orders_are_held_until_an_open() {
    let mut o = order(OrderType::Market, None);
    o.tags = vec!["x".to_owned(), "queue_for_open".to_owned()];
    assert!(has_queue_tag(&o.tags));
    match submit_order(&o, &snapshot(), &open_limits(), &validator(), after_hours()) {
        Some(SubmitAction::Hold { request, release }) => {
            assert_eq!(release, et(2026, 6, 25, 9, 30));
            assert_eq!(request.extended_hours, None);
            match release_order(&o, &validator(), release) {
                SubmitAction::Send(at_release) => {
                    assert_eq!(format!("{at_release:?}"), format!("{request:?}"))
                }
                other => panic!("{other:?}"),
            }
        }
        other => panic!("{other:?}"),
    }
    assert!(matches!(
        release_order(&o, &validator(), after_hours()),
        SubmitAction::Reject(reason)
            if reason == "validator: Market Day not accepted in session AfterHours"
    ));
    o.tags.clear();
    assert!(matches!(
        submit_order(&o, &snapshot(), &open_limits(), &validator(), after_hours()),
        Some(SubmitAction::Reject(reason))
            if reason == "validator: Market Day not accepted in session AfterHours"
    ));
}

#[test]
fn held_limit_orders_go_out_before_the_market() {
    // Closed: a Saturday.
    let saturday = et(2026, 6, 27, 12, 0);
    let mut o = order(OrderType::Limit, Some("5.00"));
    o.tags = vec!["queue_for_open".to_owned()];
    match submit_order(&o, &snapshot(), &open_limits(), &validator(), saturday) {
        Some(SubmitAction::Hold { request, release }) => {
            assert_eq!(release, et(2026, 6, 29, 4, 0));
            assert_eq!(request.extended_hours, Some(true));
        }
        other => panic!("{other:?}"),
    }
    o.contingency = Some(ContingencyType::Oco);
    match submit_order(&o, &snapshot(), &open_limits(), &validator(), saturday) {
        Some(SubmitAction::Hold { request, release }) => {
            assert_eq!(release, et(2026, 6, 29, 9, 30));
            assert_eq!(request.extended_hours, None);
        }
        other => panic!("{other:?}"),
    }
}

#[test]
fn held_orders_without_a_wire_form_are_dropped() {
    let mut o = order(OrderType::StopMarket, None);
    o.side = OrderSide::NoOrderSide;
    assert!(matches!(queue_until_open(&o, 5), SubmitAction::Drop));
    o.side = OrderSide::Buy;
    assert!(matches!(queue_until_open(&o, 5), SubmitAction::Hold { release: 5, .. }));
    assert_eq!(hold_delay(10, 4), 6);
    assert_eq!(hold_delay(4, 10), 0);
}

#[test]
fn types_that_no_session_accepts_are_not_held() {
    let mut o = order(OrderType::MarketIfTouched, None);
    o.tags = vec!["queue_for_open".to_owned()];
    for now in [regular(), after_hours()] {
        assert!(matches!(
            submit_order(&o, &snapshot(), &open_limits(), &validator(), now),
            Some(SubmitAction::Reject(reason))
                if reason == "validator: unsupported order type for Alpaca: MarketIfTouched"
        ));
    }
}

#[test]
fn orders_without_a_wire_form_are_denied() {
    let mut o = order(OrderType::Limit, Some("5.00"));
    o.side = OrderSide::NoOrderSide;
    let mut snap = snapshot();
    snap.positions = vec![position("AAPL", "100", "1")];
    match submit_order(&o, &snap, &open_limits(), &validator(), regular()) {
        Some(SubmitAction::Deny(reason)) => assert_eq!(
            reason,
            "invalid order side: parse error: order side must be Buy or Sell"
        ),
        other => panic!("{other:?}"),
    }
    let mut o = order(OrderType::LimitIfTouched, Some("5.00"));
    o.is_emulated = true;
    match submit_order(&o, &snap, &open_limits(), &validator(), regular()) {
        Some(SubmitAction::Deny(reason)) => assert_eq!(
            reason,
            "unsupported order type: parse error: unsupported order type for Alpaca: LimitIfTouched"
        ),
        other => panic!("{other:?}"),
    }
    o.order_type = OrderType::Limit;
    o.time_in_force = TimeInForce::Ioc;
    assert_eq!(
        build_request(&o, false).unwrap_err().text(),
        "parse error: unsupported time-in-force for Alpaca: Ioc"
    );
}

#[test]
fn trailing_orders() {
    let mut o = order(OrderType::TrailingStopMarket, None);
    o.trigger_price = Some(dec("10.00"));
    o.trailing_offset = Some(dec("150"));
    o.trailing_offset_type = Some(TrailingOffsetType::BasisPoints);
    assert_eq!(trailing_params(&o), (Some("1.50".to_owned()), None));
    let r = build_request(&o, false).unwrap();
    assert_eq!(r.order_type, "trailing_stop");
    assert_eq!(r.stop_price, None);
    assert_eq!(r.trail_percent.as_deref(), Some("1.50"));
    assert_eq!(order_shape(&o).trail_price, None);
    o.trailing_offset = Some(dec("12.5"));
    assert_eq!(trailing_params(&o), (Some("0.125".to_owned()), None));
    o.trailing_offset = Some(dec("150"));
    o.trailing_offset_type = Some(TrailingOffsetType::Price);
    assert_eq!(trailing_params(&o), (None, Some("150".to_owned())));
    assert_eq!(order_shape(&o).trail_price, Some(dec("150")));
    o.trailing_offset_type = None;
    assert_eq!(trailing_params(&o), (None, None));
    o.trailing_offset = None;
    o.trailing_offset_type = Some(TrailingOffsetType::Ticks);
    assert_eq!(trailing_params(&o), (None, None));
    let mut stop = order(OrderType::StopMarket, None);
    stop.trigger_price = Some(dec("10.00"));
    assert_eq!(build_request(&stop, true).unwrap().stop_price.as_deref(), Some("10.00"));
}

#[test]
fn expiry_as_date_and_time() {
    let mut o = order(OrderType::Limit, None);
    assert_eq!(expires_at_rfc3339(&o), None);
    o.expire_time = Some(1_784_059_200_000_000_000);
    // Only an order that is good till a date has an expiry.
    assert_eq!(expires_at_rfc3339(&o), None);
    assert_eq!(build_request(&o, false).unwrap().expires_at, None);
    o.time_in_force = TimeInForce::Gtd;
    assert_eq!(expires_at_rfc3339(&o).as_deref(), Some("2026-07-14T20:00:00+00:00"));
}

#[test]
fn quantities_as_text() {
    for (qty, text) in [
        ("10", "10"),
        ("10.000", "10"),
        ("0.5", "0.5"),
        ("1.2500", "1.25"),
        ("0", "0"),
        ("0.1234567891", "0.123456789"),
        ("1.9999999999", "2"),
        ("0.0000000001", "0"),
        ("0.0000000015", "0.000000002"),
        ("100", "100"),
    ] {
        assert_eq!(format_qty(dec(qty)), text, "{qty}");
    }
}

fn leg(has_parent: bool, order: OrderView) -> Leg {
    Leg { has_parent, order }
}

fn bracket() -> Vec<Leg> {
    let mut stop = order(OrderType::StopMarket, None);
    stop.trigger_price = Some(dec("180.00"));
    vec![
        leg(false, order(OrderType::Limit, Some("189.50"))),
        leg(true, order(OrderType::Limit, Some("199.00"))),
        leg(true, stop),
    ]
}

#[test]
fn brackets_are_sent_with_both_legs() {
    let limits = GatekeeperLimits::default();
    match submit_order_list(&bracket(), &snapshot(), &limits, &validator(), regular()) {
        Some(ListAction::Send { entry: 0, request }) => {
            assert_eq!(request.order_class.as_deref(), Some("bracket"));
            assert_eq!(request.limit_price.as_deref(), Some("189.50"));
            assert_eq!(request.take_profit.unwrap().limit_price, "199.00");
            let sl = request.stop_loss.unwrap();
            assert_eq!(sl.stop_price, "180.00");
            assert_eq!(sl.limit_price, None);
            assert_eq!(request.extended_hours, None);
        }
        other => panic!("{other:?}"),
    }
}

#[test]
fn brackets_that_are_not_sent() {
    let limits = GatekeeperLimits::default();
    let submit = |legs: &Vec<Leg>, limits: &GatekeeperLimits, at: u64| {
        submit_order_list(legs, &snapshot(), limits, &validator(), at)
    };
    let mut legs = bracket();
    assert_eq!(list_entry(&legs), Some(0));
    legs.remove(0);
    assert_eq!(list_entry(&legs), None);
    assert!(matches!(submit(&legs, &limits, regular()), Some(ListAction::NoEntry)));
    let mut legs = bracket();
    legs.remove(2);
    assert!(matches!(
        submit(&legs, &limits, regular()),
        Some(ListAction::Deny { entry: 0, reason })
            if reason == "bracket requires both take-profit and stop-loss legs"
    ));
    assert!(matches!(
        submit(&bracket(), &limits, after_hours()),
        Some(ListAction::Reject { entry: 0, reason })
            if reason == "validator: bracket/OCO/OTO orders require Regular hours (current session: AfterHours)"
    ));
    let mut legs = bracket();
    legs[0].order.tags = vec!["queue_for_open".to_owned()];
    assert!(matches!(
        submit(&legs, &limits, after_hours()),
        Some(ListAction::Hold { entry: 0, release, .. }) if release == et(2026, 6, 25, 9, 30)
    ));
    legs[0].order.price = Some(dec("189.505"));
    assert!(matches!(
        submit(&legs, &limits, after_hours()),
        Some(ListAction::Reject { entry: 0, .. })
    ));
    let mut legs = bracket();
    legs[0].order.order_type = OrderType::MarketIfTouched;
    assert!(matches!(
        submit(&legs, &limits, regular()),
        Some(ListAction::Deny { entry: 0, reason })
            if reason == "bracket build failed: parse error: unsupported order type for Alpaca: MarketIfTouched"
    ));
    assert!(matches!(
        queue_bracket_until_open(0, &legs[0].order, "1", "2", 9),
        ListAction::Deny { entry: 0, reason }
            if reason == "queued bracket build failed: parse error: unsupported order type for Alpaca: MarketIfTouched"
    ));
    let mut legs = bracket();
    legs[0].order.order_type = OrderType::Market;
    assert!(matches!(
        submit(&legs, &limits, regular()),
        Some(ListAction::Deny { entry: 0, reason })
            if reason.starts_with("gatekeeper: market orders not permitted for entries")
    ));
    assert!(build_bracket_request(&legs[0].order, "1", "2").is_ok());
}

#[test]
fn refusals_name_the_request() {
    let e = Error::Transport("down".to_owned());
    for (kind, text) in [
        (RequestKind::Submit, "submit-order-rejected: HTTP transport error: down"),
        (RequestKind::SubmitBracket, "submit-bracket-rejected: HTTP transport error: down"),
        (RequestKind::QueuedSubmit, "queued-submit-rejected: HTTP transport error: down"),
        (RequestKind::QueuedBracket, "queued-bracket-rejected: HTTP transport error: down"),
        (RequestKind::Cancel, "cancel-order-rejected: HTTP transport error: down"),
        (RequestKind::Modify, "modify-order-rejected: HTTP transport error: down"),
    ] {
        assert_eq!(refusal_reason(kind, &e), text);
    }
    assert!(matches!(
        submission_outcome(RequestKind::Submit, &Err(e)),
        Outcome::Rejected(reason) if reason.starts_with("submit-order-rejected: ")
    ));
    assert!(matches!(
        submission_outcome(RequestKind::Submit, &Ok(open_order("v-9", "AAPL"))),
        Outcome::Accepted(id) if id == "v-9"
    ));
}

fn open_order(id: &str, symbol: &str) -> AlpacaOrder {
    AlpacaOrder {
        id: id.to_owned(),
        client_order_id: None,
        symbol: Some(symbol.to_owned()),
        side: None,
        status: None,
        filled_qty: None,
        filled_avg_price: None,
    }
}

#[test]
fn replacing_and_cancelling() {
    let r = modify_request(Some(dec("5.0")), Some(dec("1.50")), None);
    assert_eq!(r.qty.as_deref(), Some("5"));
    assert_eq!(r.limit_price.as_deref(), Some("1.50"));
    assert_eq!(r.stop_price, None);
    let text = |s: &str| Some(s.to_owned());
    let cancels = vec![
        CancelView { given: text("a"), on_record: text("b") },
        CancelView { given: None, on_record: None },
        CancelView { given: None, on_record: text("c") },
    ];
    assert_eq!(batch_cancel_orders(&cancels), ["a", "c"]);
}

#[test]
fn connecting() {
    let mut account = AlpacaAccount {
        id: "acct".to_owned(),
        currency: "USD".to_owned(),
        cash: "1".to_owned(),
        equity: "1".to_owned(),
        long_market_value: String::new(),
        short_market_value: String::new(),
        buying_power: String::new(),
        trading_blocked: false,
        account_blocked: false,
    };
    assert_eq!(check_account(&account), Ok(()));
    account.account_blocked = true;
    assert_eq!(
        check_account(&account),
        Err("Alpaca account acct is blocked (trading_blocked=false, account_blocked=true)".to_owned())
    );
    assert_eq!(await_account_registered(true, Some(99_999)), Registration::Done);
    assert_eq!(await_account_registered(false, None), Registration::Wait);
    assert_eq!(await_account_registered(false, Some(29_999)), Registration::Wait);
    assert_eq!(await_account_registered(false, Some(30_000)), Registration::TimedOut);
    assert_eq!(lookback_start(120_000_000_001, Some(2)), Some(1));
    assert_eq!(lookback_start(5, Some(2)), Some(0));
    assert_eq!(lookback_start(5, None), None);
}

#[test]
fn reports_of_one_instrument() {
    let orders = vec![open_order("1", "AAPL"), open_order("2", "MSFT"), open_order("3", "AAPL")];
    let ids = |want: &Option<Wanted>| {
        order_status_reports(&orders, want, 5)
            .into_iter()
            .map(|r| r.venue_order_id)
            .collect::<Vec<String>>()
    };
    let want = |symbol: &str, venue: &str| {
        Some(Wanted { symbol: symbol.to_owned(), venue: venue.to_owned() })
    };
    assert_eq!(ids(&None), ["1", "2", "3"]);
    assert_eq!(ids(&want("AAPL", "ALPACA")), ["1", "3"]);
    assert!(ids(&want("AAPL", "NASDAQ")).is_empty());
    let held = |symbol: &str, qty: &str| AlpacaPosition {
        symbol: symbol.to_owned(),
        qty: qty.to_owned(),
        side: "long".to_owned(),
        avg_entry_price: "1".to_owned(),
        market_value: String::new(),
    };
    let positions = vec![held("AAPL", "1"), held("AAPL", "x"), held("MSFT", "2")];
    assert_eq!(position_status_reports(&positions, &None, 5).len(), 2);
    let reports = position_status_reports(&positions, &want("MSFT", "ALPACA"), 5);
    assert_eq!(reports.len(), 1);
    assert_eq!(reports[0].quantity.raw, 20_000_000_000_000_000);
}

fn fill(price: &str, qty: &str) -> AlpacaTradeUpdate {
    AlpacaTradeUpdate {
        event: "fill".to_owned(),
        execution_id: Some("exec-123".to_owned()),
        order: AlpacaWsOrder {
            id: "o-1".to_owned(),
            client_order_id: Some("c-1".to_owned()),
            symbol: Some("AAPL".to_owned()),
            side: Some("buy".to_owned()),
            filled_qty: None,
            filled_avg_price: None,
        },
        price: Some(price.to_owned()),
        qty: Some(qty.to_owned()),
        position_qty: None,
        timestamp: None,
    }
}

#[test]
fn fills_are_reported() {
    let r = handle_trade_update(&fill("189.50", " 1 "), 7).unwrap();
    assert_eq!(r.symbol, "AAPL");
    assert_eq!(r.trade_id, "exec-123");
    assert_eq!(r.side, OrderSide::Buy);
    assert_eq!(r.last_px, Fixed { raw: 1_895_000_000_000_000_000, precision: 2 });
    assert_eq!(r.last_qty, Fixed { raw: 10_000_000_000_000_000, precision: 0 });
    assert_eq!(r.client_order_id.as_deref(), Some("c-1"));
    assert_eq!((r.venue_order_id.as_str(), r.ts), ("o-1", 7));
    let r = build_fill_report(&fill("0.12345", "1"), 7).unwrap();
    assert_eq!(r.last_px, Fixed { raw: 1_234_000_000_000_000, precision: 4 });
    let mut update = fill("1", "1");
    update.event = "partial_fill".to_owned();
    update.execution_id = None;
    update.order.side = Some("sell".to_owned());
    let r = handle_trade_update(&update, 42).unwrap();
    assert_eq!(r.trade_id, "o-1-42");
    assert_eq!(r.side, OrderSide::Sell);
}

#[test]
fn incomplete_updates_are_not_reported() {
    let mut update = fill("1", "1");
    update.event = "canceled".to_owned();
    assert!(handle_trade_update(&update, 1).is_none());
    assert!(build_fill_report(&fill("x", "1"), 1).is_none());
    assert!(build_fill_report(&fill("1", "-1"), 1).is_none());
    let mut update = fill("1", "1");
    update.order.side = Some("hold".to_owned());
    assert!(build_fill_report(&update, 1).is_none());
    update.order.side = None;
    assert!(build_fill_report(&update, 1).is_none());
    let mut update = fill("1", "1");
    update.price = None;
    assert!(build_fill_report(&update, 1).is_none());
    let mut update = fill("1", "1");
    update.order.symbol = None;
    assert!(build_fill_report(&update, 1).is_none());
}

#[test]
fn stream_messages() {
    assert_eq!(stream_of("trade_updates"), Stream::TradeUpdates);
    assert_eq!(stream_of("authorization"), Stream::Authorization);
    assert_eq!(stream_of("listening"), Stream::Listening);
    assert_eq!(stream_of("else"), Stream::Other);
    assert!(AlpacaAuthData { status: "authorized".to_owned() }.is_authorized());
    assert!(!AlpacaAuthData { status: "unauthorized".to_owned() }.is_authorized());
    assert_eq!(
        auth_message("k\"1", "s"),
        "{\"action\":\"auth\",\"key\":\"k\\\"1\",\"secret\":\"s\"}"
    );
    assert_eq!(
        auth_message("\u{8}\t\n\u{b}\u{c}\r\u{1f}", "é/\u{7f}\\"),
        "{\"action\":\"auth\",\"key\":\"\\b\\t\\n\\u000b\\f\\r\\u001f\",\"secret\":\"é/\u{7f}\\\\\"}"
    );
    let auth: serde_json::Value = serde_json::from_str(&auth_message("a\u{0}\n", "b\"")).unwrap();
    assert_eq!(auth["key"], "a\u{0}\n");
    assert_eq!(auth["secret"], "b\"");
    let listen: serde_json::Value = serde_json::from_str(&listen_message()).unwrap();
    assert_eq!(listen["action"], "listen");
    assert_eq!(listen["data"]["streams"][0], "trade_updates");
}
