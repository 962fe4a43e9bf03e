//! The broker's REST interface.

use broker_feeds::alpaca::config::{AlpacaExecClientConfig, AlpacaMode, ALPACA};
use broker_feeds::alpaca::http::client::{
    build_url, check_credentials, order_path, read_reply, Reply, ACCOUNT_PATH, OPEN_ORDERS_PATH,
    ORDERS_PATH, POSITIONS_PATH,
};
use broker_feeds::alpaca::http::error::Error;
use broker_feeds::alpaca::http::models::{
    AlpacaAccount, AlpacaOrder, AlpacaPosition, CreateOrderRequest, ReplaceOrderRequest,
};
use broker_feeds::alpaca::http::parse::{
    account_balance, order_side_to_alpaca, order_status_from_alpaca, order_type_to_alpaca,
    parse_account_state, parse_decimal, parse_order_status_report, parse_position_status_report,
    side_from_alpaca, time_in_force_to_alpaca,
};
use broker_feeds::decimal::Dec;
use broker_feeds::fixed::{money_from, price_from, quantity_from, Fixed};
use broker_feeds::model::{OrderSide, OrderStatus, OrderType, PositionSide, TimeInForce};

fn as_f64(x: Fixed) -> f64 {
    x.raw as f64 / 1e16
}

fn dec(s: &str) -> Dec {
    Dec::parse(s).unwrap()
}

fn sample_account() -> AlpacaAccount {
    AlpacaAccount {
        id: "acct-1".into(),
        currency: "USD".into(),
        cash: "100000".into(),
        equity: "100000".into(),
        long_market_value: "0".into(),
        short_market_value: "0".into(),
        buying_power: "400000".into(),
        trading_blocked: false,
        account_blocked: false,
    }
}

#[test]
fn side_and_type_mapping() {
    assert_eq!(order_side_to_alpaca(OrderSide::Buy).unwrap(), "buy");
    assert_eq!(order_side_to_alpaca(OrderSide::Sell).unwrap(), "sell");
    assert!(order_side_to_alpaca(OrderSide::NoOrderSide).is_err());

    assert_eq!(order_type_to_alpaca(OrderType::Market).unwrap(), "market");
    assert_eq!(order_type_to_alpaca(OrderType::Limit).unwrap(), "limit");
    assert_eq!(order_type_to_alpaca(OrderType::StopMarket).unwrap(), "stop");
    assert_eq!(order_type_to_alpaca(OrderType::StopLimit).unwrap(), "stop_limit");
    assert_eq!(order_type_to_alpaca(OrderType::TrailingStopMarket).unwrap(), "trailing_stop");
    assert_eq!(order_type_to_alpaca(OrderType::TrailingStopLimit).unwrap(), "trailing_stop");
    assert_eq!(order_type_to_alpaca(OrderType::MarketToLimit).unwrap(), "market");
    assert!(order_type_to_alpaca(OrderType::MarketIfTouched).is_err());
}

#[test]
fn tif_mapping() {
    assert_eq!(time_in_force_to_alpaca(TimeInForce::Day).unwrap(), "day");
    assert_eq!(time_in_force_to_alpaca(TimeInForce::Gtc).unwrap(), "gtc");
    assert!(time_in_force_to_alpaca(TimeInForce::Gtd).is_err());
    assert!(time_in_force_to_alpaca(TimeInForce::Ioc).is_err());
    assert!(time_in_force_to_alpaca(TimeInForce::Fok).is_err());
}

#[test]
fn account_state_flat_cash() {
    let acct = sample_account();
    let state = parse_account_state(&acct, true, 0, 0).unwrap();
    let bal = state.balance;
    assert_eq!(as_f64(bal.total), 100_000.0);
    assert_eq!(as_f64(bal.free), 100_000.0);
    assert_eq!(as_f64(bal.locked), 0.0);
    assert_eq!(bal.total.precision, 2);
    assert_eq!(state.currency.code(), "USD");
}

#[test]
fn account_state_with_positions_locks_market_value() {
    let mut acct = sample_account();
    acct.cash = "70000".into();
    acct.equity = "100000".into();
    let bal = parse_account_state(&acct, true, 0, 0).unwrap().balance;
    assert_eq!(as_f64(bal.total), 100_000.0);
    assert_eq!(as_f64(bal.free), 70_000.0);
    assert_eq!(as_f64(bal.locked), 30_000.0);
}

#[test]
fn order_status_mapping() {
    assert_eq!(order_status_from_alpaca("new"), OrderStatus::Accepted);
    assert_eq!(order_status_from_alpaca("accepted"), OrderStatus::Accepted);
    assert_eq!(order_status_from_alpaca("filled"), OrderStatus::Filled);
    assert_eq!(order_status_from_alpaca("partially_filled"), OrderStatus::PartiallyFilled);
    assert_eq!(order_status_from_alpaca("canceled"), OrderStatus::Canceled);
    assert_eq!(order_status_from_alpaca("rejected"), OrderStatus::Rejected);
    assert_eq!(order_status_from_alpaca("expired"), OrderStatus::Expired);
}

#[test]
fn order_status_report_from_wire() {
    let order = AlpacaOrder {
        id: "v-1".into(),
        client_order_id: Some("c-1".into()),
        symbol: Some("AAPL".into()),
        side: Some("buy".into()),
        status: Some("accepted".into()),
        filled_qty: Some("0".into()),
        filled_avg_price: None,
    };
    let r = parse_order_status_report(&order, 0).unwrap();
    assert_eq!(r.status, OrderStatus::Accepted);
    assert_eq!(r.side, OrderSide::Buy);
    assert_eq!(as_f64(r.filled_qty), 0.0);
    assert_eq!(r.venue_order_id, "v-1");
}

#[test]
fn position_status_report_from_wire() {
    let pos = AlpacaPosition {
        symbol: "MSFT".into(),
        qty: "-5".into(),
        side: "short".into(),
        avg_entry_price: "412.50".into(),
        market_value: "-2062.50".into(),
    };
    let r = parse_position_status_report(&pos, 0).unwrap();
    assert_eq!(as_f64(r.quantity), 5.0);
    assert_eq!(r.side, PositionSide::Short);
}

#[test]
fn mapping_errors_name_what_is_unsupported() {
    assert_eq!(
        order_side_to_alpaca(OrderSide::NoOrderSide).unwrap_err().text(),
        "parse error: order side must be Buy or Sell"
    );
    assert_eq!(
        order_type_to_alpaca(OrderType::LimitIfTouched).unwrap_err().text(),
        "parse error: unsupported order type for Alpaca: LimitIfTouched"
    );
    assert_eq!(
        time_in_force_to_alpaca(TimeInForce::Gtd).unwrap_err().text(),
        "parse error: unsupported time-in-force for Alpaca: Gtd"
    );
}

#[test]
fn account_errors() {
    let mut acct = sample_account();
    acct.equity = "abc".into();
    let text = account_balance(&acct, 2).unwrap_err().text();
    assert!(text.starts_with("parse error: account field 'equity'='abc': "), "{text}");
    let mut acct = sample_account();
    acct.cash = "".into();
    let text = parse_account_state(&acct, true, 0, 0).unwrap_err().text();
    assert!(text.starts_with("parse error: account field 'cash'='': "), "{text}");
    let mut acct = sample_account();
    acct.equity = "99999999999999999".into();
    let text = account_balance(&acct, 2).unwrap_err().text();
    assert!(text.starts_with("parse error: equity money: "), "{text}");
    let mut acct = sample_account();
    acct.cash = "99999999999999999".into();
    let text = account_balance(&acct, 2).unwrap_err().text();
    assert!(text.starts_with("parse error: cash money: "), "{text}");
    let mut acct = sample_account();
    acct.currency = "no such".into();
    let text = parse_account_state(&acct, true, 0, 0).unwrap_err().text();
    assert_eq!(text, "parse error: unknown account currency 'no such': Unknown currency: no such");
    let mut acct = sample_account();
    acct.equity = "10000000000000".into();
    acct.cash = "-10000000000000".into();
    let text = account_balance(&acct, 2).unwrap_err().text();
    assert!(text.starts_with("parse error: locked money: "), "{text}");
}

#[test]
fn account_fields_are_trimmed_and_rounded() {
    let mut acct = sample_account();
    acct.currency = " USD ".into();
    acct.equity = " 100.125 ".into();
    acct.cash = "50.005\n".into();
    let state = parse_account_state(&acct, false, 7, 9).unwrap();
    assert_eq!(state.currency.code(), "USD");
    assert_eq!((state.is_reported, state.ts_event, state.ts_init), (false, 7, 9));
    let bal = state.balance;
    assert_eq!(bal.total, Fixed { raw: 1_001_200_000_000_000_000, precision: 2 });
    assert_eq!(bal.free, Fixed { raw: 500_000_000_000_000_000, precision: 2 });
    assert_eq!(bal.locked, Fixed { raw: 501_200_000_000_000_000, precision: 2 });
    assert_eq!(parse_decimal("cash", " 1.50 ").unwrap(), dec("1.50"));
}

#[test]
fn more_cash_than_equity_locks_nothing() {
    let mut acct = sample_account();
    acct.equity = "90000".into();
    let bal = account_balance(&acct, 2).unwrap();
    assert_eq!(bal.locked.raw, 0);
}

#[test]
fn statuses_and_sides() {
    for (text, status) in [
        ("pending_new", OrderStatus::Accepted),
        ("accepted_for_bidding", OrderStatus::Accepted),
        ("held", OrderStatus::Accepted),
        ("cancelled", OrderStatus::Canceled),
        ("pending_cancel", OrderStatus::Canceled),
        ("done_for_day", OrderStatus::Expired),
        ("suspended", OrderStatus::Rejected),
        ("replaced", OrderStatus::PendingUpdate),
        ("pending_replace", OrderStatus::PendingUpdate),
        ("something else", OrderStatus::Accepted),
    ] {
        assert_eq!(order_status_from_alpaca(text), status, "{text}");
    }
    assert_eq!(side_from_alpaca(&Some("sell".to_owned())), OrderSide::Sell);
    assert_eq!(side_from_alpaca(&Some("buy".to_owned())), OrderSide::Buy);
    assert_eq!(side_from_alpaca(&None), OrderSide::Buy);
}

#[test]
fn reports_fill_in_what_the_wire_leaves_out() {
    let order = AlpacaOrder {
        id: "v".into(),
        client_order_id: None,
        symbol: Some("AAPL".into()),
        side: None,
        status: None,
        filled_qty: Some(" 2.5 ".into()),
        filled_avg_price: None,
    };
    let r = parse_order_status_report(&order, 7).unwrap();
    assert_eq!(r.status, OrderStatus::Accepted);
    assert_eq!(r.order_type, OrderType::Limit);
    assert_eq!(r.time_in_force, TimeInForce::Gtc);
    assert_eq!(r.client_order_id, None);
    assert_eq!(r.quantity, Fixed { raw: 20_000_000_000_000_000, precision: 0 });
    assert_eq!(r.filled_qty, r.quantity);
    assert_eq!(r.ts, 7);
    let unreadable = AlpacaOrder { filled_qty: Some("x".into()), ..order.clone() };
    let r = parse_order_status_report(&unreadable, 7).unwrap();
    assert_eq!(r.quantity, Fixed { raw: 10_000_000_000_000_000, precision: 0 });
    assert_eq!(r.filled_qty.raw, 0);
    let nameless = AlpacaOrder { symbol: None, ..order.clone() };
    assert!(parse_order_status_report(&nameless, 7).is_none());
    let negative = AlpacaOrder { filled_qty: Some("-1".into()), ..order };
    assert!(parse_order_status_report(&negative, 7).is_none());
}

#[test]
fn positions_without_a_number_are_not_reported() {
    let pos = AlpacaPosition {
        symbol: "MSFT".into(),
        qty: "five".into(),
        side: "long".into(),
        avg_entry_price: "x".into(),
        market_value: "".into(),
    };
    assert!(parse_position_status_report(&pos, 3).is_none());
    let r = parse_position_status_report(&AlpacaPosition { qty: "5".into(), ..pos }, 3).unwrap();
    assert_eq!(r.side, PositionSide::Long);
    assert_eq!(r.avg_px, None);
    assert_eq!(r.symbol, "MSFT");
    assert_eq!(r.ts, 3);
}

#[test]
fn replies_are_sorted_by_status() {
    assert!(matches!(read_reply(200, b"{}"), Ok(Reply::Body)));
    assert!(matches!(read_reply(204, b""), Ok(Reply::Empty)));
    assert!(matches!(read_reply(207, b"[]"), Ok(Reply::Body)));
    let e = read_reply(403, b"no\xff").unwrap_err();
    assert_eq!(e.text(), "Alpaca API error (status 403): no\u{fffd}");
    assert!(!e.is_retryable());
    assert!(read_reply(429, b"").unwrap_err().is_retryable());
    assert!(read_reply(500, b"").unwrap_err().is_retryable());
    assert!(read_reply(302, b"").is_err());
    assert!(read_reply(199, b"").is_err());
}

#[test]
fn error_texts() {
    assert_eq!(
        Error::MissingCredentials.text(),
        "Alpaca credentials not configured (set ALPACA_API_KEY_*/ALPACA_API_SECRET_*)"
    );
    assert_eq!(Error::transport("down".to_owned()).text(), "HTTP transport error: down");
    assert!(Error::transport("down".to_owned()).is_retryable());
    assert_eq!(Error::Serde("bad".to_owned()).text(), "JSON error: bad");
    assert!(!Error::Serde("bad".to_owned()).is_retryable());
    assert!(!Error::Parse("bad".to_owned()).is_retryable());
    assert!(!Error::MissingCredentials.is_retryable());
    assert_eq!(
        Error::from_status(500, b"oops").text(),
        "Alpaca API error (status 500): oops"
    );
}

#[test]
fn addresses_and_credentials() {
    assert_eq!(build_url("https://x", ACCOUNT_PATH), "https://x/v2/account");
    assert_eq!(build_url("https://x", POSITIONS_PATH), "https://x/v2/positions");
    assert_eq!(build_url("https://x", OPEN_ORDERS_PATH), "https://x/v2/orders?status=open");
    assert_eq!(build_url("https://x", ORDERS_PATH), "https://x/v2/orders");
    assert_eq!(order_path("abc"), "/v2/orders/abc");
    assert!(check_credentials("k", "s").is_ok());
    assert!(matches!(check_credentials("", "s"), Err(Error::MissingCredentials)));
    assert!(matches!(check_credentials("k", ""), Err(Error::MissingCredentials)));
}

#[test]
fn modes_and_addresses() {
    assert_eq!(AlpacaMode::parse("PAPER"), Ok(AlpacaMode::Paper));
    assert_eq!(AlpacaMode::parse("live"), Ok(AlpacaMode::Live));
    assert_eq!(
        AlpacaMode::parse("Demo"),
        Err("Invalid ALPACA_MODE 'demo', expected 'paper' or 'live'".to_owned())
    );
    assert!(AlpacaMode::parse(" live").is_err());
    assert_eq!(AlpacaMode::default(), AlpacaMode::Paper);
    let config = AlpacaExecClientConfig::default();
    assert_eq!(config.resolved_api_base_url(), "https://paper-api.alpaca.markets");
    assert_eq!(config.resolved_ws_url(), "wss://paper-api.alpaca.markets/stream");
    let config = AlpacaExecClientConfig::new(
        AlpacaMode::Live,
        Some("k".to_owned()),
        Some("s".to_owned()),
        None,
        Some("ws://here".to_owned()),
        None,
    );
    assert_eq!(config.resolved_api_base_url(), "https://api.alpaca.markets");
    assert_eq!(config.resolved_ws_url(), "ws://here");
    assert_eq!(AlpacaMode::Live.default_ws_url(), "wss://api.alpaca.markets/stream");
    assert_eq!(ALPACA, "ALPACA");
    assert_eq!(
        config.text(),
        "AlpacaExecClientConfig(mode=live, api_base_url=https://api.alpaca.markets)"
    );
    for mode in [AlpacaMode::Paper, AlpacaMode::Live] {
        assert_eq!(AlpacaMode::parse(mode.name()), Ok(mode));
    }
}

#[test]
fn credentials_of_a_configuration() {
    let config = |key: Option<&str>, secret: Option<&str>| AlpacaExecClientConfig {
        api_key: key.map(str::to_owned),
        api_secret: secret.map(str::to_owned),
        ..Default::default()
    };
    assert_eq!(
        config(None, Some("s")).credentials(),
        Err("Alpaca API key not configured".to_owned())
    );
    assert_eq!(
        config(Some("k"), None).credentials(),
        Err("Alpaca API secret not configured".to_owned())
    );
    assert_eq!(
        config(Some("k"), Some("")).credentials(),
        Err("Failed to build Alpaca HTTP client: Alpaca credentials not configured (set ALPACA_API_KEY_*/ALPACA_API_SECRET_*)".to_owned())
    );
    assert_eq!(
        config(Some("k"), Some("s")).credentials(),
        Ok(("k".to_owned(), "s".to_owned()))
    );
}

#[test]
fn fixed_point_rounding() {
    assert_eq!(
        price_from(dec("2.345"), 2),
        Some(Fixed { raw: 23_400_000_000_000_000, precision: 2 })
    );
    assert_eq!(
        price_from(dec("-2.355"), 2),
        Some(Fixed { raw: -23_600_000_000_000_000, precision: 2 })
    );
    assert_eq!(
        quantity_from(dec("1.5"), 0),
        Some(Fixed { raw: 20_000_000_000_000_000, precision: 0 })
    );
    assert_eq!(quantity_from(dec("-1"), 0), None);
    assert_eq!(
        money_from(dec("0.015"), 2),
        Ok(Fixed { raw: 200_000_000_000_000, precision: 2 })
    );
    assert!(money_from(dec("99999999999999999"), 2).is_err());
    assert_eq!(price_from(dec("99999999999999999"), 2), None);
}

#[test]
fn empty_requests() {
    let r = CreateOrderRequest::default();
    assert_eq!(r.symbol, "");
    assert!(r.limit_price.is_none() && r.take_profit.is_none() && r.extended_hours.is_none());
    let r = ReplaceOrderRequest::default();
    assert!(r.qty.is_none() && r.limit_price.is_none() && r.stop_price.is_none());
}

#[test]
fn currencies_of_too_fine_a_precision() {
    let text = account_balance(&sample_account(), 200).unwrap_err().text();
    assert!(text.starts_with("parse error: equity money: "), "{text}");
    assert!(money_from(dec("1"), 17).is_err());
    assert!(money_from(dec("1"), 16).is_ok());
    let mut fine = nautilus_model::types::Currency::USD();
    fine.code = nautilus_model::identifiers::Symbol::new("FINE200").inner();
    fine.precision = 200;
    nautilus_model::types::Currency::register(fine, true).unwrap();
    let mut acct = sample_account();
    acct.currency = "FINE200".into();
    let text = parse_account_state(&acct, true, 0, 0).unwrap_err().text();
    assert!(text.starts_with("parse error: equity money: "), "{text}");
}

#[test]
fn the_register_is_asked_for_the_trimmed_code() {
    let mut acct = sample_account();
    acct.currency = "\u{a0}JPY\n".into();
    acct.equity = "100.5".into();
    acct.cash = "20".into();
    let state = parse_account_state(&acct, true, 0, 0).unwrap();
    assert_eq!(state.currency.code(), "JPY");
    assert_eq!(state.currency.precision(), 0);
    assert_eq!(state.balance.total, Fixed { raw: 1_000_000_000_000_000_000, precision: 0 });
    acct.currency = " XYZ ".into();
    assert_eq!(
        parse_account_state(&acct, true, 0, 0).unwrap_err().text(),
        "parse error: unknown account currency ' XYZ ': Unknown currency: XYZ"
    );
}
