//! The risk gatekeeper.

use broker_feeds::alpaca::gatekeeper::{
    check, check_entry, check_notional, check_pct, check_shares, deny, is_increasing,
    parse_bool_env, parse_pct_env, parse_positive_env, read_env, resulting_gross,
    resulting_position, try_check, try_check_pct, try_is_increasing, AccountInfo, Cap, Decision,
    GatekeeperLimits, GateVar, GateVars, OrderInfo, ENV_ALLOW_MARKET_ORDERS, ENV_MAX_ORDER_SHARES,
    ENV_MAX_POSITION_PCT,
};
use broker_feeds::decimal::Dec;
use broker_feeds::model::{Money, OrderSide, OrderType};
use rust_decimal::Decimal;

fn dec(value: f64) -> Dec {
    let d = Decimal::try_from(value).unwrap();
    Dec::new(d.mantissa(), d.scale()).unwrap()
}

fn text(s: &str) -> Dec {
    Dec::parse(s).unwrap()
}

fn qty(value: f64) -> Dec {
    Dec::new(value as i128, 0).unwrap()
}

fn px(value: f64) -> Dec {
    Dec::new((value * 100.0).round() as i128, 2).unwrap()
}

fn cap(value: f64) -> Option<Cap> {
    Some(Cap { limit: dec(value), shown: format!("{value}") })
}

fn pct(value: f64) -> Option<Cap> {
    Some(Cap { limit: dec(value), shown: format!("{:.1}", value * 100.0) })
}

fn order(
    side: OrderSide,
    order_type: OrderType,
    quantity: f64,
    limit_price: Option<f64>,
    reference_price: Option<f64>,
) -> OrderInfo {
    OrderInfo {
        side,
        order_type,
        quantity: qty(quantity),
        limit_price: limit_price.map(px),
        reference_price: reference_price.map(px),
    }
}

fn buy_limit(quantity: f64, limit_px: f64) -> OrderInfo {
    order(OrderSide::Buy, OrderType::Limit, quantity, Some(limit_px), None)
}

fn buy_market(quantity: f64) -> OrderInfo {
    order(OrderSide::Buy, OrderType::Market, quantity, None, None)
}

fn buy_market_ref(quantity: f64, reference_px: f64) -> OrderInfo {
    order(OrderSide::Buy, OrderType::Market, quantity, None, Some(reference_px))
}

fn sell_limit(quantity: f64, limit_px: f64) -> OrderInfo {
    order(OrderSide::Sell, OrderType::Limit, quantity, Some(limit_px), None)
}

fn sell_market(quantity: f64) -> OrderInfo {
    order(OrderSide::Sell, OrderType::Market, quantity, None, None)
}

fn usd(amount: f64) -> Money {
    Money { amount: px(amount), currency: "USD".to_owned() }
}

fn flat(equity: f64) -> AccountInfo {
    AccountInfo {
        equity: Some(usd(equity)),
        symbol_net_qty: Dec::zero(),
        symbol_avg_px: Dec::zero(),
        total_gross_exposure: Dec::zero(),
    }
}

fn allow_market() -> GatekeeperLimits {
    GatekeeperLimits { allow_market_orders: true, ..Default::default() }
}

fn reason(d: Decision) -> String {
    match d {
        Decision::Deny { reason } => reason,
        Decision::Allow => panic!("expected a denial"),
    }
}

#[test]
fn default_denies_market_entry_but_allows_limits() {
    let limits = GatekeeperLimits::default();
    assert!(!limits.is_empty());
    assert!(matches!(
        check(&buy_market(10.0), &flat(1_000_000.0), &limits),
        Decision::Deny { .. }
    ));
    assert!(check(&buy_limit(1_000_000.0, 999.0), &flat(1.0), &limits).is_allowed());
}

#[test]
fn allow_market_with_no_caps_is_true_passthrough() {
    let limits = allow_market();
    assert!(limits.is_empty());
    assert!(check(&buy_market(1_000_000.0), &flat(1.0), &limits).is_allowed());
    assert!(check(&buy_limit(1_000_000.0, 999.0), &flat(1.0), &limits).is_allowed());
}

#[test]
fn market_entry_allowed_when_opted_in_but_share_cap_still_applies() {
    let limits = GatekeeperLimits {
        max_order_shares: cap(100.0),
        allow_market_orders: true,
        ..Default::default()
    };
    assert!(check(&buy_market(50.0), &flat(1_000_000.0), &limits).is_allowed());
    assert!(matches!(
        check(&buy_market(150.0), &flat(1_000_000.0), &limits),
        Decision::Deny { .. }
    ));
}

#[test]
fn market_entry_notional_valued_via_reference_price() {
    let limits = GatekeeperLimits {
        max_order_notional: cap(50_000.0),
        allow_market_orders: true,
        ..Default::default()
    };
    assert!(matches!(
        check(&buy_market_ref(100.0, 600.0), &flat(10_000_000.0), &limits),
        Decision::Deny { .. }
    ));
    assert!(check(&buy_market_ref(100.0, 500.0), &flat(10_000_000.0), &limits).is_allowed());
}

#[test]
fn market_entry_position_pct_valued_via_reference_price() {
    let limits = GatekeeperLimits {
        max_position_pct: pct(0.25),
        allow_market_orders: true,
        ..Default::default()
    };
    assert!(matches!(
        check(&buy_market_ref(300.0, 100.0), &flat(100_000.0), &limits),
        Decision::Deny { .. }
    ));
    assert!(check(&buy_market_ref(250.0, 100.0), &flat(100_000.0), &limits).is_allowed());
}

#[test]
fn allowed_market_entry_without_reference_price_denies_when_notional_configured() {
    let limits = GatekeeperLimits {
        max_order_notional: cap(50_000.0),
        allow_market_orders: true,
        ..Default::default()
    };
    let d = check(&buy_market(10.0), &flat(1_000_000.0), &limits);
    match d {
        Decision::Deny { reason } => assert!(reason.contains("reference price")),
        Decision::Allow => panic!("expected fail-closed deny (no price to value)"),
    }
}

#[test]
fn allowed_market_entry_without_reference_price_allows_when_only_share_cap() {
    let limits = GatekeeperLimits {
        max_order_shares: cap(100.0),
        allow_market_orders: true,
        ..Default::default()
    };
    assert!(check(&buy_market(50.0), &flat(1_000_000.0), &limits).is_allowed());
}

#[test]
fn reference_price_ignored_when_limit_price_present() {
    let limits = GatekeeperLimits { max_order_notional: cap(50_000.0), ..Default::default() };
    let order = OrderInfo {
        side: OrderSide::Buy,
        order_type: OrderType::Limit,
        quantity: qty(100.0),
        limit_price: Some(px(400.0)),
        reference_price: Some(px(600.0)),
    };
    assert!(check(&order, &flat(10_000_000.0), &limits).is_allowed());
}

#[test]
fn max_order_shares_denies_oversized_entry() {
    let limits = GatekeeperLimits { max_order_shares: cap(100.0), ..Default::default() };
    assert!(matches!(
        check(&buy_limit(101.0, 10.0), &flat(1_000_000.0), &limits),
        Decision::Deny { .. }
    ));
    assert!(check(&buy_limit(100.0, 10.0), &flat(1_000_000.0), &limits).is_allowed());
}

#[test]
fn max_order_shares_applies_to_exits_too() {
    let limits = GatekeeperLimits { max_order_shares: cap(100.0), ..Default::default() };
    let acct = AccountInfo {
        symbol_net_qty: dec(500.0),
        symbol_avg_px: dec(10.0),
        total_gross_exposure: dec(5_000.0),
        ..flat(1_000_000.0)
    };
    assert!(matches!(check(&sell_limit(200.0, 10.0), &acct, &limits), Decision::Deny { .. }));
}

#[test]
fn max_order_notional_denies_by_dollar_value() {
    let limits = GatekeeperLimits { max_order_notional: cap(50_000.0), ..Default::default() };
    assert!(matches!(
        check(&buy_limit(100.0, 600.0), &flat(10_000_000.0), &limits),
        Decision::Deny { .. }
    ));
    assert!(check(&buy_limit(100.0, 500.0), &flat(10_000_000.0), &limits).is_allowed());
}

#[test]
fn market_entry_is_denied() {
    let limits = GatekeeperLimits { max_order_shares: cap(1_000.0), ..Default::default() };
    let d = check(&buy_market(10.0), &flat(1_000_000.0), &limits);
    match d {
        Decision::Deny { reason } => assert!(reason.contains("market")),
        Decision::Allow => panic!("expected market entry to be denied"),
    }
}

#[test]
fn market_exit_is_allowed() {
    let limits = GatekeeperLimits { max_position_pct: pct(0.10), ..Default::default() };
    let acct = AccountInfo {
        equity: Some(usd(1_000_000.0)),
        symbol_net_qty: dec(100.0),
        symbol_avg_px: dec(10.0),
        total_gross_exposure: dec(1_000.0),
    };
    assert!(check(&sell_market(50.0), &acct, &limits).is_allowed());
}

#[test]
fn market_order_opening_short_is_an_entry_and_denied() {
    let limits = GatekeeperLimits { max_position_pct: pct(0.50), ..Default::default() };
    let d = check(&sell_market(10.0), &flat(1_000_000.0), &limits);
    assert!(matches!(d, Decision::Deny { .. }));
}

#[test]
fn increasing_detection() {
    let cases = [
        (0.0, OrderSide::Buy, 10.0, true),
        (0.0, OrderSide::Sell, 10.0, true),
        (100.0, OrderSide::Buy, 10.0, true),
        (100.0, OrderSide::Sell, 10.0, false),
        (-100.0, OrderSide::Sell, 10.0, true),
        (-100.0, OrderSide::Buy, 10.0, false),
        (3.0, OrderSide::Sell, 10.0, true),
        (100.0, OrderSide::Sell, 100.0, false),
    ];
    for (net, side, quantity, expect_increasing) in cases {
        let o = order(side, OrderType::Limit, quantity, Some(10.0), None);
        assert_eq!(is_increasing(&o, dec(net)), expect_increasing);
        assert_eq!(try_is_increasing(&o, dec(net)), Some(expect_increasing));
    }
}

#[test]
fn exit_skips_exposure_rules() {
    let limits = GatekeeperLimits {
        max_position_pct: pct(0.01),
        max_gross_exposure_pct: pct(0.01),
        ..Default::default()
    };
    let acct = AccountInfo {
        equity: Some(usd(10_000.0)),
        symbol_net_qty: dec(1_000.0),
        symbol_avg_px: dec(50.0),
        total_gross_exposure: dec(50_000.0),
    };
    assert!(check(&sell_limit(100.0, 50.0), &acct, &limits).is_allowed());
}

#[test]
fn pct_rule_with_unknown_equity_denies_entry() {
    let limits = GatekeeperLimits { max_position_pct: pct(0.10), ..Default::default() };
    let acct = AccountInfo { equity: None, ..flat(0.0) };
    assert!(matches!(check(&buy_limit(1.0, 1.0), &acct, &limits), Decision::Deny { .. }));
}

#[test]
fn unknown_equity_still_allows_exit() {
    let limits = GatekeeperLimits { max_position_pct: pct(0.10), ..Default::default() };
    let acct = AccountInfo {
        equity: None,
        symbol_net_qty: dec(100.0),
        symbol_avg_px: dec(10.0),
        total_gross_exposure: dec(1_000.0),
    };
    assert!(check(&sell_limit(50.0, 10.0), &acct, &limits).is_allowed());
}

#[test]
fn absolute_caps_work_without_equity() {
    let limits = GatekeeperLimits {
        max_order_shares: cap(100.0),
        max_order_notional: cap(10_000.0),
        ..Default::default()
    };
    let acct = AccountInfo { equity: None, ..flat(0.0) };
    assert!(check(&buy_limit(50.0, 10.0), &acct, &limits).is_allowed());
    assert!(matches!(check(&buy_limit(150.0, 10.0), &acct, &limits), Decision::Deny { .. }));
}

#[test]
fn position_pct_denies_when_resulting_position_too_large() {
    let limits = GatekeeperLimits { max_position_pct: pct(0.25), ..Default::default() };
    assert!(matches!(
        check(&buy_limit(300.0, 100.0), &flat(100_000.0), &limits),
        Decision::Deny { .. }
    ));
    assert!(check(&buy_limit(250.0, 100.0), &flat(100_000.0), &limits).is_allowed());
}

#[test]
fn position_pct_accounts_for_existing_position() {
    let limits = GatekeeperLimits { max_position_pct: pct(0.25), ..Default::default() };
    let acct = AccountInfo {
        equity: Some(usd(100_000.0)),
        symbol_net_qty: dec(200.0),
        symbol_avg_px: dec(100.0),
        total_gross_exposure: dec(20_000.0),
    };
    assert!(matches!(check(&buy_limit(100.0, 100.0), &acct, &limits), Decision::Deny { .. }));
}

#[test]
fn gross_exposure_pct_sums_across_symbols() {
    let limits = GatekeeperLimits { max_gross_exposure_pct: pct(0.50), ..Default::default() };
    let acct = AccountInfo {
        equity: Some(usd(100_000.0)),
        symbol_net_qty: Dec::zero(),
        symbol_avg_px: Dec::zero(),
        total_gross_exposure: dec(40_000.0),
    };
    assert!(matches!(check(&buy_limit(200.0, 100.0), &acct, &limits), Decision::Deny { .. }));
}

#[test]
fn gross_exposure_replaces_this_symbols_contribution() {
    let limits = GatekeeperLimits { max_gross_exposure_pct: pct(0.50), ..Default::default() };
    let acct = AccountInfo {
        equity: Some(usd(100_000.0)),
        symbol_net_qty: dec(100.0),
        symbol_avg_px: dec(100.0),
        total_gross_exposure: dec(40_000.0),
    };
    assert!(check(&buy_limit(100.0, 100.0), &acct, &limits).is_allowed());
}

#[test]
fn non_positive_equity_denies_pct_entry() {
    let limits = GatekeeperLimits { max_position_pct: pct(0.25), ..Default::default() };
    let acct = AccountInfo { equity: Some(usd(0.0)), ..flat(0.0) };
    assert!(matches!(check(&buy_limit(1.0, 1.0), &acct, &limits), Decision::Deny { .. }));
}

#[test]
fn share_cap_checked_before_market_entry_ban() {
    let limits = GatekeeperLimits { max_order_shares: cap(5.0), ..Default::default() };
    match check(&buy_market(10.0), &flat(1_000_000.0), &limits) {
        Decision::Deny { reason } => assert!(reason.contains(ENV_MAX_ORDER_SHARES)),
        Decision::Allow => panic!("expected deny"),
    }
}

fn bits_of(raw: &str) -> Option<u64> {
    let n: Result<f64, _> = raw.trim().parse();
    n.ok().map(|v| v.to_bits())
}

#[test]
fn pct_env_parsing_treats_value_as_percent_number() {
    for (raw, expected) in [("25", 0.25), ("0.25", 0.0025), ("100", 1.0), ("2", 0.02)] {
        let got = parse_pct_env("ALPACA_GATE_MAX_POSITION_PCT", Some(raw.to_owned()), bits_of(raw))
            .unwrap();
        assert_eq!(got.map(|b| f64::from_bits(b) / 100.0), Some(expected), "raw={raw}");
    }
}

#[test]
fn pct_env_rejects_out_of_range_and_garbage() {
    for raw in ["0", "-5", "abc", "150", "100.1"] {
        let got = parse_pct_env(
            "ALPACA_GATE_MAX_GROSS_EXPOSURE_PCT",
            Some(raw.to_owned()),
            bits_of(raw),
        );
        assert!(got.is_err(), "raw={raw} should be rejected");
    }
}

#[test]
fn positive_env_unset_is_none() {
    assert_eq!(parse_positive_env("ALPACA_GATE_MAX_ORDER_SHARES", None, None).unwrap(), None);
}

#[test]
fn env_errors_name_the_variable_and_its_value() {
    let name = "ALPACA_GATE_MAX_ORDER_SHARES";
    assert_eq!(
        parse_positive_env(name, Some("abc".to_owned()), None),
        Err("ALPACA_GATE_MAX_ORDER_SHARES='abc' is not a number".to_owned())
    );
    for raw in ["0", "-0", "-1", "inf", "NaN", "-inf"] {
        assert_eq!(
            parse_positive_env(name, Some(raw.to_owned()), bits_of(raw)),
            Err(format!("{name}='{raw}' must be a positive finite number"))
        );
    }
    assert_eq!(
        parse_positive_env(name, Some("2.5".to_owned()), bits_of("2.5")),
        Ok(Some(2.5f64.to_bits()))
    );
    assert_eq!(parse_positive_env(name, Some("  ".to_owned()), None), Ok(None));
    assert_eq!(
        parse_pct_env("P", Some("101".to_owned()), bits_of("101")),
        Err("P='101' must be a percent number in (0, 100] (e.g. 25 = 25%, 0.25 = 0.25%)".to_owned())
    );
    assert_eq!(
        parse_pct_env("P", Some(" x".to_owned()), None),
        Err("P=' x' is not a number".to_owned())
    );
}

fn var(raw: &str) -> GateVar {
    GateVar { raw: Some(raw.to_owned()), bits: bits_of(raw) }
}

#[test]
fn limits_from_the_environment() {
    let unset = GateVar { raw: None, bits: None };
    let none = GateVars {
        max_order_shares: unset.clone(),
        max_order_notional: unset.clone(),
        max_position_pct: unset.clone(),
        max_gross_exposure_pct: unset.clone(),
        allow_market_orders: None,
    };
    let numbers = GatekeeperLimits::from_env(none.clone()).unwrap();
    assert_eq!(numbers.max_order_shares, None);
    assert_eq!(numbers.max_gross_exposure_pct, None);
    assert!(!numbers.allow_market_orders);
    let some = GateVars {
        max_order_shares: var("150"),
        max_gross_exposure_pct: var("25"),
        allow_market_orders: Some("yes".to_owned()),
        ..none
    };
    let numbers = GatekeeperLimits::from_env(some.clone()).unwrap();
    assert_eq!(numbers.max_order_shares, Some(150f64.to_bits()));
    assert_eq!(numbers.max_order_notional, None);
    assert_eq!(numbers.max_position_pct, None);
    assert_eq!(numbers.max_gross_exposure_pct, Some(25f64.to_bits()));
    assert!(numbers.allow_market_orders);
    // The first variable that is out of order gives the error.
    let bad = GateVars { max_order_notional: var("-1"), max_position_pct: var("101"), ..some };
    assert_eq!(
        GatekeeperLimits::from_env(bad),
        Err("ALPACA_GATE_MAX_ORDER_NOTIONAL='-1' must be a positive finite number".to_owned())
    );
}

#[test]
fn boolean_words() {
    for raw in ["true", "TRUE", " Yes ", "1", "on", "\ton\n"] {
        assert!(parse_bool_env(Some(raw.to_owned())), "{raw}");
    }
    for raw in ["false", "0", "no", "off", "", "  ", "true!"] {
        assert!(!parse_bool_env(Some(raw.to_owned())), "{raw}");
    }
    assert!(!parse_bool_env(None));
    assert_eq!(read_env(Some(" \u{2003} ".to_owned())), None);
    assert_eq!(read_env(Some(" a ".to_owned())), Some(" a ".to_owned()));
}

#[test]
fn denial_texts() {
    let limits = GatekeeperLimits { max_order_shares: cap(100.0), ..Default::default() };
    assert_eq!(
        reason(check_shares(&buy_limit(101.0, 10.0), &limits).unwrap()),
        "order quantity 101 > ALPACA_GATE_MAX_ORDER_SHARES (100)"
    );
    assert_eq!(check_shares(&buy_limit(100.0, 10.0), &limits), None);
    assert_eq!(
        reason(check_notional(text("60000.00"), &cap(50_000.5).unwrap()).unwrap()),
        "order notional 60000.00 > ALPACA_GATE_MAX_ORDER_NOTIONAL (50000.5)"
    );
    assert_eq!(check_notional(text("50000.50"), &cap(50_000.5).unwrap()), None);
    let none = GatekeeperLimits::default();
    assert_eq!(
        reason(check_entry(&buy_market(1.0), &flat(1.0), &none).unwrap()),
        format!(
            "market orders not permitted for entries (set {ENV_ALLOW_MARKET_ORDERS}=true to allow; limit entries otherwise)"
        )
    );
    let position = GatekeeperLimits {
        max_position_pct: pct(0.25),
        allow_market_orders: true,
        ..Default::default()
    };
    let unknown = AccountInfo { equity: None, ..flat(0.0) };
    assert_eq!(
        reason(check_entry(&buy_market(1.0), &unknown, &position).unwrap()),
        "account equity not yet primed; denying entry (fail-closed) until connect completes account sync"
    );
    assert_eq!(
        reason(check_entry(&buy_market(1.0), &flat(1.0), &position).unwrap()),
        "entry has no limit or reference price to value against risk limits (set a reference price on MARKET orders, or use a LIMIT entry); rules requiring valuation: ALPACA_GATE_MAX_ORDER_NOTIONAL / ALPACA_GATE_MAX_POSITION_PCT / ALPACA_GATE_MAX_GROSS_EXPOSURE_PCT"
    );
    assert_eq!(
        reason(check(&buy_limit(300.0, 100.0), &flat(100_000.0), &position)),
        "resulting position value 30000.00 is 30.0% of equity 100000.00 USD, exceeds ALPACA_GATE_MAX_POSITION_PCT (25.0%)"
    );
    assert_eq!(
        reason(check(&buy_limit(1.0, 1.0), &flat(0.0), &position)),
        "account equity 0.00 USD is non-positive; denying entry (fail-closed) for ALPACA_GATE_MAX_POSITION_PCT"
    );
    assert_eq!(deny("why".to_owned()), Decision::Deny { reason: "why".to_owned() });
}

#[test]
fn shares_of_equity_are_cut_off_in_the_reason() {
    let d = check_pct(
        text("2"),
        &Money { amount: text("3"), currency: "USD".to_owned() },
        &pct(0.5).unwrap(),
        ENV_MAX_POSITION_PCT,
        "value",
    );
    assert_eq!(
        reason(d.unwrap()),
        "value 2 is 66.6% of equity 3 USD, exceeds ALPACA_GATE_MAX_POSITION_PCT (50.0%)"
    );
}

#[test]
fn exposure_after_an_entry() {
    let acct = AccountInfo {
        equity: None,
        symbol_net_qty: text("-3"),
        symbol_avg_px: text("10"),
        total_gross_exposure: text("100"),
    };
    assert_eq!(resulting_position(&sell_limit(2.0, 1.5), &acct, text("1.5")), Some(text("7.5")));
    assert_eq!(resulting_gross(&sell_limit(2.0, 1.5), &acct, text("1.5")), Some(text("77.5")));
}

#[test]
fn numbers_that_do_not_fit_give_no_verdict() {
    let huge = text("79228162514264337593543950335");
    let o = OrderInfo {
        side: OrderSide::Buy,
        order_type: OrderType::Limit,
        quantity: huge,
        limit_price: Some(text("2")),
        reference_price: None,
    };
    let limits = GatekeeperLimits { max_order_notional: cap(1.0), ..Default::default() };
    assert!(try_check(&o, &flat(1.0), &limits).is_none());
    let acct = AccountInfo { symbol_net_qty: huge, ..flat(1.0) };
    assert_eq!(try_is_increasing(&o, huge), None);
    assert!(try_check(&o, &acct, &GatekeeperLimits::default()).is_none());
    let tiny = Money {
        amount: text("0.0000000000000000000000000001"),
        currency: "USD".to_owned(),
    };
    assert!(try_check_pct(huge, &tiny, &pct(0.5).unwrap(), "E", "v").is_none());
    assert_eq!(resulting_position(&o, &acct, text("1")), None);
    assert_eq!(resulting_gross(&o, &acct, text("1")), None);
}

#[test]
fn a_raised_share_cap_lets_the_same_order_through() {
    let low = GatekeeperLimits { max_order_shares: cap(100.0), ..Default::default() };
    let high = GatekeeperLimits { max_order_shares: cap(200.0), ..Default::default() };
    let o = buy_limit(100.0, 10.0);
    assert!(check(&o, &flat(1.0), &low).is_allowed());
    assert!(check(&o, &flat(1.0), &high).is_allowed());
}

#[test]
fn an_order_without_a_side_moves_nothing() {
    let o = order(OrderSide::NoOrderSide, OrderType::Market, 10.0, None, None);
    assert_eq!(o.signed_qty(), Dec::zero());
    assert!(!is_increasing(&o, text("5")));
    assert_eq!(sell_limit(2.0, 1.0).signed_qty(), text("-2"));
    assert_eq!(buy_market_ref(2.0, 1.25).valuation_price(), Some(text("1.25")));
    assert_eq!(buy_market(2.0).valuation_price(), None);
    assert!(!allow_market().requires_equity());
}

#[test]
fn looser_limits_allow_what_tighter_ones_allow() {
    let limits = |shares: f64, notional: f64, position: f64, gross: f64| GatekeeperLimits {
        max_order_shares: cap(shares),
        max_order_notional: cap(notional),
        max_position_pct: pct(position),
        max_gross_exposure_pct: pct(gross),
        allow_market_orders: false,
    };
    let tight = limits(100.0, 1_000.0, 0.1, 0.2);
    let loose = [
        limits(100.0, 1_000.0, 0.1, 0.2),
        limits(101.0, 1_000.0, 0.1, 0.2),
        limits(100.0, 1_000.01, 0.1, 0.2),
        limits(100.0, 1_000.0, 0.11, 0.2),
        limits(100.0, 1_000.0, 0.1, 0.21),
        GatekeeperLimits { max_order_shares: None, ..tight.clone() },
        GatekeeperLimits { max_order_notional: None, ..tight.clone() },
        GatekeeperLimits { max_position_pct: None, ..tight.clone() },
        GatekeeperLimits { max_gross_exposure_pct: None, ..tight.clone() },
        GatekeeperLimits { allow_market_orders: true, ..tight.clone() },
        GatekeeperLimits::default(),
        allow_market(),
    ];
    let account = flat(10_000.0);
    for o in [buy_limit(100.0, 10.0), sell_limit(50.0, 20.0), buy_limit(1.0, 1_000.0)] {
        assert!(check(&o, &account, &tight).is_allowed());
        for l in &loose {
            assert!(check(&o, &account, l).is_allowed());
        }
    }
    assert!(!check(&buy_limit(100.0, 10.01), &account, &tight).is_allowed());
    assert!(!check(&buy_limit(101.0, 1.0), &account, &tight).is_allowed());
}
