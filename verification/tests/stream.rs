//! The live stream: frames, sessions, subscriptions and control.

use broker_feeds::marketstore::config::{
    equity_from_spec, instruments_from_config, InstrumentSpec, MarketStoreDataClientConfig,
    MarketStoreDataClientFactory, DEFAULT_GRPC_ENDPOINT, DEFAULT_VENUE, DEFAULT_WS_ENDPOINT,
    MARKETSTORE, MARKETSTORE_CLIENT_ID,
};
use broker_feeds::marketstore::data::{
    next_generation, replay_endpoint, restart_is_current, restart_session, subscribe_bars,
    subscribe_quotes, subscribe_trades, unsubscribe_bars, unsubscribe_quotes, unsubscribe_trades,
};
use broker_feeds::marketstore::decode::{Number, NumpyMultiDataset};
use broker_feeds::marketstore::query::{
    bars_query, first_result, query_request, quotes_query, request_limit, split_epoch,
    symbol_filter, trades_query,
};
use broker_feeds::marketstore::rows::{Field, StreamPayload, Value};
use broker_feeds::marketstore::rpc::{
    rpc_endpoint_from_ws, subscribe_body, subscribe_outcome, TickKind,
};
use broker_feeds::marketstore::stream::{
    handle_binary, run_one_session, run_session_loop, subscribe_tbks, Delivery, Frame, FrameAction,
    GlobStreams, LoopStep, ReplayWindow, SessionEnd, SessionEvent, SessionStep, INITIAL_BACKOFF_MS,
    MAX_BACKOFF_MS,
};
use broker_feeds::marketstore::subscriptions::{InstrumentKey, SubKind, Subscriptions};
use broker_feeds::marketstore::symbology::parse_bar_type;
use broker_feeds::fixed::Fixed;
use nautilus_model::types::Price;

#[test]
fn derives_rpc_endpoint_from_ws() {
    assert_eq!(rpc_endpoint_from_ws("ws://127.0.0.1:5993/ws"), "http://127.0.0.1:5993/rpc");
    assert_eq!(rpc_endpoint_from_ws("ws://host:5993/ws/replay"), "http://host:5993/rpc");
    assert_eq!(rpc_endpoint_from_ws("wss://h:5993/ws"), "https://h:5993/rpc");
}

#[test]
fn subscribe_body_uses_pascal_case() {
    let text = subscribe_body("AAPL", TickKind::Quotes);
    let body: serde_json::Value = serde_json::from_str(&text).unwrap();
    let params = &body["params"];
    assert_eq!(params["Symbol"], "AAPL");
    assert_eq!(params["DataTypes"][0], "quotes");
    assert_eq!(params["Action"], "subscribe");
}

#[test]
fn tick_kind_tokens() {
    assert_eq!(TickKind::Quotes.as_data_type(), "quotes");
    assert_eq!(TickKind::Trades.as_data_type(), "trades");
}

#[test]
fn split_epoch_decomposes_nanos() {
    let ts = 1_781_827_020_123_456_789u64;
    assert_eq!(split_epoch(Some(ts)), (1_781_827_020, 123_456_789));
    assert_eq!(split_epoch(None), (0, 0));
}

#[test]
fn multi_query_request_constructs() {
    let req = vec![query_request("AAPL/1Min/OHLCV", None, None, 0)];
    assert_eq!(req.len(), 1);
    assert_eq!(req[0].destination, "AAPL/1Min/OHLCV");
}

fn ohlcv_frame(key: &str) -> Frame {
    let whole = |v: i64| Value::Int(v);
    let float = |v: f64| Value::Float(v.to_bits());
    let field = |name: &str, value: Value| Field { name: name.to_owned(), value };
    Frame::Data(StreamPayload {
        key: key.to_string(),
        data: vec![
            field("Epoch", whole(1_783_603_800)),
            field("Open", float(1.5)),
            field("High", float(1.6)),
            field("Low", float(1.4)),
            field("Close", float(1.55)),
            field("Volume", whole(1000)),
        ],
    })
}

fn glob_1min(venue: &str) -> GlobStreams {
    GlobStreams {
        patterns: vec!["*/1Min/OHLCV".to_string()],
        venue: venue.to_string(),
        price_precision: 2,
        size_precision: 0,
    }
}

fn as_price(n: Number, precision: u8) -> f64 {
    match n {
        Number::F8(bits) => Price::new(f64::from_bits(bits), precision).as_f64(),
        other => panic!("expected a double, got {other:?}"),
    }
}

#[test]
fn glob_frame_synthesizes_bar_when_not_in_exact_subs() {
    let subs = Subscriptions::new();
    let frame = ohlcv_frame("AAPL/1Min/OHLCV");
    match handle_binary(&frame, &subs, &glob_1min("MARKETSTORE")) {
        FrameAction::Deliver(Delivery::Bar { bar_type, price_precision, size_precision, row }) => {
            assert_eq!(bar_type.text, "AAPL.MARKETSTORE-1-MINUTE-LAST-EXTERNAL");
            assert_eq!(as_price(row.close, price_precision), 1.55);
            assert_eq!(size_precision, 0);
            assert_eq!(row.ts_init - row.ts_event, 60_000_000_000);
        }
        other => panic!("expected a Bar, got {other:?}"),
    }
}

#[test]
fn non_matching_glob_key_is_dropped() {
    let subs = Subscriptions::new();
    let frame = ohlcv_frame("AAPL/5Min/OHLCV");
    let action = handle_binary(&frame, &subs, &glob_1min("MARKETSTORE"));
    assert!(matches!(action, FrameAction::Unasked), "no bar should be emitted");
}

#[test]
fn exact_subscription_takes_precedence_over_glob() {
    let subs = Subscriptions::new();
    let frame = ohlcv_frame("AAPL/1Min/OHLCV");
    let action = handle_binary(&frame, &subs, &GlobStreams::default());
    assert!(matches!(action, FrameAction::Unasked), "no glob -> unsubscribed key dropped");
}

fn config() -> MarketStoreDataClientConfig {
    MarketStoreDataClientConfig::new(
        DEFAULT_GRPC_ENDPOINT.to_owned(),
        DEFAULT_VENUE.to_owned(),
        vec![
            InstrumentSpec::new("AAPL".to_owned(), 4, 1, 0),
            InstrumentSpec::new("AAPL".to_owned(), 3, 3, 100),
            InstrumentSpec::new("MSFT".to_owned(), 0, 0, 100),
        ],
        2,
        0,
    )
}

fn aapl() -> InstrumentKey {
    InstrumentKey { symbol: "AAPL".to_owned(), venue: "NASDAQ".to_owned() }
}

#[test]
fn subscriptions_decide_before_patterns() {
    let mut subs = Subscriptions::new();
    let bar_type = parse_bar_type("AAPL.NASDAQ-1-MINUTE-LAST-EXTERNAL").unwrap();
    subscribe_bars(&mut subs, &config(), bar_type).unwrap();
    match handle_binary(&ohlcv_frame("AAPL/1Min/OHLCV"), &subs, &glob_1min("MARKETSTORE")) {
        FrameAction::Deliver(Delivery::Bar { bar_type, price_precision, size_precision, row }) => {
            assert_eq!(bar_type.text, "AAPL.NASDAQ-1-MINUTE-LAST-EXTERNAL");
            assert_eq!((price_precision, size_precision), (4, 1));
            assert_eq!(row.ts_init, 1_783_603_860_000_000_000);
        }
        other => panic!("expected a Bar, got {other:?}"),
    }
}

#[test]
fn other_frames() {
    let subs = Subscriptions::new();
    let none = GlobStreams::default();
    assert!(none.is_empty());
    assert!(!none.matches("A/1Min/OHLCV"));
    let act = |frame: Frame| handle_binary(&frame, &subs, &none);
    assert!(matches!(act(Frame::Control("end".to_owned())), FrameAction::ReplayEnd));
    assert!(matches!(act(Frame::Control("subscribed".to_owned())), FrameAction::Ignore));
    assert!(matches!(act(Frame::Unknown), FrameAction::Ignore));
    match act(Frame::Failure("no".to_owned())) {
        FrameAction::ServerError(e) => assert_eq!(e, "no"),
        other => panic!("{other:?}"),
    }
    let any = GlobStreams { patterns: vec!["*/*/*".to_owned()], ..glob_1min("V") };
    assert!(matches!(
        handle_binary(&ohlcv_frame("AAPL/1Sec/QUOTE"), &subs, &any),
        FrameAction::Unasked
    ));
    let torn = Frame::Data(StreamPayload { key: "A/1Min/OHLCV".to_owned(), data: vec![] });
    match handle_binary(&torn, &subs, &any) {
        FrameAction::Undecodable(e) => assert_eq!(e, "missing/invalid Epoch in WS row"),
        other => panic!("{other:?}"),
    }
    let far = Frame::Data(StreamPayload {
        key: "A/1Min/OHLCV".to_owned(),
        data: vec![Field { name: "Epoch".to_owned(), value: Value::Int(i64::MAX) }],
    });
    assert!(matches!(handle_binary(&far, &subs, &any), FrameAction::Unfit));
}

#[test]
fn trades_and_quotes_under_their_keys() {
    let mut subs = Subscriptions::new();
    subscribe_trades(&mut subs, &config(), aapl());
    subscribe_quotes(&mut subs, &config(), aapl());
    let row = || {
        ["Epoch", "Price", "Size", "BidPrice", "AskPrice", "BidSize", "AskSize"]
            .iter()
            .map(|name| Field { name: name.to_string(), value: Value::Int(7) })
            .collect::<Vec<Field>>()
    };
    let frame = |key: &str| Frame::Data(StreamPayload { key: key.to_owned(), data: row() });
    match handle_binary(&frame("AAPL/1Sec/TRADE"), &subs, &GlobStreams::default()) {
        FrameAction::Deliver(Delivery::Trade { instrument_id, price_precision, row, .. }) => {
            assert_eq!(instrument_id.venue, "NASDAQ");
            assert_eq!(price_precision, 4);
            assert_eq!(row.trade_id, "7000000000-0");
        }
        other => panic!("{other:?}"),
    }
    match handle_binary(&frame("AAPL/1Sec/QUOTE"), &subs, &GlobStreams::default()) {
        FrameAction::Deliver(Delivery::Quote { instrument_id, size_precision, row, .. }) => {
            assert_eq!(instrument_id.symbol, "AAPL");
            assert_eq!(size_precision, 1);
            assert_eq!(row.ts_event, 7_000_000_000);
        }
        other => panic!("{other:?}"),
    }
    assert_eq!(
        subscribe_tbks(&subs, &glob_1min("V")),
        ["AAPL/1Sec/TRADE", "AAPL/1Sec/QUOTE", "*/1Min/OHLCV"]
    );
    unsubscribe_trades(&mut subs, "AAPL");
    assert_eq!(subs.keys(), ["AAPL/1Sec/QUOTE"]);
    unsubscribe_quotes(&mut subs, "AAPL");
    unsubscribe_quotes(&mut subs, "AAPL");
    assert!(subs.is_empty());
}

#[test]
fn subscribing_to_bars() {
    let mut subs = Subscriptions::new();
    let bars = |text: &str| parse_bar_type(text).unwrap();
    subscribe_bars(&mut subs, &config(), bars("SPY.V-5-MINUTE-LAST-EXTERNAL")).unwrap();
    let s = subs.get("SPY/5Min/OHLCV").unwrap();
    assert_eq!((s.price_precision, s.size_precision), (2, 0));
    assert!(matches!(s.kind, SubKind::Bar { ts_init_delta_ns: 300_000_000_000, .. }));
    assert_eq!(
        subscribe_bars(&mut subs, &config(), bars("SPY.V-100-TICK-LAST-EXTERNAL")),
        Err("unsupported bar aggregation for MarketStore: Tick".to_owned())
    );
    assert_eq!(
        unsubscribe_bars(&mut subs, &bars("SPY.V-100-TICK-LAST-EXTERNAL")),
        Err("unsupported bar aggregation for MarketStore: Tick".to_owned())
    );
    assert!(!subs.is_empty());
    unsubscribe_bars(&mut subs, &bars("SPY.V-5-MINUTE-LAST-EXTERNAL")).unwrap();
    assert!(subs.is_empty());
    assert!(subs.get("SPY/5Min/OHLCV").is_none());
}

#[test]
fn trades_and_quotes_are_told_apart() {
    let mut subs = Subscriptions::new();
    subscribe_trades(&mut subs, &config(), aapl());
    subscribe_quotes(&mut subs, &config(), aapl());
    assert!(matches!(subs.get("AAPL/1Sec/TRADE").unwrap().kind, SubKind::Trade { .. }));
    assert!(matches!(subs.get("AAPL/1Sec/QUOTE").unwrap().kind, SubKind::Quote { .. }));
    unsubscribe_trades(&mut subs, "AAPL");
    assert!(subs.get("AAPL/1Sec/TRADE").is_none());
    assert!(subs.get("AAPL/1Sec/QUOTE").is_some());
}

#[test]
fn sessions_to_start() {
    let mut subs = Subscriptions::new();
    assert!(restart_session(DEFAULT_WS_ENDPOINT, &None, &subs).is_none());
    subscribe_trades(&mut subs, &config(), aapl());
    let live = restart_session(DEFAULT_WS_ENDPOINT, &None, &subs).unwrap();
    assert_eq!(live.ws_url, "ws://127.0.0.1:5993/ws");
    assert!(live.replay.is_none());
    let window = ReplayWindow { start: "a".to_owned(), end: "b".to_owned(), step: 7 };
    let replay = restart_session(DEFAULT_WS_ENDPOINT, &Some(window), &subs).unwrap();
    assert_eq!(replay.ws_url, "ws://127.0.0.1:5993/ws/replay");
    let window = replay.replay.unwrap();
    assert_eq!((window.start.as_str(), window.end.as_str(), window.step), ("a", "b", 7));
}

#[test]
fn replay_addresses() {
    assert_eq!(replay_endpoint("ws://h/ws"), "ws://h/ws/replay");
    assert_eq!(replay_endpoint("ws://h/ws/replay"), "ws://h/ws/replay");
    assert_eq!(replay_endpoint("ws://h/stream"), "ws://h/stream/replay");
    assert_eq!(replay_endpoint("ws://h/ws//"), "ws://h/ws/replay");
    assert_eq!(replay_endpoint(""), "/replay");
}

#[test]
fn control_addresses() {
    assert_eq!(rpc_endpoint_from_ws("ws://h/ws/ws"), "http://h/rpc");
    assert_eq!(rpc_endpoint_from_ws("ws://h//"), "http://h/rpc");
    assert_eq!(rpc_endpoint_from_ws("http://h/ws"), "http://h/rpc");
    assert_eq!(
        rpc_endpoint_from_ws(&replay_endpoint("ws://h/ws")),
        rpc_endpoint_from_ws("ws://h/ws")
    );
}

#[test]
fn restarts_are_debounced() {
    assert_eq!(next_generation(4), 5);
    assert_eq!(next_generation(u64::MAX), 0);
    assert!(restart_is_current(5, 5));
    assert!(!restart_is_current(4, 5));
    let mut latest = u64::MAX - 1;
    let mut burst = Vec::new();
    for _ in 0..4 {
        latest = next_generation(latest);
        burst.push(latest);
    }
    let current: Vec<bool> = burst.iter().map(|g| restart_is_current(*g, latest)).collect();
    assert_eq!(current, [false, false, false, true]);
}

#[test]
fn session_events() {
    assert_eq!(
        run_one_session(SessionEvent::Cancelled, false),
        SessionStep::CloseAndEnd(SessionEnd::Cancelled)
    );
    assert_eq!(
        run_one_session(SessionEvent::ReplayEnd, true),
        SessionStep::CloseAndEnd(SessionEnd::ReplayComplete)
    );
    assert_eq!(run_one_session(SessionEvent::Frame, false), SessionStep::Continue);
    assert_eq!(run_one_session(SessionEvent::Other, true), SessionStep::Continue);
    assert_eq!(run_one_session(SessionEvent::Ping, false), SessionStep::Pong);
    for event in [SessionEvent::Close, SessionEvent::StreamEnd] {
        assert_eq!(run_one_session(event, true), SessionStep::End(SessionEnd::ReplayComplete));
        assert_eq!(run_one_session(event, false), SessionStep::End(SessionEnd::Failed));
    }
    assert_eq!(
        run_one_session(SessionEvent::ReadError, true),
        SessionStep::End(SessionEnd::Failed)
    );
}

#[test]
fn pauses_between_sessions() {
    let mut pause = INITIAL_BACKOFF_MS;
    let mut pauses = Vec::new();
    for _ in 0..7 {
        match run_session_loop(SessionEnd::Failed, false, false, pause) {
            LoopStep::RetryAfter { pause_ms, next_ms } => {
                pauses.push(pause_ms);
                pause = next_ms;
            }
            LoopStep::Stop => panic!("a live session is started again"),
        }
    }
    assert_eq!(pauses, [1_000, 2_000, 4_000, 8_000, 16_000, 30_000, 30_000]);
    assert_eq!(pause, MAX_BACKOFF_MS);
    assert_eq!(run_session_loop(SessionEnd::Failed, false, true, 1_000), LoopStep::Stop);
    assert_eq!(run_session_loop(SessionEnd::Failed, true, false, 1_000), LoopStep::Stop);
    assert_eq!(run_session_loop(SessionEnd::Cancelled, false, false, 1_000), LoopStep::Stop);
    assert_eq!(run_session_loop(SessionEnd::ReplayComplete, false, false, 1_000), LoopStep::Stop);
}

#[test]
fn control_requests() {
    assert_eq!(
        subscribe_body("A\"B\\\u{7}", TickKind::Trades),
        "{\"id\":1,\"jsonrpc\":\"2.0\",\"method\":\"DataService.Subscribe\",\"params\":{\"Action\":\"subscribe\",\"DataTypes\":[\"trades\"],\"Symbol\":\"A\\\"B\\\\\\u0007\"}}"
    );
    assert_eq!(subscribe_outcome("AAPL", TickKind::Quotes, None), Ok(()));
    assert_eq!(
        subscribe_outcome("AAPL", TickKind::Quotes, Some("{\"code\":1}".to_owned())),
        Err("MarketStore RPC Subscribe error for AAPL Quotes: {\"code\":1}".to_owned())
    );
    assert_eq!(TickKind::Trades.name(), "Trades");
}

#[test]
fn queries() {
    let q = query_request("X", Some(1_000_000_005), None, 9);
    assert_eq!((q.epoch_start, q.epoch_start_nanos), (1, 5));
    assert_eq!((q.epoch_end, q.epoch_end_nanos), (0, 0));
    assert_eq!(q.limit_record_count, 9);
    assert_eq!(trades_query("AAPL", None, None, 0).destination, "AAPL/1Sec/TRADE");
    assert_eq!(quotes_query("AAPL", None, None, 0).destination, "AAPL/1Sec/QUOTE");
    let bt = parse_bar_type("AAPL.V-1-HOUR-LAST-EXTERNAL").unwrap();
    assert_eq!(bars_query(&bt, None, Some(2_000_000_000), 3).unwrap().epoch_end, 2);
    let bt = parse_bar_type("AAPL.V-1-WEEK-LAST-EXTERNAL").unwrap();
    assert_eq!(
        bars_query(&bt, None, None, 3).unwrap_err(),
        "unsupported bar aggregation for MarketStore: Week"
    );
    // An instant past the signed range wraps, and is cut off towards zero.
    assert_eq!(split_epoch(Some(u64::MAX)), (0, -1));
    assert_eq!(split_epoch(Some((-1_500_000_000i64) as u64)), (-1, -500_000_000));
    assert_eq!(split_epoch(Some(1 << 63)), (-9_223_372_036, -854_775_808));
}

#[test]
fn query_results() {
    let some = || Some(NumpyMultiDataset { data: None });
    assert!(first_result(vec![some(), None], "D").is_ok());
    assert_eq!(first_result(vec![], "D").unwrap_err(), "empty MarketStore response for D");
    assert_eq!(
        first_result(vec![None, some()], "D").unwrap_err(),
        "empty MarketStore response for D"
    );
    assert_eq!(symbol_filter(&None), "");
    assert_eq!(symbol_filter(&Some("1Min".to_owned())), "1Min");
}

#[test]
fn limits_of_requests() {
    assert_eq!(request_limit(None), 0);
    assert_eq!(request_limit(Some(500)), 500);
    for n in [1u64 << 31, u64::MAX, (1 << 32) + 7, (1 << 31) - 1] {
        assert_eq!(request_limit(Some(n)), n as i32);
    }
}

#[test]
fn configured_equities() {
    let equities = instruments_from_config(&config());
    assert_eq!(equities.len(), 3);
    assert_eq!(equities[0].symbol, "AAPL");
    assert_eq!(equities[0].venue, "MARKETSTORE");
    assert_eq!(equities[0].lot_size, 1);
    assert_eq!(equities[0].currency, "USD");
    assert_eq!(equities[0].price_increment, Fixed { raw: 1_000_000_000_000, precision: 4 });
    assert_eq!(equities[2].price_increment, Fixed { raw: 10_000_000_000_000_000, precision: 0 });
    assert_eq!(equities[2].lot_size, 100);
    for precision in 0..=16u8 {
        let spec = InstrumentSpec::new("A".to_owned(), precision, 0, 1);
        let ours = equity_from_spec(&spec, "V").price_increment;
        let theirs = Price::new(10f64.powi(-(precision as i32)), precision);
        assert_eq!(ours.raw, theirs.raw, "{precision}");
    }
    assert_eq!(config().precision_for("AAPL"), (4, 1));
    assert_eq!(config().precision_for("TSLA"), (2, 0));
}

#[test]
fn names_of_the_data_client() {
    let factory = MarketStoreDataClientFactory::new();
    assert_eq!(factory.name(), MARKETSTORE);
    assert_eq!(MarketStoreDataClientFactory::default().config_type(), "MarketStoreDataClientConfig");
    assert_eq!(MARKETSTORE_CLIENT_ID, "MARKETSTORE");
}
