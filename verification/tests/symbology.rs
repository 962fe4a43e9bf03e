//! Keys of the store's time series.

use broker_feeds::marketstore::symbology::{
    aggregation_suffix, bar_interval_ns, bar_type_to_tbk, parse_bar_type, quote_tbk,
    tbk_matches_pattern, tbk_to_bar_type, trade_tbk, BarAggregation, BarType,
};

#[test]
fn minute_bar_to_tbk() {
    let bt = parse_bar_type("AAPL.MARKETSTORE-1-MINUTE-LAST-EXTERNAL").unwrap();
    assert_eq!(bar_type_to_tbk(&bt).unwrap(), "AAPL/1Min/OHLCV");
}

#[test]
fn multi_step_and_units() {
    let cases = [
        ("SPY.MARKETSTORE-5-MINUTE-LAST-EXTERNAL", "SPY/5Min/OHLCV"),
        ("MSFT.MARKETSTORE-1-HOUR-LAST-EXTERNAL", "MSFT/1H/OHLCV"),
        ("QQQ.MARKETSTORE-1-DAY-LAST-EXTERNAL", "QQQ/1D/OHLCV"),
        ("X.MARKETSTORE-30-SECOND-LAST-EXTERNAL", "X/30Sec/OHLCV"),
    ];
    for (input, expected) in cases {
        let bt = parse_bar_type(input).unwrap();
        assert_eq!(bar_type_to_tbk(&bt).unwrap(), expected, "for {input}");
    }
}

#[test]
fn rejects_non_time_aggregation() {
    let bt = parse_bar_type("AAPL.MARKETSTORE-100-TICK-LAST-EXTERNAL").unwrap();
    assert!(bar_type_to_tbk(&bt).is_err());
}

#[test]
fn trade_and_quote_tbks() {
    let id: nautilus_model::identifiers::InstrumentId = "AAPL.NASDAQ".parse().unwrap();
    assert_eq!(trade_tbk(id.symbol.as_str()), "AAPL/1Sec/TRADE");
    assert_eq!(quote_tbk(id.symbol.as_str()), "AAPL/1Sec/QUOTE");
}

#[test]
fn tbk_to_bar_type_roundtrips() {
    let bt = tbk_to_bar_type("AAPL/1Min/OHLCV", "MARKETSTORE").unwrap();
    assert_eq!(bar_type_to_tbk(&bt).unwrap(), "AAPL/1Min/OHLCV");
    let expected = parse_bar_type("AAPL.MARKETSTORE-1-MINUTE-LAST-EXTERNAL").unwrap();
    assert_eq!(bt.text, expected.text);
    assert_eq!(bt.symbol, expected.symbol);
    assert_eq!(bt.venue, expected.venue);
    assert_eq!(bt.step, expected.step);
    assert_eq!(bt.aggregation, expected.aggregation);
    for (tbk, unit_check) in [
        ("SPY/5Min/OHLCV", "5-MINUTE"),
        ("MSFT/1H/OHLCV", "1-HOUR"),
        ("QQQ/1D/OHLCV", "1-DAY"),
    ] {
        let bt = tbk_to_bar_type(tbk, "NASDAQ").unwrap();
        assert!(bt.text.contains(unit_check), "{tbk}");
        assert_eq!(bar_type_to_tbk(&bt).unwrap(), tbk);
    }
    assert!(tbk_to_bar_type("AAPL/1Sec/QUOTE", "NASDAQ").is_err());
}

#[test]
fn glob_pattern_matching() {
    assert!(tbk_matches_pattern("AAPL/1Min/OHLCV", "*/1Min/OHLCV"));
    assert!(tbk_matches_pattern("ZZZ/1Min/OHLCV", "*/1Min/OHLCV"));
    assert!(!tbk_matches_pattern("AAPL/5Min/OHLCV", "*/1Min/OHLCV"));
    assert!(!tbk_matches_pattern("AAPL/1Sec/QUOTE", "*/1Min/OHLCV"));
    assert!(tbk_matches_pattern("AAPL/1Min/OHLCV", "*/*/*"));
}

#[test]
fn keys_that_are_not_of_bars() {
    let error = |key: &str| tbk_to_bar_type(key, "V").unwrap_err();
    assert_eq!(error("AAPL/1Min"), "malformed TBK: AAPL/1Min");
    assert_eq!(error("A/B/C/D"), "malformed TBK: A/B/C/D");
    assert_eq!(error("AAPL/1Sec/QUOTE"), "not a bar TBK (attrgroup QUOTE): AAPL/1Sec/QUOTE");
    assert_eq!(error("AAPL/15/OHLCV"), "no unit in timeframe 15");
    assert_eq!(error("AAPL/1W/OHLCV"), "unsupported TBK timeframe unit: W");
    assert_eq!(error("AAPL/1é/OHLCV"), "unsupported TBK timeframe unit: é");
    assert_eq!(error("AAPL/Min/OHLCV"), "bad step ");
    assert_eq!(error("AAPL/-1Min/OHLCV"), "bad step -1");
    assert_eq!(error("AAPL/4294967296Min/OHLCV"), "bad step 4294967296");
    let text = error("AAPL/0Min/OHLCV");
    assert!(text.starts_with("bar type AAPL.V-0-MINUTE-LAST-EXTERNAL: "), "{text}");
}

#[test]
fn steps_may_have_a_sign_and_leading_zeros() {
    let bt = tbk_to_bar_type("AAPL/+05Min/OHLCV", "V").unwrap();
    assert_eq!(bt.step, 5);
    assert_eq!(bt.text, "AAPL.V-5-MINUTE-LAST-EXTERNAL");
}

#[test]
fn patterns_match_part_by_part() {
    assert!(!tbk_matches_pattern("AAPL/1Min", "*/1Min/OHLCV"));
    assert!(!tbk_matches_pattern("AAPL/1Min/OHLCV", "*"));
    assert!(tbk_matches_pattern("", "*"));
    assert!(tbk_matches_pattern("A//B", "A//*"));
    assert!(!tbk_matches_pattern("AAPL/1Min/OHLCV", "AA*/1Min/OHLCV"));
}

#[test]
fn suffixes_and_unsupported_aggregations() {
    assert_eq!(aggregation_suffix(BarAggregation::Second), Ok("Sec"));
    assert_eq!(aggregation_suffix(BarAggregation::Minute), Ok("Min"));
    assert_eq!(aggregation_suffix(BarAggregation::Hour), Ok("H"));
    assert_eq!(aggregation_suffix(BarAggregation::Day), Ok("D"));
    assert_eq!(
        aggregation_suffix(BarAggregation::Week),
        Err("unsupported bar aggregation for MarketStore: Week".to_owned())
    );
}

fn interval(step: u64, aggregation: BarAggregation) -> Option<u64> {
    bar_interval_ns(&BarType {
        symbol: "A".to_owned(),
        venue: "V".to_owned(),
        step,
        aggregation,
        text: String::new(),
    })
}

#[test]
fn lengths_of_bars() {
    assert_eq!(interval(5, BarAggregation::Minute), Some(300_000_000_000));
    assert_eq!(interval(1, BarAggregation::Day), Some(86_400_000_000_000));
    assert_eq!(interval(2, BarAggregation::Month), Some(5_184_000_000_000_000));
    assert_eq!(interval(100, BarAggregation::Tick), None);
    assert_eq!(interval(u64::MAX, BarAggregation::Second), None);
    for text in [
        "A.V-250-MILLISECOND-LAST-EXTERNAL",
        "A.V-30-SECOND-LAST-EXTERNAL",
        "A.V-15-MINUTE-LAST-EXTERNAL",
        "A.V-4-HOUR-LAST-EXTERNAL",
        "A.V-1-DAY-LAST-EXTERNAL",
        "A.V-1-WEEK-LAST-EXTERNAL",
        "A.V-3-MONTH-LAST-EXTERNAL",
        "A.V-1-YEAR-LAST-EXTERNAL",
    ] {
        let theirs: nautilus_model::data::BarType = text.parse().unwrap();
        let ours = parse_bar_type(text).unwrap();
        assert_eq!(
            bar_interval_ns(&ours),
            Some(nautilus_model::data::bar::get_bar_interval_ns(&theirs).as_u64()),
            "{text}"
        );
    }
}

#[test]
fn aggregations_by_number() {
    assert_eq!(BarAggregation::numbered(1), Some(BarAggregation::Tick));
    assert_eq!(BarAggregation::numbered(0), None);
    assert_eq!(BarAggregation::numbered(19), None);
    let bt = parse_bar_type("AAPL.NASDAQ-10-RENKO-LAST-EXTERNAL").unwrap();
    assert_eq!(bt.aggregation, BarAggregation::Renko);
    assert_eq!(bt.aggregation.name(), "Renko");
    assert_eq!(bt.venue, "NASDAQ");
    assert!(parse_bar_type("nonsense").is_err());
}

#[test]
fn names_with_blanks_and_dashes_read_back() {
    for (key, venue, symbol, text) in [
        ("BRK B/1Min/OHLCV", "X Y", "BRK B", "BRK B.X Y-1-MINUTE-LAST-EXTERNAL"),
        ("BF-B/4H/OHLCV", "A-B", "BF-B", "BF-B.A-B-4-HOUR-LAST-EXTERNAL"),
        ("BRK.B/1D/OHLCV", "NYSE", "BRK.B", "BRK.B.NYSE-1-DAY-LAST-EXTERNAL"),
        (" é /30Sec/OHLCV", "\tV", " é ", " é .\tV-30-SECOND-LAST-EXTERNAL"),
    ] {
        let bt = tbk_to_bar_type(key, venue).unwrap();
        assert_eq!(bt.symbol, symbol);
        assert_eq!(bt.venue, venue);
        assert_eq!(bt.text, text);
        assert_eq!(bar_type_to_tbk(&bt).unwrap(), key);
    }
    for (key, venue) in [
        (" /1Min/OHLCV", "V"),
        ("/1Min/OHLCV", "V"),
        ("A/1Min/OHLCV", " "),
        ("A/1Min/OHLCV", "é"),
        ("A/7Min/OHLCV", "V"),
    ] {
        assert!(tbk_to_bar_type(key, venue).is_err(), "{key} {venue}");
    }
}
