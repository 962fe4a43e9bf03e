//! Decoding of queries and of rows of the live stream.

use broker_feeds::marketstore::decode::{
    check_columns_consistent, decode_raw_bars, decode_raw_quotes, decode_raw_trades,
    normalize_dtype, read_f64, read_i64, read_strings, synth_trade_id, to_stamp,
    try_decode_raw_bars, try_decode_raw_quotes, try_decode_raw_trades, Column, Number,
    NumpyDataset, NumpyMultiDataset, RawBars,
};
use broker_feeds::marketstore::rows::{
    bar_from_ws_row, quote_from_ws_row, trade_from_ws_row, ws_field, Field, Num, StreamPayload,
    Value,
};
use nautilus_model::types::{Price, Quantity};

fn number(n: Number) -> f64 {
    match n {
        Number::F4(bits) => f32::from_bits(bits) as f64,
        Number::F8(bits) => f64::from_bits(bits),
        Number::I8(v) => v as f64,
        Number::I4(v) => v as f64,
        Number::U8(v) => v as f64,
        Number::U4(v) => v as f64,
    }
}

fn price(n: Number, precision: u8) -> f64 {
    Price::new(number(n), precision).as_f64()
}

fn size(n: Number) -> f64 {
    Quantity::new(number(n), 0).as_f64()
}

fn numbers(v: &[Number]) -> Vec<f64> {
    v.iter().map(|n| number(*n)).collect()
}

fn col_bytes_i64(vals: &[i64]) -> Vec<u8> {
    vals.iter().flat_map(|v| v.to_le_bytes()).collect()
}

fn col_bytes_f32(vals: &[f32]) -> Vec<u8> {
    vals.iter().flat_map(|v| v.to_le_bytes()).collect()
}

fn col_bytes_f64(vals: &[f64]) -> Vec<u8> {
    vals.iter().flat_map(|v| v.to_le_bytes()).collect()
}

fn col_bytes_u64(vals: &[u64]) -> Vec<u8> {
    vals.iter().flat_map(|v| v.to_le_bytes()).collect()
}

fn dataset(columns: Vec<(&str, &str, Vec<u8>)>, length: i32) -> NumpyMultiDataset {
    let mut ds = NumpyDataset {
        column_types: Vec::new(),
        column_names: Vec::new(),
        column_data: Vec::new(),
        length,
    };
    for (name, dtype, data) in columns {
        ds.column_names.push(name.to_owned());
        ds.column_types.push(dtype.to_owned());
        ds.column_data.push(data);
    }
    NumpyMultiDataset { data: Some(ds) }
}

fn field(name: &str, value: Value) -> Field {
    Field { name: name.to_owned(), value }
}

fn whole(v: i64) -> Value {
    Value::Int(v)
}

fn float(v: f64) -> Value {
    Value::Float(v.to_bits())
}

#[test]
fn decodes_ohlcv_columns() {
    let epochs = [1_781_827_020_i64, 1_781_827_080, 1_781_827_140];
    let ds = dataset(
        vec![
            ("Epoch", "<i8", col_bytes_i64(&epochs)),
            ("Open", "<f4", col_bytes_f32(&[297.20, 297.29, 297.27])),
            ("High", "<f4", col_bytes_f32(&[297.21, 297.30, 297.27])),
            ("Low", "<f4", col_bytes_f32(&[297.20, 297.21, 297.20])),
            ("Close", "<f4", col_bytes_f32(&[297.21, 297.21, 297.23])),
            ("Volume", "<i8", col_bytes_i64(&[1063, 424, 699])),
        ],
        3,
    );
    let bars = decode_raw_bars(&ds, 60_000_000_000).unwrap();
    assert_eq!(bars.len(), 3);
    assert!(!bars.is_empty());
    assert_eq!(price(bars.open[0], 2), 297.20);
    assert_eq!(price(bars.close[0], 2), 297.21);
    assert_eq!(size(bars.volume[0]), 1063.0);
    assert_eq!(bars.ts_event[0], 1_781_827_020 * 1_000_000_000);
    assert_eq!(bars.ts_init[0], 1_781_827_020 * 1_000_000_000 + 60_000_000_000);
    assert!(bars.ts_init[0] <= bars.ts_init[1]);
    assert!(bars.ts_init[1] <= bars.ts_init[2]);
}

#[test]
fn decodes_ws_row_to_bar() {
    let row = vec![
        field("Epoch", whole(1_781_827_020)),
        field("Open", float(297.20)),
        field("High", float(297.29)),
        field("Low", float(297.20)),
        field("Close", float(297.21)),
        field("Volume", whole(1063)),
    ];
    let bar = bar_from_ws_row(&row, 60_000_000_000).unwrap().unwrap();
    assert_eq!(price(bar.open, 2), 297.20);
    assert_eq!(price(bar.close, 2), 297.21);
    assert_eq!(size(bar.volume), 1063.0);
    assert_eq!(bar.ts_event, 1_781_827_020 * 1_000_000_000);
    assert_eq!(bar.ts_init, 1_781_827_020 * 1_000_000_000 + 60_000_000_000);
}

#[test]
fn ws_row_missing_field_errors() {
    let row = vec![field("Epoch", whole(1)), field("Open", float(1.0))];
    assert!(bar_from_ws_row(&row, 60_000_000_000).is_err());
}

#[test]
fn decodes_live_enveloped_lowercase_bar_row() {
    let payload = vec![
        field("epoch", whole(1_783_712_700)),
        field("open", float(3.915)),
        field("high", float(3.915)),
        field("low", float(3.910)),
        field("close", float(3.9101)),
        field("volume", whole(10174)),
        field("symbol", Value::Str("GRAB".into())),
    ];
    let data = vec![
        field("msg_type", Value::Str("bar".into())),
        field("payload", Value::Nested(payload)),
    ];
    let frame = StreamPayload { key: "GRAB.MARKETSTORE".to_string(), data };
    let bar = bar_from_ws_row(frame.row(), 60_000_000_000).unwrap().unwrap();
    assert_eq!(price(bar.open, 4), 3.915);
    assert_eq!(price(bar.close, 4), 3.9101);
    assert_eq!(size(bar.volume), 10174.0);
    assert_eq!(bar.ts_event, 1_783_712_700 * 1_000_000_000);
}

#[test]
fn stream_payload_row_passes_through_flat_form() {
    let data = vec![field("Epoch", whole(1)), field("Open", float(1.0))];
    let frame = StreamPayload { key: "X".into(), data };
    assert!(frame.row().iter().any(|f| f.name == "Epoch"));
}

#[test]
fn decodes_trade_columns() {
    let ds = dataset(
        vec![
            ("Epoch", "<i8", col_bytes_i64(&[1_781_827_020, 1_781_827_020])),
            (
                "Nanoseconds",
                "<i4",
                [500_000_000i32.to_le_bytes().to_vec(), 0i32.to_le_bytes().to_vec()].concat(),
            ),
            ("Price", "<f8", col_bytes_f64(&[297.21, 297.22])),
            ("Size", "<u8", col_bytes_u64(&[100, 250])),
        ],
        2,
    );
    let raw = decode_raw_trades(&ds).unwrap();
    assert_eq!(raw.len(), 2);
    assert_eq!(price(raw.price[0], 2), 297.21);
    assert_eq!(size(raw.size[0]), 100.0);
    assert_eq!(numbers(&raw.price), vec![297.21, 297.22]);
    assert_eq!(numbers(&raw.size), vec![100.0, 250.0]);
    assert_eq!(raw.ts_event[0], 1_781_827_020 * 1_000_000_000 + 500_000_000);
    assert!(raw.trade_id.iter().all(|id| !id.is_empty()));
    assert_eq!(raw.trade_id[0], "1781827020500000000-0");
    assert_eq!(raw.trade_id[1], "1781827020000000000-1");
    assert!(!raw.is_empty());
}

#[test]
fn decodes_ws_row_to_trade_with_real_id() {
    let row = vec![
        field("Epoch", whole(1_781_827_020)),
        field("Nanoseconds", whole(250_000_000)),
        field("Price", float(297.21)),
        field("Size", whole(100)),
        field("TradeID", Value::Str("X12345".into())),
    ];
    let t = trade_from_ws_row(&row).unwrap().unwrap();
    assert_eq!(price(t.price, 2), 297.21);
    assert_eq!(size(t.size), 100.0);
    assert_eq!(t.trade_id, "X12345");
    assert_eq!(t.ts_event, 1_781_827_020 * 1_000_000_000 + 250_000_000);
}

#[test]
fn decodes_quote_columns() {
    let ds = dataset(
        vec![
            ("Epoch", "<i8", col_bytes_i64(&[1_781_827_020])),
            ("Nanoseconds", "<i4", 0i32.to_le_bytes().to_vec()),
            ("BidPrice", "<f8", col_bytes_f64(&[297.20])),
            ("AskPrice", "<f8", col_bytes_f64(&[297.23])),
            ("BidSize", "<u8", col_bytes_u64(&[3])),
            ("AskSize", "<u8", col_bytes_u64(&[5])),
        ],
        1,
    );
    let raw = decode_raw_quotes(&ds).unwrap();
    assert_eq!(raw.len(), 1);
    assert_eq!(price(raw.bid_price[0], 2), 297.20);
    assert_eq!(price(raw.ask_price[0], 2), 297.23);
    assert_eq!(numbers(&raw.bid_price), vec![297.20]);
    assert_eq!(numbers(&raw.ask_price), vec![297.23]);
    assert_eq!(numbers(&raw.bid_size), vec![3.0]);
    assert_eq!(numbers(&raw.ask_size), vec![5.0]);
    assert_eq!(raw.ts_event, vec![1_781_827_020 * 1_000_000_000]);
    assert!(!raw.is_empty());
}

#[test]
fn decodes_ws_row_to_quote() {
    let row = vec![
        field("Epoch", whole(1_781_827_020)),
        field("BidPrice", float(297.20)),
        field("AskPrice", float(297.23)),
        field("BidSize", whole(3)),
        field("AskSize", whole(5)),
    ];
    let q = quote_from_ws_row(&row).unwrap().unwrap();
    assert_eq!(price(q.bid_price, 2), 297.20);
    assert_eq!(price(q.ask_price, 2), 297.23);
    assert_eq!(q.ts_event, 1_781_827_020 * 1_000_000_000);
}

#[test]
fn empty_dataset_yields_no_bars() {
    let ds = NumpyMultiDataset { data: None };
    assert!(decode_raw_bars(&ds, 60_000_000_000).unwrap().is_empty());
}

#[test]
fn wrong_byte_length_errors() {
    let columns: Vec<(&str, &str, Vec<u8>)> = ["Epoch", "Open", "High", "Low", "Close", "Volume"]
        .into_iter()
        .map(|name| (name, "<i8", vec![0u8; 3]))
        .collect();
    let ds = dataset(columns, 1);
    assert!(decode_raw_bars(&ds, 60_000_000_000).is_err());
}

#[test]
fn decoding_errors() {
    let eight = || vec![0u8; 8];
    let short = dataset(vec![("Epoch", "<i8", vec![0u8; 3])], 1);
    assert_eq!(
        decode_raw_bars(&short, 0).unwrap_err(),
        "column Epoch expected 8 bytes (1 x 8), got 3"
    );
    let missing = dataset(vec![("Open", "<i8", eight())], 1);
    assert_eq!(decode_raw_bars(&missing, 0).unwrap_err(), "missing Epoch column");
    let missing = dataset(vec![("Epoch", "<i8", eight())], 1);
    assert_eq!(decode_raw_bars(&missing, 0).unwrap_err(), "missing Open column");
    assert_eq!(decode_raw_trades(&missing).unwrap_err(), "missing Price column");
    assert_eq!(decode_raw_quotes(&missing).unwrap_err(), "missing BidPrice column");
    let odd = dataset(vec![("Epoch", "<f8", eight())], 1);
    assert_eq!(
        decode_raw_quotes(&odd).unwrap_err(),
        "column Epoch has unexpected int dtype f8"
    );
    let odd = dataset(vec![("Epoch", "i8", eight()), ("Price", "S16", eight())], 1);
    assert_eq!(
        decode_raw_trades(&odd).unwrap_err(),
        "column Price has unexpected numeric dtype s16"
    );
    let mut torn = dataset(vec![("Epoch", "i8", eight())], 1);
    torn.data.as_mut().unwrap().column_types.clear();
    assert_eq!(
        decode_raw_trades(&torn).unwrap_err(),
        "inconsistent NumpyDataset: 1 names, 0 types, 1 data columns"
    );
    assert!(check_columns_consistent(torn.data.as_ref().unwrap()).is_err());
}

fn runes(s: &str) -> Vec<u8> {
    let mut out: Vec<u8> = s.chars().flat_map(|c| (c as u32).to_le_bytes()).collect();
    out.resize(64, 0);
    out
}

fn trades_with_ids(dtype: &str, ids: Vec<u8>) -> NumpyMultiDataset {
    dataset(
        vec![
            ("Epoch", "<i8", col_bytes_i64(&[1])),
            ("Price", "<f8", col_bytes_f64(&[1.0])),
            ("Size", "<u4", 7u32.to_le_bytes().to_vec()),
            ("TradeID", dtype, ids),
        ],
        1,
    )
}

#[test]
fn stored_trade_ids() {
    let raw = decode_raw_trades(&trades_with_ids("string16", runes("Añ12"))).unwrap();
    assert_eq!(raw.trade_id, ["Añ12"]);
    assert_eq!(numbers(&raw.size), [7.0]);
    // A code that is no character is left out, and the first zero ends the text.
    let mut bytes = runes("abcd");
    bytes[4..8].copy_from_slice(&0xD800u32.to_le_bytes());
    bytes[12..16].copy_from_slice(&0u32.to_le_bytes());
    let raw = decode_raw_trades(&trades_with_ids("<U16", bytes)).unwrap();
    assert_eq!(raw.trade_id, ["ac"]);
    assert_eq!(
        decode_raw_trades(&trades_with_ids("f8", runes("x"))).unwrap_err(),
        "column TradeID has unexpected string dtype f8"
    );
    assert_eq!(
        decode_raw_trades(&trades_with_ids("S16", vec![0u8; 3])).unwrap_err(),
        "string column TradeID expected 64 bytes (1 x 64), got 3"
    );
}

#[test]
fn numbers_of_every_type() {
    let ds = dataset(
        vec![
            ("Epoch", ">I4", (-1i32).to_le_bytes().to_vec()),
            ("BidPrice", "f4", 1.5f32.to_le_bytes().to_vec()),
            ("AskPrice", "=f8", 2.5f64.to_le_bytes().to_vec()),
            ("BidSize", "|i4", (-3i32).to_le_bytes().to_vec()),
            ("AskSize", "u8", u64::MAX.to_le_bytes().to_vec()),
        ],
        1,
    );
    let raw = decode_raw_quotes(&ds).unwrap();
    assert_eq!(raw.ts_event, [(-1_000_000_000i64) as u64]);
    assert_eq!(raw.bid_price, [Number::F4(1.5f32.to_bits())]);
    assert_eq!(raw.ask_price, [Number::F8(2.5f64.to_bits())]);
    assert_eq!(raw.bid_size, [Number::I4(-3)]);
    assert_eq!(raw.ask_size, [Number::U8(u64::MAX)]);
    assert_eq!(normalize_dtype("<=>|F4"), "f4");
    assert_eq!(normalize_dtype("f<4"), "f<4");
}

#[test]
fn times_that_do_not_fit() {
    assert_eq!(to_stamp(1, 5), Some(1_000_000_005));
    assert_eq!(to_stamp(i64::MAX, 0), None);
    assert_eq!(to_stamp(9_223_372_036, i64::MAX), None);
    assert_eq!(to_stamp(-1, 0), Some((-1_000_000_000i64) as u64));
    let far = dataset(
        vec![
            ("Epoch", "i8", col_bytes_i64(&[i64::MAX])),
            ("Open", "i8", col_bytes_i64(&[1])),
            ("High", "i8", col_bytes_i64(&[1])),
            ("Low", "i8", col_bytes_i64(&[1])),
            ("Close", "i8", col_bytes_i64(&[1])),
            ("Volume", "i8", col_bytes_i64(&[1])),
            ("Price", "i8", col_bytes_i64(&[1])),
            ("Size", "i8", col_bytes_i64(&[1])),
            ("BidPrice", "i8", col_bytes_i64(&[1])),
            ("AskPrice", "i8", col_bytes_i64(&[1])),
            ("BidSize", "i8", col_bytes_i64(&[1])),
            ("AskSize", "i8", col_bytes_i64(&[1])),
        ],
        1,
    );
    assert!(try_decode_raw_bars(&far, 0).unwrap().is_none());
    assert!(try_decode_raw_trades(&far).unwrap().is_none());
    assert!(try_decode_raw_quotes(&far).unwrap().is_none());
    assert!(far.has_valid_length());
    assert!(!dataset(vec![], -1).has_valid_length());
    let none = decode_raw_trades(&dataset(vec![], 0)).unwrap();
    assert!(none.is_empty());
    assert_eq!(RawBars::default().len(), 0);
}

#[test]
fn made_up_trade_ids() {
    assert_eq!(synth_trade_id(5, 3), "5-3");
    assert_eq!(synth_trade_id(u64::MAX, 0), "18446744073709551615-0");
    let row = vec![field("epoch", whole(2)), field("PRICE", whole(1)), field("size", whole(1))];
    assert_eq!(trade_from_ws_row(&row).unwrap().unwrap().trade_id, "2000000000-0");
}

#[test]
fn row_errors() {
    let row = vec![field("Epoch", Value::Str("x".to_owned()))];
    assert_eq!(bar_from_ws_row(&row, 0).unwrap_err(), "missing/invalid Epoch in WS row");
    let row = vec![field("Epoch", whole(1))];
    assert_eq!(bar_from_ws_row(&row, 0).unwrap_err(), "missing/invalid Open in WS row");
    assert_eq!(trade_from_ws_row(&row).unwrap_err(), "missing/invalid Price in WS trade row");
    assert_eq!(quote_from_ws_row(&row).unwrap_err(), "missing/invalid BidPrice in WS quote row");
    let row = vec![field("Epoch", whole(1)), field("Price", whole(1))];
    assert_eq!(trade_from_ws_row(&row).unwrap_err(), "missing/invalid Size in WS trade row");
}

#[test]
fn an_exact_name_comes_first() {
    let row = vec![field("open", whole(1)), field("Open", whole(2)), field("OPEN", whole(3))];
    assert!(matches!(ws_field(&row, "Open"), Some(Value::Int(2))));
    assert!(matches!(ws_field(&row, "oPEN"), Some(Value::Int(1))));
    assert!(ws_field(&row, "close").is_none());
    assert_eq!(Value::Str("a".to_owned()).as_str(), Some("a"));
    assert_eq!(whole(1).as_str(), None);
    assert_eq!(Value::Nested(vec![]).as_num(), None);
}

#[test]
fn whole_numbers_through_double_precision() {
    for v in [
        0i64,
        1,
        -1,
        i64::MAX,
        i64::MIN,
        (1 << 53) + 1,
        (1 << 53) + 3,
        -(1 << 53) - 1,
        (1 << 62) + 511,
        (1 << 62) + 512,
        (1 << 62) + 513,
        i64::MAX - 511,
        i64::MAX - 512,
    ] {
        assert_eq!(Num::Int(v).as_i64(), (v as f64) as i64, "{v}");
    }
    for x in [
        0.0f64,
        -0.0,
        0.99,
        -0.99,
        1.5,
        -1.5,
        1e9,
        4503599627370495.5,
        9007199254740993.0,
        -9.3e18,
        9.3e18,
        9.2e18,
        1e300,
        -1e300,
        f64::INFINITY,
        f64::NEG_INFINITY,
        f64::NAN,
        5e-324,
    ] {
        assert_eq!(Num::Float(x.to_bits()).as_i64(), x as i64, "{x}");
    }
}

#[test]
fn live_and_stored_bars_have_the_same_times() {
    let flat = col_bytes_f32(&[1.0, 1.0]);
    let ds = dataset(
        vec![
            ("Epoch", "<i8", col_bytes_i64(&[1_781_827_020, 1_781_827_020])),
            ("Open", "<f4", flat.clone()),
            ("High", "<f4", flat.clone()),
            ("Low", "<f4", flat.clone()),
            ("Close", "<f4", flat.clone()),
            ("Volume", "<i8", col_bytes_i64(&[1, 1])),
            ("Nanoseconds", "<i8", col_bytes_i64(&[5, 999_999_999])),
        ],
        2,
    );
    let stored = decode_raw_bars(&ds, 60_000_000_000).unwrap();
    for (i, nanos) in [5, 999_999_999].into_iter().enumerate() {
        let row = vec![
            field("Epoch", whole(1_781_827_020)),
            field("Nanoseconds", whole(nanos)),
            field("Open", float(1.0)),
            field("High", float(1.0)),
            field("Low", float(1.0)),
            field("Close", float(1.0)),
            field("Volume", whole(1)),
        ];
        let live = bar_from_ws_row(&row, 60_000_000_000).unwrap().unwrap();
        assert_eq!(live.ts_event, stored.ts_event[i]);
        assert_eq!(live.ts_init, stored.ts_init[i]);
    }
    assert!(stored.ts_event[0] < stored.ts_event[1]);
    assert!(stored.ts_init[0] < stored.ts_init[1]);
}

#[test]
fn text_columns_read_back() {
    let ids = ["", "a", "ABCDEFGHIJKLMNOP", "é\u{d7ff}\u{e000}\u{10ffff}", "two words"];
    let rows = ids.len();
    for dtype in ["string16", "<U16", ">|S16"] {
        let ds = dataset(
            vec![
                ("Epoch", "<i8", col_bytes_i64(&vec![1; rows])),
                ("Price", "<f8", col_bytes_f64(&vec![1.0; rows])),
                ("Size", "<u8", col_bytes_u64(&vec![1; rows])),
                ("TradeID", dtype, ids.iter().flat_map(|s| runes(s)).collect()),
            ],
            rows as i32,
        );
        let raw = decode_raw_trades(&ds).unwrap();
        for (read, id) in raw.trade_id.iter().zip(ids) {
            assert_eq!(read, id);
        }
    }
}

fn quotes_at(epoch: (&str, Vec<u8>), nanos: (&str, Vec<u8>), rows: i32) -> NumpyMultiDataset {
    let ones = vec![1.0; rows as usize];
    dataset(
        vec![
            ("Epoch", epoch.0, epoch.1),
            ("Nanoseconds", nanos.0, nanos.1),
            ("BidPrice", "<f8", col_bytes_f64(&ones)),
            ("AskPrice", "<f8", col_bytes_f64(&ones)),
            ("BidSize", "<f8", col_bytes_f64(&ones)),
            ("AskSize", "<f8", col_bytes_f64(&ones)),
        ],
        rows,
    )
}

#[test]
fn whole_number_columns_read_back() {
    let narrow = |v: &[i32]| -> Vec<u8> { v.iter().flat_map(|x| x.to_le_bytes()).collect() };
    let expected = vec![1_999_999_998_u64, 2_147_483_647_000_000_000, 256_000_000_255];
    let seconds = [2_i32, i32::MAX, 256];
    let nanos = [-2_i32, 0, 255];
    let wide_seconds: Vec<i64> = seconds.iter().map(|x| i64::from(*x)).collect();
    let wide_nanos: Vec<i64> = nanos.iter().map(|x| i64::from(*x)).collect();
    for (epoch, nano) in [
        (("<i4", narrow(&seconds)), ("<i4", narrow(&nanos))),
        (("<i8", col_bytes_i64(&wide_seconds)), ("<i8", col_bytes_i64(&wide_nanos))),
        (("I4", narrow(&seconds)), (">i8", col_bytes_i64(&wide_nanos))),
    ] {
        let raw = try_decode_raw_quotes(&quotes_at(epoch, nano, 3)).unwrap().unwrap();
        assert_eq!(raw.ts_event, expected);
    }
    for dtype in ["<u8", "<f8", "i2", ""] {
        let ds = quotes_at((dtype, col_bytes_i64(&[1, 2, 3])), ("<i4", narrow(&nanos)), 3);
        assert!(try_decode_raw_quotes(&ds).is_err());
    }
}

#[test]
fn single_columns_read_back() {
    let wide = [0_i64, 1, -1, 256, i64::MAX, i64::MIN, -4_294_967_297];
    let data = col_bytes_i64(&wide);
    let column = Column { name: "Epoch", dtype: "<i8", data: &data };
    assert_eq!(read_i64(&column, wide.len()).unwrap(), wide);
    let narrow = [0_i32, 1, -1, 65_536, i32::MAX, i32::MIN];
    let data: Vec<u8> = narrow.iter().flat_map(|x| x.to_le_bytes()).collect();
    let column = Column { name: "Nanoseconds", dtype: "<i4", data: &data };
    assert_eq!(read_i64(&column, narrow.len()).unwrap(), narrow.map(i64::from));
    assert_eq!(
        read_f64(&column, narrow.len()).unwrap(),
        narrow.map(Number::I4)
    );
    assert_eq!(
        read_i64(&column, 1).unwrap_err(),
        "column Nanoseconds expected 4 bytes (1 x 4), got 24"
    );
    for dtype in ["<u8", "<f8", "<u4", "i2", ""] {
        let column = Column { name: "X", dtype, data: &data };
        assert!(read_i64(&column, 3).is_err());
        assert!(read_i64(&column, 0).is_err());
    }
    let texts = ["", "a", "0123456789abcdef", "é\u{10ffff}"];
    let data: Vec<u8> = texts.iter().flat_map(|s| runes(s)).collect();
    let column = Column { name: "TradeID", dtype: "string16", data: &data };
    assert_eq!(read_strings(&column, texts.len()).unwrap(), texts);
    assert!(read_strings(&column, texts.len() + 1).is_err());
    let column = Column { dtype: "<i8", ..column };
    assert_eq!(
        read_strings(&column, texts.len()).unwrap_err(),
        "column TradeID has unexpected string dtype <i8"
    );
}
