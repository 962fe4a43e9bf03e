//! Decimal numbers and texts.

use broker_feeds::decimal::Dec;
use broker_feeds::model::Money;
use broker_feeds::text::{
    bool_text, chars_of, copy_text, nat_text, parse_u32, same_text, split_text, trim,
};

fn dec(s: &str) -> Dec {
    Dec::parse(s).unwrap()
}

#[test]
fn sums_and_differences_keep_the_finer_scale() {
    assert_eq!(dec("1.5").checked_add(dec("2.25")), Some(dec("3.75")));
    assert_eq!(dec("1.5").checked_add(dec("-1.50")), Some(dec("0.00")));
    assert_eq!(dec("0.000").checked_add(dec("7")), Some(dec("7")));
    assert_eq!(dec("7").checked_add(dec("0.000")), Some(dec("7")));
    assert_eq!(dec("1.5").checked_sub(dec("2.25")), Some(dec("-0.75")));
    assert_eq!(dec("0.0").checked_sub(dec("2.25")), Some(dec("-2.25")));
    assert_eq!(dec("2.25").checked_sub(dec("0")), Some(dec("2.25")));
    let max = dec("79228162514264337593543950335");
    assert_eq!(max.checked_add(dec("1")), None);
    assert_eq!(max.neg().checked_sub(dec("1")), None);
}

#[test]
fn products_and_quotients() {
    assert_eq!(dec("1.5").checked_mul(dec("2.25")), Some(dec("3.375")));
    assert_eq!(dec("0.00").checked_mul(dec("2.25")), Some(dec("0")));
    assert_eq!(dec("79228162514264337593543950335").checked_mul(dec("2")), None);
    assert_eq!(dec("1").checked_div(dec("4")), Some(dec("0.25")));
    assert_eq!(dec("1").checked_div(dec("0")), None);
    assert_eq!(dec("0.0").checked_div(dec("4")), Some(dec("0")));
    assert_eq!(dec("1").checked_div(dec("3")).unwrap().place_count(), 28);
}

#[test]
fn order_does_not_depend_on_scale() {
    assert!(dec("1.49").less_than(dec("1.5")));
    assert!(!dec("1.50").less_than(dec("1.5")));
    assert!(!dec("1.5").less_than(dec("1.50")));
    assert!(dec("-2").less_than(dec("-1.99")));
    assert!(dec("0.01").is_positive() && !dec("0.00").is_positive());
    assert!(dec("-0.01").is_negative());
}

#[test]
fn texts_and_parts() {
    assert_eq!(dec("-1.050").text(), "-1.050");
    assert_eq!(dec("0.05").text(), "0.05");
    assert_eq!(dec("12").text_tenths(), "12.0");
    assert_eq!(dec("-0.49").text_tenths(), "-0.4");
    assert_eq!(dec("66.66").text_tenths(), "66.6");
    assert_eq!(Dec::new(-1050, 3), Some(dec("-1.050")));
    assert_eq!(Dec::new(1, 29), None);
    assert_eq!(Dec::new(79_228_162_514_264_337_593_543_950_336, 0), None);
    assert_eq!(dec("-1.050").unit_count(), -1050);
    assert_eq!(dec("-1.050").abs(), dec("1.050"));
    assert!(Dec::parse("abc").is_none());
    assert!(Dec::try_parse("").is_err());
    for s in [
        "0",
        "1",
        "-1",
        "0.1",
        "123456789.987654321",
        "79228162514264337593543950335",
        "7.9228162514264337593543950335",
        "0.0000000000000000000000000001",
    ] {
        assert_eq!(dec(s).text(), s);
    }
}

#[test]
fn trailing_zeros_and_rounding() {
    assert_eq!(dec("1.500").normalize(), dec("1.5"));
    assert_eq!(dec("100").normalize(), dec("100"));
    assert_eq!(dec("0.000").normalize(), dec("0"));
    assert!(dec("1.500").decimals_within(1));
    assert!(!dec("1.500").decimals_within(0));
    assert_eq!(dec("2.5").round_to(0), dec("2"));
    assert_eq!(dec("3.5").round_to(0), dec("4"));
    assert_eq!(dec("-2.51").round_to(0), dec("-3"));
    assert_eq!(dec("2.5").round_to(3), dec("2.5"));
    assert_eq!(dec("0.994").round_to(2), dec("0.99"));
}

#[test]
fn money_as_text() {
    assert_eq!(Money { amount: dec("1.50"), currency: "USD".to_owned() }.text(), "1.50 USD");
}

#[test]
fn trimming_and_comparing() {
    assert_eq!(trim("  a b \t\n"), "a b");
    assert_eq!(trim("\u{2003}\u{85}x\u{a0}"), "x");
    assert_eq!(trim(" \u{3000} "), "");
    assert!(same_text("abc", "abc"));
    assert!(!same_text("abc", "abd"));
    assert!(!same_text("abc", "ab"));
}

#[test]
fn white_space_of_every_kind() {
    for n in 0..=0x10ffff_u32 {
        let Some(c) = char::from_u32(n) else { continue };
        let white = matches!(
            n,
            0x9..=0xd
                | 0x20
                | 0x85
                | 0xa0
                | 0x1680
                | 0x2000..=0x200a
                | 0x2028
                | 0x2029
                | 0x202f
                | 0x205f
                | 0x3000
        );
        assert_eq!(trim(&c.to_string()).is_empty(), white, "{n:x}");
    }
}

#[test]
fn numbers_as_text_and_back() {
    assert_eq!(nat_text(0), "0");
    assert_eq!(nat_text(u64::MAX), "18446744073709551615");
    let parse = |s: &str| parse_u32(&chars_of(s));
    assert_eq!(parse("4294967295"), Some(u32::MAX));
    assert_eq!(parse("4294967296"), None);
    assert_eq!(parse("+7"), Some(7));
    assert_eq!(parse("007"), Some(7));
    for s in ["", "+", "-1", "1a", "٣", "+ 1"] {
        assert_eq!(parse(s), s.parse().ok(), "{s}");
    }
    assert_eq!(bool_text(true), "true");
    assert_eq!(bool_text(false), "false");
}

#[test]
fn splitting_and_copying() {
    assert_eq!(split_text("a/b//c", '/'), ["a", "b", "", "c"]);
    assert_eq!(split_text("", '/'), [""]);
    assert_eq!(split_text("/", '/'), ["", ""]);
    assert_eq!(chars_of("äb"), ['ä', 'b']);
    assert_eq!(copy_text(&Some("x".to_owned())).as_deref(), Some("x"));
    assert_eq!(copy_text(&None), None);
}
