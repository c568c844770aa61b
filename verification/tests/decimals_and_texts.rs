use axiom_sandbox::decimal::{Decimal, Relation};
use axiom_sandbox::exchange::engine::{checked_round_price, checked_round_qty, round_price_to_tick,
    round_qty_to_step};
use axiom_sandbox::text::{
    i64_text, join_texts, parse_i64, read_lines, replace_char, split, starts_with, trim_end_char,
    u64_text, write_lines,
};
use axiom_sandbox::time::{Duration, Timestamp};

fn dec(text: &str) -> Decimal {
    Decimal::parse(text).unwrap()
}

fn show(d: Option<Decimal>) -> String {
    d.unwrap().to_string()
}

#[test]
fn arithmetic_keeps_scales_and_is_exact_where_it_fits() {
    assert_eq!(show(dec("1.50").checked_add(&dec("2"))), "3.50");
    assert_eq!(show(dec("0.00").checked_add(&dec("2.5"))), "2.5");
    assert_eq!(show(dec("2.5").checked_add(&dec("0.000"))), "2.5");
    assert_eq!(show(dec("0.0").checked_sub(&dec("2.50"))), "-2.50");
    assert_eq!(show(dec("1.0").checked_sub(&dec("1.00"))), "0.00");
    assert_eq!(show(dec("1.5").checked_mul(&dec("0.20"))), "0.300");
    assert_eq!(show(dec("1.5").checked_mul(&dec("0.00"))), "0");
    assert_eq!(show(dec("6.0").checked_div(&dec("2"))), "3.0");
    assert_eq!(show(dec("50").checked_div(&dec("0.01"))), "5000");
    assert_eq!(show(dec("0").checked_div(&dec("7"))), "0");
    assert_eq!(show(dec("-1").checked_div(&dec("8"))), "-0.125");
    assert_eq!(show(dec("1").checked_div(&dec("3"))), "0.3333333333333333333333333333");
    assert!(dec("1").checked_div(&dec("0.0")).is_none());
    let max = dec("79228162514264337593543950335");
    assert!(max.checked_add(&dec("1")).is_none());
    assert!(max.checked_mul(&dec("2")).is_none());
    assert!(max.checked_div(&dec("0.1")).is_none());
    assert_eq!(show(max.checked_sub(&dec("1"))), "79228162514264337593543950334");
}

#[test]
fn short_quotients_are_exact() {
    assert_eq!(dec("1500").checked_div(&dec("1000")), Some(dec("1.5")));
    assert_eq!(dec("-0.00000007").checked_div(&dec("8")), Some(dec("-0.00000000875")));
    assert_eq!(dec("1").checked_div(&dec("-1.28")), Some(dec("-0.78125")));
    for scale in [0u32, 3, 11, 20] {
        for divisor in [3i128, 125, 1_048_576, 7_450_580_596_923_828_125, 590_295_810_358_705_651_712] {
            for hundred_millionths in [1i128, -375, 123_456_789, 99_999_999] {
                let b = Decimal::from_parts(divisor, scale).unwrap();
                let q = Decimal::from_parts(hundred_millionths, 8).unwrap();
                let a = b.checked_mul(&q).unwrap();
                assert_eq!(a.checked_div(&b), Some(q));
                let fewer = a.round_dp(scale);
                if fewer == a {
                    assert_eq!(fewer.checked_div(&b), Some(q));
                }
            }
        }
    }
}

#[test]
fn long_results_are_rounded() {
    assert_eq!(show(dec("2").checked_div(&dec("3"))), "0.6666666666666666666666666667");
    assert_eq!(show(dec("-20000").checked_div(&dec("3"))), "-6666.6666666666666666666666667");
    let third = dec("0.3333333333333333333333333333");
    assert_eq!(show(third.checked_mul(&dec("0.5"))), "0.1666666666666666666666666666");
    assert_eq!(show(third.checked_mul(&dec("-100000"))), "-33333.333333333333333333333330");
    assert_eq!(show(dec("0.0000000000000000000000000001").checked_mul(&dec("0.5"))), "0.0000000000000000000000000000");
}

#[test]
fn rounding_goes_to_even() {
    assert_eq!(dec("2.125").round_dp(2).to_string(), "2.12");
    assert_eq!(dec("2.135").round_dp(2).to_string(), "2.14");
    assert_eq!(dec("-2.1251").round_dp(2).to_string(), "-2.13");
    assert_eq!(dec("-0.004").round_dp(2).to_string(), "0.00");
    assert_eq!(dec("2.1").round_dp(8).to_string(), "2.1");
    assert_eq!(dec("0.5").round().to_string(), "0");
    assert_eq!(dec("1.5").round().to_string(), "2");
    assert_eq!(dec("-1.5").floor().to_string(), "-2");
    assert_eq!(dec("1.9").floor().to_string(), "1");
    assert_eq!(dec("-3.00").floor().to_string(), "-3");
    assert_eq!(dec("-3.20").abs().to_string(), "3.20");
}

#[test]
fn numbers_compare_by_value() {
    assert_eq!(dec("1.0"), dec("1.00"));
    assert_eq!(dec("1.0").relation(&dec("1.001")), Relation::Less);
    assert_eq!(dec("-1").relation(&dec("-2.5")), Relation::Greater);
    assert!(dec("0.000").is_zero());
    assert!(dec("2").le(&dec("2.0")));
    assert!(!dec("2").lt(&dec("2.0")));
}

#[test]
fn texts_of_numbers_are_read_back() {
    for t in [
        "0",
        "-0.5",
        "0.0000000000000000000000000001",
        "79228162514264337593543950335",
        "7.9228162514264337593543950335",
        "-1200.50",
    ] {
        let d = dec(t);
        assert_eq!(d.to_string(), t);
        assert_eq!(Decimal::from_parts(d.mantissa(), d.scale()).unwrap().to_string(), t);
    }
    assert!(Decimal::parse("abc").is_none());
    assert!(Decimal::parse("").is_none());
    assert!(Decimal::from_parts(79228162514264337593543950336, 0).is_none());
    assert!(Decimal::from_parts(1, 29).is_none());
    assert_eq!(Decimal::from_parts(-15, 1).unwrap(), dec("-1.5"));
}

#[test]
fn quantities_and_prices_fit_their_grid() {
    assert_eq!(round_qty_to_step(dec("0.6789"), dec("0.001")).to_string(), "0.678");
    assert_eq!(round_price_to_tick(dec("50000.126"), dec("0.01")).to_string(), "50000.13");
    assert_eq!(round_price_to_tick(dec("50000.125"), dec("0.01")).to_string(), "50000.12");
    assert!(checked_round_qty(dec("1"), dec("0")).is_none());
    assert!(checked_round_price(dec("1"), dec("0")).is_none());
    assert!(round_qty_to_step(dec("7.9"), dec("0.5")).le(&dec("7.9")));
}

#[test]
fn texts_are_cut_and_joined() {
    let parts = split("a,,b,", ',');
    assert_eq!(parts, vec!["a", "", "b", ""]);
    assert_eq!(join_texts(&parts, ','), "a,,b,");
    assert_eq!(split("", ','), vec![""]);
    assert_eq!(read_lines("a\r\nb\n\nc\r"), vec!["a", "b", "", "c\r"]);
    assert_eq!(read_lines("a\n"), vec!["a"]);
    assert!(read_lines("").is_empty());
    assert_eq!(write_lines(&vec!["x".to_string(), "y".to_string()]), "x\ny\n");
    assert_eq!(replace_char("a,b,c", ',', ' '), "a b c");
    assert_eq!(trim_end_char("xZyZZ", 'Z'), "xZy");
    assert!(starts_with("abc", "ab"));
    assert!(!starts_with("ab", "abc"));
    assert!(!starts_with("abc", "b"));
}

#[test]
fn integers_are_written_and_read() {
    assert_eq!(u64_text(0), "0");
    assert_eq!(u64_text(u64::MAX), "18446744073709551615");
    assert_eq!(i64_text(i64::MIN), "-9223372036854775808");
    assert_eq!(i64_text(-10), "-10");
    assert_eq!(parse_i64("-9223372036854775808"), Some(i64::MIN));
    assert_eq!(parse_i64("+42"), Some(42));
    assert_eq!(parse_i64("9223372036854775808"), None);
    for bad in ["", "-", "+", "1a", "--1", " 1"] {
        assert_eq!(parse_i64(bad), None);
    }
}

#[test]
fn moments_have_texts_and_calendars() {
    let t = Timestamp::from_timestamp_millis(1_583_020_800_250).unwrap();
    assert_eq!(t.to_rfc3339(), "2020-03-01T00:00:00.250+00:00");
    assert_eq!(Timestamp::parse_rfc3339(&t.to_rfc3339()), Some(t));
    assert_eq!(
        Timestamp::parse_rfc3339("2020-03-01T02:00:00.25+02:00"),
        Some(t)
    );
    assert_eq!(Timestamp::parse_rfc3339("2020-03-01"), None);
    assert_eq!((t.weekday(), t.hour()), (0, 0)); // a Sunday
    assert_eq!(t.timestamp_millis(), 1_583_020_800_250);
    let before = Timestamp::from_timestamp_millis(-1).unwrap();
    assert_eq!((before.timestamp(), before.subsec_nanos()), (-1, 999_000_000));
    assert_eq!((before.weekday(), before.hour()), (3, 23)); // a Wednesday
    assert_eq!(before.timestamp_millis(), -1);
    assert!(Timestamp::from_timestamp(i64::MAX, 0).is_none());
    assert!(Timestamp::from_timestamp_millis(i64::MIN).is_none());
    assert!(Timestamp::from_timestamp(0, 1_000_000_000).is_none());
    assert!(Timestamp::from_timestamp(59, 1_500_000_000).is_some());
    for secs in [-8334601228800, 8210266876799] {
        let edge = Timestamp::from_timestamp(secs, 0).unwrap();
        assert!(edge.to_rfc3339().ends_with("+00:00"));
    }
    assert!(Timestamp::now().timestamp() > 1_500_000_000);
    assert_eq!(Duration::from_millis(2500).as_secs(), 2);
    assert_eq!(Duration::from_secs(2).as_millis(), 2000);
}
