use axiom_sandbox::decimal::Decimal;
use axiom_sandbox::time::Timestamp;
use axiom_sandbox::types::market::Candle;

fn dec(text: &str) -> Decimal {
    Decimal::parse(text).unwrap()
}

#[test]
fn test_candle_is_bullish() {
    let candle = Candle::new(
        Timestamp::now(),
        dec("100"),
        dec("110"),
        dec("95"),
        dec("105"),
        dec("1000"),
    );
    assert!(candle.is_bullish());
    assert!(!candle.is_bearish());
}

#[test]
fn test_candle_is_bearish() {
    let candle = Candle::new(
        Timestamp::now(),
        dec("100"),
        dec("105"),
        dec("90"),
        dec("92"),
        dec("1000"),
    );
    assert!(candle.is_bearish());
    assert!(!candle.is_bullish());
}
