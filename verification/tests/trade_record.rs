use axiom_sandbox::data::trade_record::{TradeDirection, TradePhase, TradeRecord, TradeStatus};
use axiom_sandbox::decimal::Decimal;

fn dec(text: &str) -> Decimal {
    Decimal::parse(text).unwrap()
}

#[test]
fn test_trade_record_creation() {
    let record = TradeRecord::new(
        "trade-001",
        "BTCUSDT",
        TradeDirection::Long,
        dec("50000"),
        dec("49000"),
        dec("53000"),
        dec("1"),
        dec("500"),
        dec("60"),
        dec("25"),
        "StrongUptrend".to_string(),
    );

    assert_eq!(record.id, "trade-001");
    assert_eq!(record.symbol, "BTCUSDT");
    assert_eq!(record.direction, TradeDirection::Long);
    assert_eq!(record.entry_price, dec("50000"));
    assert_eq!(record.risk_per_unit, dec("1000"));
    assert_eq!(record.status, TradeStatus::Open);
    assert_eq!(record.phase, TradePhase::Phase1);
    assert_eq!(record.entry_rsi, dec("60"));
}

#[test]
fn trade_record_test_r_multiple_calculation() {
    let record = TradeRecord::new(
        "trade-001",
        "BTCUSDT",
        TradeDirection::Long,
        dec("50000"),
        dec("49000"),
        dec("53000"),
        dec("1"),
        dec("500"),
        dec("0"),
        dec("0"),
        "Neutral".to_string(),
    );

    // At 1.5R profit
    assert_eq!(record.current_r_multiple(dec("51500")), dec("1.5"));

    // At 2.5R profit
    assert_eq!(record.current_r_multiple(dec("52500")), dec("2.5"));

    // At 1R loss
    assert_eq!(record.current_r_multiple(dec("49000")), dec("-1"));
}

#[test]
fn test_unrealized_pnl() {
    let record = TradeRecord::new(
        "trade-001",
        "BTCUSDT",
        TradeDirection::Long,
        dec("50000"),
        dec("49000"),
        dec("53000"),
        dec("2"),
        dec("500"),
        dec("0"),
        dec("0"),
        "Neutral".to_string(),
    );

    // 1000 profit per unit * 2 units = 2000
    assert_eq!(record.unrealized_pnl(dec("51000")), dec("2000"));
}

#[test]
fn test_close_trade() {
    let mut record = TradeRecord::new(
        "trade-001",
        "BTCUSDT",
        TradeDirection::Long,
        dec("50000"),
        dec("49000"),
        dec("53000"),
        dec("1"),
        dec("500"),
        dec("0"),
        dec("0"),
        "Neutral".to_string(),
    );

    record.close(dec("51500"));

    assert_eq!(record.status, TradeStatus::Closed);
    assert_eq!(record.exit_price, Some(dec("51500")));
    assert_eq!(record.realized_pnl, dec("1500"));
}

#[test]
fn trade_record_test_phase_transitions() {
    let mut record = TradeRecord::new(
        "trade-001",
        "BTCUSDT",
        TradeDirection::Long,
        dec("50000"),
        dec("49000"),
        dec("53000"),
        dec("1"),
        dec("500"),
        dec("0"),
        dec("0"),
        "Neutral".to_string(),
    );

    assert_eq!(record.phase, TradePhase::Phase1);

    record.transition_to_phase2(dec("50000"));
    assert_eq!(record.phase, TradePhase::Phase2);
    assert_eq!(record.stop_loss, dec("50000")); // Breakeven

    record.transition_to_phase3();
    assert_eq!(record.phase, TradePhase::Phase3);
}

#[test]
fn test_trailing_stop_price() {
    let record = TradeRecord::new(
        "trade-001",
        "BTCUSDT",
        TradeDirection::Long,
        dec("50000"),
        dec("49000"),
        dec("53000"),
        dec("1"),
        dec("500"), // ATR = 500
        dec("0"),
        dec("0"),
        "Neutral".to_string(),
    );

    // Trailing stop = current - (ATR * 2.0) = 52000 - 1000 = 51000
    assert_eq!(
        record.trailing_stop_price(dec("52000"), dec("2")),
        dec("51000")
    );
}

#[test]
fn test_csv_row_generation() {
    let record = TradeRecord::new(
        "trade-001",
        "BTCUSDT",
        TradeDirection::Long,
        dec("50000"),
        dec("49000"),
        dec("53000"),
        dec("1"),
        dec("500"),
        dec("0"),
        dec("0"),
        "Neutral".to_string(),
    );

    let csv = record.to_csv_row();
    assert!(csv.contains("trade-001"));
    assert!(csv.contains("BTCUSDT"));
    assert!(csv.contains("Long"));
    assert!(csv.contains("Open"));
}


fn create_short_record() -> TradeRecord {
    // Short: entry=50000, SL=51000 (above), TP=47000 (below)
    // risk_per_unit = |50000 - 51000| = 1000
    TradeRecord::new(
        "short-001",
        "BTCUSDT",
        TradeDirection::Short,
        dec("50000"),
        dec("51000"),
        dec("47000"),
        dec("1"),
        dec("500"),
        dec("45"),
        dec("30"),
        "StrongDowntrend".to_string(),
    )
}

#[test]
fn test_short_r_multiple() {
    let record = create_short_record();

    // Price drops 1500 => +1.5R for Short
    assert_eq!(record.current_r_multiple(dec("48500")), dec("1.5"));

    // Price drops 2500 => +2.5R
    assert_eq!(record.current_r_multiple(dec("47500")), dec("2.5"));

    // Price rises 1000 => -1R
    assert_eq!(record.current_r_multiple(dec("51000")), dec("-1"));
}

#[test]
fn test_short_unrealized_pnl() {
    let record = create_short_record();

    // Price drops 1000 => PnL = +1000 * 1 unit = +1000
    assert_eq!(record.unrealized_pnl(dec("49000")), dec("1000"));

    // Price rises 500 => PnL = -500
    assert_eq!(record.unrealized_pnl(dec("50500")), dec("-500"));
}

#[test]
fn test_short_close_trade() {
    let mut record = create_short_record();

    // Close at 48500 => PnL = (50000 - 48500) * 1 = 1500
    record.close(dec("48500"));
    assert_eq!(record.status, TradeStatus::Closed);
    assert_eq!(record.exit_price, Some(dec("48500")));
    assert_eq!(record.realized_pnl, dec("1500"));
}

#[test]
fn test_short_trailing_stop_price() {
    let record = create_short_record();

    // Short trailing stop = current + (ATR * multiplier)
    // = 47500 + (500 * 2) = 48500
    assert_eq!(
        record.trailing_stop_price(dec("47500"), dec("2")),
        dec("48500")
    );
}
