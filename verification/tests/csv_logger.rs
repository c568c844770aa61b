use axiom_sandbox::data::csv_logger::CsvLogger;
use axiom_sandbox::data::trade_record::{TradeDirection, TradePhase, TradeRecord, TradeStatus};
use axiom_sandbox::decimal::Decimal;

fn dec(text: &str) -> Decimal {
    Decimal::parse(text).unwrap()
}

fn create_test_record(id: &str) -> TradeRecord {
    TradeRecord::new(
        id,
        "BTCUSDT",
        TradeDirection::Long,
        dec("50000"),
        dec("49000"),
        dec("53000"),
        dec("1"),
        dec("500"),
        dec("60"),
        dec("25"),
        "StrongUptrend".to_string(),
    )
}

#[test]
fn test_csv_logger_creation() {
    let path = "test_trades.csv";

    let logger = CsvLogger::new(path);
    assert_eq!(logger.path(), path);

    // Check header
    let content = logger.content();
    assert!(content.contains("id,symbol,direction"));
}

#[test]
fn test_append_record() {
    let path = "test_trades.csv";
    let mut logger = CsvLogger::new(path);

    let record = create_test_record("trade-001");
    logger.append_record(&record);

    let content = logger.content();
    assert!(content.contains("trade-001"));
    assert!(content.contains("BTCUSDT"));
    assert!(content.contains("Long"));
}

#[test]
fn test_read_all_records() {
    let path = "test_trades.csv";
    let mut logger = CsvLogger::new(path);

    logger.append_record(&create_test_record("trade-001"));
    logger.append_record(&create_test_record("trade-002"));

    let records = logger.read_all_records();
    assert_eq!(records.len(), 2);
    assert_eq!(records[0].id, "trade-001");
    assert_eq!(records[1].id, "trade-002");
}

#[test]
fn test_update_record() {
    let path = "test_trades.csv";
    let mut logger = CsvLogger::new(path);

    logger.append_record(&create_test_record("trade-001"));

    // Update to closed with exit price and PnL
    logger
        .update_record(
            "trade-001",
            Some(dec("51500")),
            Some(dec("1500")),
            Some(TradeStatus::Closed),
            None,
            None,
            None,
        )
        .unwrap();

    let records = logger.read_all_records();
    assert_eq!(records[0].status, TradeStatus::Closed);
    assert_eq!(records[0].exit_price, Some(dec("51500")));
    assert_eq!(records[0].realized_pnl, dec("1500"));
}

#[test]
fn test_update_phase_and_stop_loss() {
    let path = "test_trades.csv";
    let mut logger = CsvLogger::new(path);

    logger.append_record(&create_test_record("trade-001"));

    // Update to Phase2 with new stop loss at breakeven
    logger
        .update_record(
            "trade-001",
            None,
            None,
            None,
            Some(TradePhase::Phase2),
            Some(dec("50000")), // Breakeven
            Some(dec("0.67")),  // 33% closed
        )
        .unwrap();

    let records = logger.read_all_records();
    assert_eq!(records[0].phase, TradePhase::Phase2);
    assert_eq!(records[0].stop_loss, dec("50000"));
    assert_eq!(records[0].position_size, dec("0.67"));
}

#[test]
fn test_find_open_trades() {
    let path = "test_trades.csv";
    let mut logger = CsvLogger::new(path);

    logger.append_record(&create_test_record("trade-001"));
    logger.append_record(&create_test_record("trade-002"));

    // Close one trade
    logger
        .update_record(
            "trade-001",
            Some(dec("51500")),
            Some(dec("1500")),
            Some(TradeStatus::Closed),
            None,
            None,
            None,
        )
        .unwrap();

    let open_trades = logger.find_open_trades();
    assert_eq!(open_trades.len(), 1);
    assert_eq!(open_trades[0].id, "trade-002");
}
