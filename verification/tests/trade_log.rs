use axiom_sandbox::data::csv_logger::{parse_csv_line, update_csv_line, CsvError, CsvLogger};
use axiom_sandbox::data::trade_manager::{evaluate_at, TradeAction, TradeManager, TradeManagerError};
use axiom_sandbox::data::trade_record::{TradeDirection, TradePhase, TradeRecord, TradeStatus};
use axiom_sandbox::decimal::Decimal;
use axiom_sandbox::dto::{trade_history, TradeRecordDto};
use axiom_sandbox::time::Timestamp;

fn dec(text: &str) -> Decimal {
    Decimal::parse(text).unwrap()
}

fn at(secs: i64) -> Timestamp {
    Timestamp::from_timestamp(secs, 0).unwrap()
}

fn record(id: &str, direction: TradeDirection) -> TradeRecord {
    TradeRecord::new_at(
        id,
        "BTCUSDT",
        direction,
        dec("50000.123456789"),
        dec("49000"),
        dec("53000"),
        dec("1.50"),
        dec("500"),
        dec("60"),
        dec("25"),
        "up, strong".to_string(),
        at(1_583_020_800),
    )
    .unwrap()
}

#[test]
fn a_line_is_read_back_as_its_record() {
    let r = record("trade-001", TradeDirection::Short);
    let line = r.to_csv_row();
    assert_eq!(
        line,
        "trade-001,BTCUSDT,Short,2020-03-01T00:00:00+00:00,50000.12345679,49000,53000,1.50,Open,,,0,Phase1,500,1000.12345679,60,25,up  strong"
    );
    let back = parse_csv_line(&line).unwrap();
    assert_eq!(back.to_csv_row(), line);
    assert_eq!(back.trend_condition, "up  strong");
    assert_eq!(back.entry_time, at(1_583_020_800));
    assert_eq!(back.exit_price, None);
    assert!(parse_csv_line("a,b,c").is_none());
    assert!(parse_csv_line(&line.replace("Short", "Sideways")).is_none());
    assert!(parse_csv_line(&line.replace("Short", "sHORT")).is_some());
}

#[test]
fn updates_touch_their_own_line_only() {
    let mut log = CsvLogger::new("log.csv");
    log.append_record(&record("trade-1", TradeDirection::Long));
    log.append_record(&record("trade-10", TradeDirection::Long));
    let before = log.content();
    log.update_record_at(
        "trade-10",
        Some(dec("51500")),
        Some(dec("1500")),
        Some(TradeStatus::Closed),
        None,
        None,
        Some(dec("0")),
        at(1_600_000_000),
    )
    .unwrap();
    let records = log.read_all_records();
    assert_eq!(records[0].status, TradeStatus::Open);
    assert_eq!(records[1].status, TradeStatus::Closed);
    assert_eq!(records[1].exit_time, Some(at(1_600_000_000)));
    assert_eq!(records[1].exit_price, Some(dec("51500")));
    assert_eq!(records[1].entry_price, dec("50000.12345679"));
    assert_eq!(log.content().lines().nth(1), before.lines().nth(1));
    // A second closing keeps the first exit time.
    log.update_record_at(
        "trade-10",
        None,
        None,
        Some(TradeStatus::Closed),
        None,
        None,
        None,
        at(1_700_000_000),
    )
    .unwrap();
    assert_eq!(log.read_all_records()[1].exit_time, Some(at(1_600_000_000)));
    let open: Vec<String> = log.find_open_trades().into_iter().map(|r| r.id).collect();
    assert_eq!(open, vec!["trade-1"]);
    match log.update_record("trade", None, None, None, None, None, None) {
        Err(e @ CsvError::TradeNotFound { .. }) => {
            assert_eq!(e.to_string(), "Trade not found: trade")
        }
        _ => panic!("Expected TradeNotFound"),
    }
}

#[test]
fn a_log_is_read_back_from_its_content() {
    let mut log = CsvLogger::default_path();
    assert_eq!(log.path(), "trades_log.csv");
    log.append_record(&record("trade-1", TradeDirection::Long));
    let again = CsvLogger::open("x", &log.content());
    assert_eq!(again.content(), log.content());
    assert_eq!(again.read_all_records().len(), 1);
    let mut broken = CsvLogger::open("x", "header\nshort,line\n");
    assert!(broken.read_all_records().is_empty());
    match broken.update_record("short", None, None, None, None, None, None) {
        Err(e @ CsvError::ParseError { .. }) => assert_eq!(
            e.to_string(),
            "Parse error: Invalid CSV line format: missing columns"
        ),
        _ => panic!("Expected ParseError"),
    }
    assert!(CsvLogger::open("x", "").read_all_records().is_empty());
    assert_eq!(CsvError::LockError.to_string(), "Lock error: failed to acquire mutex");
    assert_eq!(CsvError::Io { message: "m".to_string() }.to_string(), "IO error: m");
    assert!(update_csv_line("x", None, None, None, None, None, None, at(0)).is_none());
}

fn open(manager: &mut TradeManager, id: &str) -> TradeRecord {
    manager.open_trade(
        id,
        "BTCUSDT",
        TradeDirection::Long,
        dec("50000"),
        dec("49000"),
        dec("53000"),
        dec("1"),
        dec("500"),
        dec("0"),
        dec("0"),
        "Neutral".to_string(),
    )
}

#[test]
fn a_trade_runs_through_its_phases() {
    let mut m = TradeManager::new("log.csv");
    open(&mut m, "t");
    m.step("t", dec("51500"), at(1)).unwrap().unwrap();
    let t = m.find_trade("t").unwrap();
    assert_eq!((t.phase, t.stop_loss), (TradePhase::Phase2, dec("50000")));
    assert_eq!(t.realized_pnl, dec("495"));
    m.step("t", dec("52500"), at(2)).unwrap().unwrap();
    let t = m.find_trade("t").unwrap();
    assert_eq!((t.phase, t.stop_loss), (TradePhase::Phase3, dec("51500")));
    // The trailing stop follows the price up, and never down.
    m.step("t", dec("52600"), at(3)).unwrap().unwrap();
    assert_eq!(m.find_trade("t").unwrap().stop_loss, dec("51600"));
    m.step("t", dec("52550"), at(4)).unwrap().unwrap();
    assert_eq!(m.find_trade("t").unwrap().stop_loss, dec("51600"));
    let logged = &m.logger().find_open_trades()[0];
    assert_eq!((logged.phase, logged.stop_loss), (TradePhase::Phase3, dec("51600")));
    m.step("t", dec("51600"), at(5)).unwrap().unwrap();
    assert!(m.find_trade("t").is_none());
    let closed = &m.logger().read_all_records()[0];
    assert_eq!(closed.status, TradeStatus::Closed);
    // 0.33 at 1500 each, then 0.67 at 1600 each.
    assert_eq!(closed.realized_pnl, dec("1567"));
    assert_eq!(closed.position_size, Decimal::zero());
    assert_eq!(closed.exit_price, Some(dec("51600")));
}

#[test]
fn actions_are_refused_with_reasons() {
    let mut m = TradeManager::default_path();
    assert_eq!(m.evaluate_trade("none", dec("1")), TradeAction::Hold);
    let phase2 = || TradeAction::TransitionPhase2 {
        close_quantity: dec("0.33"),
        new_stop_loss: dec("50000"),
    };
    let e = m.execute_action("none", phase2(), dec("1")).unwrap_err();
    assert!(matches!(e, TradeManagerError::TradeNotFound { .. }));
    assert_eq!(e.to_string(), "Trade not found: none");
    open(&mut m, "t");
    m.execute_action("t", phase2(), dec("51500")).unwrap();
    let e = m.execute_action("t", phase2(), dec("51500")).unwrap_err();
    assert_eq!(e.to_string(), "Invalid phase transition from Phase2 to Phase2");
    m.execute_action("t", TradeAction::Hold, dec("1")).unwrap();
    m.close_trade("t", dec("51500"), "Manual").unwrap();
    assert!(m.checked_close_trade("t", dec("51500"), "Manual").unwrap().is_err());
    assert_eq!(
        TradeManagerError::TradeAlreadyClosed { id: "t".to_string() }.to_string(),
        "Trade already closed: t"
    );
    assert_eq!(
        TradeManagerError::Csv(CsvError::LockError).to_string(),
        "CSV error: Lock error: failed to acquire mutex"
    );
}

#[test]
fn a_manager_finds_its_open_trades_again() {
    let mut m = TradeManager::new("log.csv");
    open(&mut m, "a");
    open(&mut m, "b");
    m.close_trade("a", dec("51000"), "").unwrap();
    let again = TradeManager::with_log(CsvLogger::open("log.csv", &m.logger().content()));
    assert_eq!(again.active_trades().len(), 1);
    assert_eq!(again.active_trades()[0].id, "b");
    assert_eq!(again.active_trades()[0].risk_per_unit, dec("1000"));
}

#[test]
fn figures_that_cannot_be_held_are_reported() {
    let max = dec("79228162514264337593543950335");
    let min = dec("-79228162514264337593543950335");
    let made = |entry: Decimal, stop: Decimal| {
        TradeRecord::checked_new(
            "x",
            "S",
            TradeDirection::Long,
            entry,
            stop,
            max,
            max,
            max,
            dec("0"),
            dec("0"),
            String::new(),
        )
    };
    assert!(made(max, min).is_none());
    let mut r = made(max, dec("1")).unwrap();
    assert!(r.checked_unrealized_pnl(dec("0")).is_none());
    assert!(!r.checked_close(dec("0")));
    assert!(r.is_open());
    assert!(r.checked_r_multiple(max).is_some());
    assert!(r.checked_trailing_stop_price(dec("1"), dec("2")).is_none());
    assert!(!r.checked_reduce_position(min, dec("0")));
}

#[test]
fn history_is_shown_as_texts() {
    let mut log = CsvLogger::new("log.csv");
    let mut r = record("t", TradeDirection::Long);
    log.append_record(&r);
    let shown = trade_history(&log);
    assert_eq!(shown.len(), 1);
    assert_eq!(shown[0].direction, "Long");
    assert_eq!(shown[0].entry_price, "50000.12345679");
    assert_eq!(shown[0].exit_time, None);
    assert!(r.close_at(dec("51000"), at(1_583_020_800)));
    let d = TradeRecordDto::from_record(&r);
    assert_eq!(d.status, "Closed");
    assert_eq!(d.phase, "Phase1");
    assert_eq!(d.exit_time, Some("2020-03-01T00:00:00+00:00".to_string()));
    assert_eq!(d.exit_price, Some("51000".to_string()));
    assert_eq!(d.trend_condition, "up, strong");
    assert_eq!(d.realized_pnl, "1499.81481482"); // 1.50 times 999.87654321, ties to even
}

#[test]
fn directions_statuses_and_phases_have_names() {
    assert_eq!(TradeDirection::from_str("LONG"), Some(TradeDirection::Long));
    assert_eq!(TradeDirection::from_str("shorts"), None);
    assert_eq!(TradeDirection::Long.opposite(), TradeDirection::Short);
    assert_eq!(TradeStatus::from_str("Closed"), Some(TradeStatus::Closed));
    assert_eq!(TradeStatus::from_str(""), None);
    assert_eq!(TradePhase::from_str("PHASE3"), Some(TradePhase::Phase3));
    assert_eq!(TradePhase::from_str("phase4"), None);
    assert_eq!(TradePhase::from_str("PHASEé"), None);
    assert_eq!(TradePhase::Phase2.to_string(), "Phase2");
}

#[test]
fn multiples_decide_on_a_recorded_trade() {
    let r = record("trade-1", TradeDirection::Long);
    assert!(matches!(evaluate_at(&r, dec("51000"), dec("1.49")), Some(TradeAction::Hold)));
    match evaluate_at(&r, dec("51000"), dec("1.5")) {
        Some(TradeAction::TransitionPhase2 { new_stop_loss, .. }) => {
            assert_eq!(new_stop_loss, dec("50000.12345679"));
        }
        _ => panic!("Expected a partial close"),
    }
    match evaluate_at(&r, dec("48999"), dec("2.5")) {
        Some(TradeAction::CloseTrade { exit_price, reason }) => {
            assert_eq!(exit_price, dec("49000"));
            assert_eq!(reason, "Stop Loss");
        }
        _ => panic!("Expected a close"),
    }
}

#[test]
fn a_log_that_is_opened_again_gives_back_the_trades() {
    let now = at(1_583_020_800);
    let mut m = TradeManager::new("log.csv");
    for id in ["a", "b", "c", "ab"] {
        m.open_trade_at(
            id,
            "BTCUSDT",
            TradeDirection::Long,
            dec("50000"),
            dec("49000"),
            dec("53000"),
            dec("1"),
            dec("500"),
            dec("60"),
            dec("25"),
            "up, strong".to_string(),
            now,
        )
        .unwrap();
    }
    assert!(m.step("a", dec("51500"), now).unwrap().is_ok());
    assert!(m.step("c", dec("52500"), now).unwrap().is_ok());
    assert!(m.step("c", dec("52700.123456789"), now).unwrap().is_ok());
    assert!(m.close_trade_at("b", dec("50500.5"), now).is_ok());
    let log = CsvLogger::open("log.csv", &m.logger().content());
    let again = TradeManager::with_log(log);
    let ids: Vec<&str> = again.active_trades().iter().map(|t| t.id.as_str()).collect();
    assert_eq!(ids, vec!["a", "c", "ab"]);
    for (t, u) in m.active_trades().iter().zip(again.active_trades()) {
        assert_eq!(t.to_csv_row(), u.to_csv_row());
        assert_eq!(u.trend_condition, "up  strong");
    }
    assert_eq!(again.active_trades()[0].phase, TradePhase::Phase2);
    assert_eq!(again.active_trades()[1].stop_loss, dec("51700.12345679"));
}

#[test]
fn a_leap_second_is_read_back() {
    let leap = Timestamp::from_timestamp(1_483_228_799, 1_500_000_000).unwrap();
    let mut r = record("t", TradeDirection::Long);
    r.entry_time = leap;
    let line = r.to_csv_row();
    assert!(line.contains("2016-12-31T23:59:60.500+00:00"));
    assert_eq!(parse_csv_line(&line).unwrap().entry_time, leap);
    assert_eq!(leap.nanos_since(&at(1_483_228_799)), 1_500_000_000);
}

#[test]
fn an_update_is_seen_in_the_records() {
    let mut log = CsvLogger::new("log.csv");
    for id in ["a", "b"] {
        log.append_record(&record(id, TradeDirection::Long));
    }
    let before = log.read_all_records();
    log.update_record_at(
        "b",
        None,
        Some(dec("7")),
        Some(TradeStatus::Closed),
        None,
        None,
        None,
        at(1_583_020_801),
    )
    .unwrap();
    let after = log.read_all_records();
    assert_eq!(after.len(), 2);
    assert_eq!(after[0].to_csv_row(), before[0].to_csv_row());
    assert_eq!(after[1].realized_pnl, dec("7"));
    assert_eq!(after[1].exit_time, Some(at(1_583_020_801)));
    assert_eq!(after[1].exit_price, None);
    assert_eq!(after[1].stop_loss, before[1].stop_loss);
    assert!(log.update_record_at("c", None, None, None, None, None, None, at(0)).is_err());
}
