use axiom_sandbox::data::csv_logger::CsvLogger;
use axiom_sandbox::data::trade_manager::TradeManager;
use axiom_sandbox::data::trade_record::{TradeDirection, TradePhase, TradeRecord};
use axiom_sandbox::decimal::Decimal;
use axiom_sandbox::dto::SystemStatus;
use axiom_sandbox::exchange::engine::{EngineConfig, EngineStep, ExecutionEngine};
use axiom_sandbox::exchange::ibkr_engine::{IbkrEngineConfig, IbkrExecutionEngine};
use axiom_sandbox::exchange::orders::{OcoOrderResult, OcoStatus, OrderSide};
use axiom_sandbox::exchange::startup::{
    load_filters, read_algo_orders, read_open_orders, FoundOrders, RuleText, SymbolInfo,
};
use axiom_sandbox::exchange::trade_manager::{ManagementAction, TradeState};
use axiom_sandbox::risk::manager::{RiskManager, TradeResult};
use axiom_sandbox::session::{
    check_start, new_trade_id, required_intervals, started_message, stopped_message,
    stream_intervals, trade_symbols, Considered, EntryOutcome, Figures, Session,
};
use axiom_sandbox::double::Double;
use axiom_sandbox::strategy::evaluator::{EvaluatorError, Reading};
use axiom_sandbox::strategy::models::{
    EntryRule, MaCondition, MaRule, MaType, RiskParams, UserStrategyConfig,
};
use axiom_sandbox::time::Timestamp;
use axiom_sandbox::types::market::Interval;
use axiom_sandbox::types::position::Position;
use axiom_sandbox::websocket::messages::{KlineData, KlineEvent};

fn dec(text: &str) -> Decimal {
    Decimal::parse(text).unwrap()
}

fn at(secs: i64) -> Timestamp {
    Timestamp::from_timestamp(secs, 0).unwrap()
}

fn kline(symbol: &str, interval: &str, time: u64, close: &str, closed: bool) -> KlineEvent {
    KlineEvent {
        event_type: "kline".to_string(),
        event_time: time,
        symbol: symbol.to_string(),
        kline: KlineData {
            start_time: time,
            close_time: time + 1,
            symbol: symbol.to_string(),
            interval: interval.to_string(),
            open: "1".to_string(),
            close: close.to_string(),
            high: "2".to_string(),
            low: "1".to_string(),
            volume: "10".to_string(),
            num_trades: 1,
            is_closed: closed,
            quote_volume: "1".to_string(),
        },
    }
}

fn rule(interval: Interval) -> EntryRule {
    EntryRule::Ma(MaRule {
        ma_type: MaType::Sma,
        lookback: 5,
        slow_lookback: None,
        condition: MaCondition::PriceIsAbove,
        interval,
    })
}

fn config(rules: Vec<EntryRule>) -> UserStrategyConfig {
    UserStrategyConfig { name: "S".to_string(), risk: RiskParams::default(), entry_rules: rules }
}

#[test]
fn a_session_starts_once_and_with_a_valid_strategy() {
    let good = config(vec![rule(Interval::H1)]);
    assert!(check_start(false, &good, "").is_ok());
    assert_eq!(
        check_start(true, &good, "").unwrap_err(),
        "A session is already running. Call stop_session first."
    );
    assert_eq!(
        check_start(false, &config(vec![]), "").unwrap_err(),
        "Invalid strategy config:\nentry_rules must contain at least one condition"
    );
    assert_eq!(
        started_message("S"),
        "Mock session started — strategy 'S' is active on Binance testnet."
    );
    assert_eq!(stopped_message(false), "No active session to stop.");
    assert_eq!(stopped_message(true), "Session stopped. WebSocket streams are shutting down.");
    let needed = required_intervals(&config(vec![
        rule(Interval::H4),
        rule(Interval::M15),
        rule(Interval::H4),
    ]));
    assert_eq!(needed.len(), 2);
    assert!(needed.contains(&Interval::M15) && needed.contains(&Interval::H4));
    assert_eq!(trade_symbols(), vec!["BTCUSDT", "ETHUSDT", "SOLUSDT"]);
    assert_eq!(stream_intervals(), vec!["15m", "1h", "4h"]);
}

#[test]
fn candles_are_added_or_replaced() {
    let mut s = Session::new(TradeManager::new("log.csv"));
    s.on_kline(&kline("BTCUSDT", "1h", 0, "1", true));
    assert!(!s.is_ready());
    s.on_kline(&kline("XRPUSDT", "15m", 0, "1", true));
    assert!(!s.is_ready()); // not one of the traded symbols
    s.on_kline(&kline("BTCUSDT", "15m", 0, "1.5", false));
    assert!(s.is_ready());
    s.on_kline(&kline("BTCUSDT", "15m", 0, "1.6", false));
    s.on_kline(&kline("BTCUSDT", "15m", 900_000, "1.7", false));
    s.on_kline(&kline("BTCUSDT", "15m", 900_000, "1.8", true));
    s.on_kline(&kline("BTCUSDT", "5m", 0, "9", true));
    s.on_kline(&kline("BTCUSDT", "15m", 0, "bad", true));
    let md = s.market_data("BTCUSDT").unwrap();
    let closes: Vec<String> = md.candles_15m.iter().map(|c| c.close.to_string()).collect();
    assert_eq!(closes, vec!["1.6", "1.7", "1.8"]);
    assert_eq!(md.candles_1h.len(), 1);
    assert_eq!(md.symbol, "BTCUSDT");
    assert!(s.market_data("ETHUSDT").is_none());
}

fn figures() -> Figures {
    Figures { atr: dec("100"), rsi: dec("55"), adx: dec("25") }
}

#[test]
fn signals_open_trades_within_limits() {
    let risk = RiskManager::new(dec("10000"));
    let mut s = Session::new(TradeManager::new("log.csv"));
    let now = at(1_583_020_800);
    assert!(matches!(s.on_signal("BTCUSDT", &risk, figures(), "a", now), Some(EntryOutcome::NoData)));
    s.on_kline(&kline("BTCUSDT", "1h", 0, "50000", true));
    assert!(matches!(s.on_signal("BTCUSDT", &risk, figures(), "a", now), Some(EntryOutcome::NoPrice)));
    s.on_kline(&kline("BTCUSDT", "15m", 0, "50000", true));
    let none = Figures { atr: dec("0.0"), ..figures() };
    assert!(matches!(s.on_signal("BTCUSDT", &risk, none, "a", now), Some(EntryOutcome::NoRange)));
    match s.on_signal("BTCUSDT", &risk, figures(), "a", now) {
        Some(EntryOutcome::Opened(t)) => {
            assert_eq!((t.id.as_str(), t.symbol.as_str()), ("a", "BTCUSDT"));
            assert_eq!(t.direction, TradeDirection::Long);
            assert_eq!(t.entry_price, dec("50050"));
            assert_eq!(t.stop_loss, dec("49850"));
            assert_eq!(t.take_profit, dec("50350"));
            // 10000 * 0.05 / 200 = 2.5, capped at 10000 * 5 / 50050
            assert_eq!(t.position_size, dec("0.999001"));
            assert_eq!(t.trend_condition, "LiveSignal");
        }
        _ => panic!("Expected an entry"),
    }
    assert!(matches!(s.on_signal("BTCUSDT", &risk, figures(), "b", now), Some(EntryOutcome::Duplicate)));
    assert_eq!(s.trades().active_trades().len(), 1);
    assert_eq!(s.trades().logger().read_all_records().len(), 1);
    for (i, id) in ["b", "c"].iter().enumerate() {
        s.on_kline(&kline("BTCUSDT", "15m", 900_000 * (i as u64 + 1), "50000", true));
        s.on_price("BTCUSDT", dec("50010"));
        let last = at(1_583_020_800 + 900 * (i as i64 + 1) - 1);
        assert!(matches!(
            s.on_signal("BTCUSDT", &risk, figures(), id, last),
            Some(EntryOutcome::Cooling)
        ));
        let now = at(1_583_020_800 + 900 * (i as i64 + 1));
        match s.on_signal("BTCUSDT", &risk, figures(), id, now) {
            Some(EntryOutcome::Opened(t)) => {
                assert_eq!(t.entry_price, dec("50060.01"));
                assert_eq!(t.entry_time, now);
            }
            _ => panic!("Expected an entry"),
        }
    }
    s.on_kline(&kline("BTCUSDT", "15m", 9_000_000, "50000", true));
    assert!(matches!(s.on_signal("BTCUSDT", &risk, figures(), "d", now), Some(EntryOutcome::Full)));
    // Another symbol has its own limit.
    s.on_kline(&kline("ETHUSDT", "15m", 0, "2000", true));
    assert!(matches!(
        s.on_signal("ETHUSDT", &risk, figures(), "e", now),
        Some(EntryOutcome::Opened(_))
    ));
    let mut halted = risk;
    halted.trigger_circuit_breaker();
    s.on_kline(&kline("SOLUSDT", "15m", 0, "100", true));
    assert!(matches!(s.on_signal("SOLUSDT", &halted, figures(), "f", now), Some(EntryOutcome::Halted)));
    let broke = RiskManager::new(dec("0"));
    assert!(matches!(
        s.on_signal("SOLUSDT", &broke, figures(), "f", now),
        Some(EntryOutcome::Rejected(_))
    ));
}

#[test]
fn entries_are_found_again_in_the_log() {
    let risk = RiskManager::new(dec("10000"));
    let mut s = Session::new(TradeManager::new("log.csv"));
    for symbol in ["BTCUSDT", "ETHUSDT"] {
        s.on_kline(&kline(symbol, "15m", 0, "50000", true));
        let id = new_trade_id();
        assert!(id.starts_with("mock-") && !id.contains(['\n', '\r', ',']));
        assert!(matches!(
            s.on_signal(symbol, &risk, figures(), &id, at(1_583_020_800)),
            Some(EntryOutcome::Opened(_))
        ));
    }
    let again = TradeManager::with_log(CsvLogger::open("log.csv", &s.trades().logger().content()));
    assert_eq!(again.active_trades().len(), 2);
    for (t, u) in s.trades().active_trades().iter().zip(again.active_trades()) {
        assert_eq!(t.to_csv_row(), u.to_csv_row());
    }
}

#[test]
fn only_a_signal_opens_a_trade() {
    let risk = RiskManager::new(dec("10000"));
    let strategy = config(vec![rule(Interval::M15)]);
    let mut s = Session::new(TradeManager::new("log.csv"));
    let consider = |s: &mut Session, readings: Vec<Option<Reading>>| {
        s.consider("BTCUSDT", &strategy, &readings, &risk, figures(), "a", at(0)).unwrap()
    };
    assert!(matches!(consider(&mut s, vec![]), Considered::NoData));
    for i in 0..6 {
        s.on_kline(&kline("BTCUSDT", "15m", 900_000 * i, "50000", true));
    }
    assert!(matches!(
        consider(&mut s, vec![None]),
        Considered::NotEvaluated(EvaluatorError::InsufficientData { required: 7, got: 6, .. })
    ));
    s.on_kline(&kline("BTCUSDT", "15m", 5_400_000, "50000", true));
    let reading = |average: f64| {
        let num = |x: f64| Double::from_bits(x.to_bits());
        vec![Some(Reading::PriceAverage {
            previous_close: num(50000.0),
            current_close: num(50000.0),
            previous: num(average),
            current: num(average),
        })]
    };
    assert!(matches!(consider(&mut s, reading(50001.0)), Considered::NoSignal));
    assert_eq!(s.trades().active_trades().len(), 0);
    assert!(matches!(
        consider(&mut s, reading(49999.0)),
        Considered::Signal(EntryOutcome::Opened(_))
    ));
    assert!(matches!(
        consider(&mut s, reading(49999.0)),
        Considered::Signal(EntryOutcome::Duplicate)
    ));
    assert_eq!(s.trades().active_trades().len(), 1);
}

#[test]
fn identifiers_are_random_and_fit_the_log() {
    let (a, b) = (new_trade_id(), new_trade_id());
    assert_ne!(a, b);
    assert!(a.starts_with("mock-"));
    assert_eq!(a.len(), 41);
}

#[test]
fn status_shows_the_account() {
    let mut risk = RiskManager::new(dec("10000"));
    risk.record_trade_result(TradeResult {
        symbol: "S".to_string(),
        pnl: dec("-300"),
        closed_at: at(0),
    });
    let status = SystemStatus::of_account(true, &risk).unwrap();
    assert!(status.session_active && status.circuit_breaker_active);
    assert_eq!(status.daily_loss_pct, "0.03");
    assert_eq!(status.current_equity, "9700");
    assert_eq!(status.daily_stats.realized_pnl, "-300");
    assert_eq!(
        (status.daily_stats.trade_count, status.daily_stats.wins, status.daily_stats.losses),
        (1, 0, 1)
    );
    assert_eq!(status.daily_stats.win_rate, "0");
}

fn info(symbol: &str, filters: Vec<RuleText>) -> SymbolInfo {
    SymbolInfo { symbol: symbol.to_string(), filters }
}

fn lot(step: &str, min: &str) -> RuleText {
    RuleText::LotSize { step_size: step.to_string(), min_qty: min.to_string() }
}

fn tick(size: &str) -> RuleText {
    RuleText::PriceFilter { tick_size: size.to_string() }
}

#[test]
fn trading_rules_are_loaded_for_wanted_symbols() {
    let wanted = vec!["BTCUSDT".to_string(), "ETHUSDT".to_string()];
    let all = vec![
        info("XRPUSDT", vec![]),
        info("BTCUSDT", vec![RuleText::Other, lot("0.001", "0.002"), tick("0.10")]),
        info("ETHUSDT", vec![tick("0.01"), lot("0.01", "?")]),
    ];
    let f = load_filters(&wanted, &all).unwrap();
    assert_eq!(f.len(), 2);
    assert!(f.get("XRPUSDT").is_none());
    assert_eq!(f.get("BTCUSDT").unwrap().tick_size, dec("0.1"));
    assert_eq!(f.get("BTCUSDT").unwrap().min_qty, dec("0.002"));
    assert_eq!(f.get("ETHUSDT").unwrap().min_qty, Decimal::zero());
    assert_eq!(
        load_filters(&wanted, &vec![info("BTCUSDT", vec![tick("1")])]).unwrap_err(),
        "[ENGINE] LOT_SIZE.stepSize missing for BTCUSDT"
    );
    assert_eq!(
        load_filters(&wanted, &vec![info("ETHUSDT", vec![lot("1", "1")])]).unwrap_err(),
        "[ENGINE] PRICE_FILTER.tickSize missing for ETHUSDT"
    );
}

fn live_engine() -> ExecutionEngine {
    let wanted = vec!["BTCUSDT".to_string()];
    let all = vec![info("BTCUSDT", vec![lot("0.001", "0.001"), tick("0.01")])];
    ExecutionEngine::new(EngineConfig::default(), load_filters(&wanted, &all).unwrap())
}

fn placed() -> OcoOrderResult {
    OcoOrderResult {
        order_list_id: 1,
        list_client_order_id: None,
        symbol: "BTCUSDT".to_string(),
        take_profit_order_id: 3,
        stop_loss_order_id: 2,
        status: OcoStatus::Executing,
    }
}

#[test]
fn live_positions_are_planned_step_by_step() {
    let mut e = live_engine();
    assert!(!e.is_mock() && e.has_filters("BTCUSDT") && !e.has_filters("ETHUSDT"));
    let plan = e
        .plan_open(
            "BTCUSDT",
            Position::Long,
            dec("50000"),
            dec("49000.123"),
            dec("53000"),
            dec("1.23456"),
            dec("500"),
            None,
            at(0),
        )
        .unwrap()
        .unwrap();
    assert_eq!(plan.steps.len(), 4);
    assert!(plan.steps[0].is_best_effort() && plan.steps[1].is_best_effort());
    match plan.steps[2] {
        EngineStep::Market { side, quantity, reduce_only } => {
            assert_eq!((side, quantity, reduce_only), (OrderSide::Buy, dec("1.234"), false));
        }
        _ => panic!("Expected the entry"),
    }
    match plan.steps[3] {
        EngineStep::Oco { side, quantity, take_profit, stop_trigger, stop_limit } => {
            assert_eq!((side, quantity), (OrderSide::Sell, dec("1.234")));
            assert_eq!((take_profit, stop_trigger), (dec("53000"), dec("49000.12")));
            assert_eq!(stop_limit, dec("48902.12"));
        }
        _ => panic!("Expected the order list"),
    }
    let p = e.record_open(plan, Some(&placed()));
    assert_eq!((p.oco_order_list_id, p.stop_loss_order_id, p.take_profit_order_id),
        (Some(1), Some(2), Some(3)));
    let action = e.evaluate("BTCUSDT", dec("52000")).unwrap().unwrap();
    assert!(matches!(action, ManagementAction::ExecuteFirstTp { .. }));
    let steps = e.plan_first_tp("BTCUSDT", dec("0.4"), dec("50000")).unwrap().unwrap();
    assert!(matches!(steps[0], EngineStep::CancelAlgoOrder { order_id: 2 }));
    assert!(matches!(steps[1], EngineStep::CancelAlgoOrder { order_id: 3 }));
    assert!(matches!(steps[2], EngineStep::Market { side: OrderSide::Sell, reduce_only: true, .. }));
    assert!(matches!(steps[3], EngineStep::Oco { quantity, .. } if quantity == dec("0.834")));
    e.record_first_tp("BTCUSDT", dec("0.4"), dec("50000"), Some(&placed())).unwrap().unwrap();
    let p = e.get_position("BTCUSDT").unwrap();
    assert_eq!((p.state, p.current_stop_loss), (TradeState::FirstTpHit, dec("50000")));
    assert_eq!(p.current_quantity, dec("0.83456"));
    let steps = e.plan_trailing("BTCUSDT", dec("1000")).unwrap().unwrap();
    assert!(matches!(
        steps[2],
        EngineStep::TrailingStop { side: OrderSide::Sell, callback_rate } if callback_rate == dec("2")
    ));
    let steps = e.plan_trailing("BTCUSDT", dec("1")).unwrap().unwrap();
    assert!(matches!(steps[2], EngineStep::TrailingStop { callback_rate, .. } if callback_rate == dec("0.1")));
    let steps = e.plan_trailing("BTCUSDT", dec("40000")).unwrap().unwrap();
    assert!(matches!(steps[2], EngineStep::TrailingStop { callback_rate, .. } if callback_rate == dec("5")));
    e.record_trailing("BTCUSDT", 77).unwrap();
    let steps = e.plan_close("BTCUSDT").unwrap().unwrap();
    assert!(matches!(steps[0], EngineStep::CancelAlgoOrder { order_id: 77 }));
    assert!(matches!(steps[1], EngineStep::Market { quantity, .. } if quantity == dec("0.834")));
    assert_eq!(e.get_all_positions().len(), 1);
    e.close_position("BTCUSDT", at(5)).unwrap().unwrap();
    assert!(e.get_all_positions().is_empty());
    assert!(e.plan_close("BTCUSDT").unwrap().unwrap().is_empty());
    assert!(e.remove_position("BTCUSDT").is_some());
    assert_eq!(
        e.plan_close("BTCUSDT").unwrap().unwrap_err().to_string(),
        "Position not found: BTCUSDT"
    );
}

fn record(phase: TradePhase) -> TradeRecord {
    let mut r = TradeRecord::new_at(
        "t",
        "BTCUSDT",
        TradeDirection::Short,
        dec("50000"),
        dec("51000"),
        dec("47000"),
        dec("1"),
        dec("500"),
        dec("0"),
        dec("0"),
        String::new(),
        at(99),
    )
    .unwrap();
    r.phase = phase;
    r
}

#[test]
fn open_trades_are_restored_and_linked() {
    let open = read_open_orders(
        r#"[{"orderListId":-1,"orderId":1,"type":"LIMIT"},{"orderListId":5,"orderId":6,"type":"STOP_LOSS"},{"orderListId":5,"orderId":7,"type":"TAKE_PROFIT_LIMIT"}]"#,
    );
    let algo = read_algo_orders(
        r#"[{"algoId":8,"type":"STOP_MARKET"},{"algoId":9,"origType":"TRAILING_STOP_MARKET"}]"#,
    );
    assert!(read_open_orders("{}").is_none());
    let mut e = live_engine();
    e.restore_positions(&vec![record(TradePhase::Phase3)], &vec![FoundOrders { open, algo }]);
    let p = e.get_position("BTCUSDT").unwrap();
    assert_eq!(p.direction, Position::Short);
    assert_eq!(p.state, TradeState::TrailingActive);
    assert_eq!(p.opened_at, at(99));
    assert_eq!((p.oco_order_list_id, p.stop_loss_order_id, p.take_profit_order_id),
        (Some(5), Some(6), Some(7)));
    assert_eq!(p.trailing_stop_order_id, Some(9));
    let mut m = ExecutionEngine::new_mock();
    let none = || FoundOrders { open: None, algo: None };
    m.restore_positions(
        &vec![record(TradePhase::Phase1), record(TradePhase::Phase2)],
        &vec![none(), none()],
    );
    let p = m.get_position("BTCUSDT").unwrap();
    assert_eq!(p.state, TradeState::FirstTpHit);
    assert_eq!((p.oco_order_list_id, p.stop_loss_order_id, p.take_profit_order_id),
        (Some(10000), Some(10001), Some(10002)));
    assert_eq!(p.trailing_stop_order_id, None);
}

#[test]
fn a_restored_trade_trails_from_the_risk_of_its_entry() {
    let mut r = TradeRecord::new_at(
        "a",
        "BTCUSDT",
        TradeDirection::Long,
        dec("50000"),
        dec("49000"),
        dec("53000"),
        dec("1"),
        dec("500"),
        dec("0"),
        dec("0"),
        "Neutral".to_string(),
        at(99),
    )
    .unwrap();
    r.transition_to_phase2(dec("50000"));
    r.reduce_position(dec("0.33"), dec("495"));
    let mut e = ExecutionEngine::new_mock();
    e.restore_positions(&vec![r], &vec![FoundOrders { open: None, algo: None }]);
    assert_eq!(e.get_position("BTCUSDT").unwrap().risk_per_unit, dec("1000"));
    match e.monitor_position("BTCUSDT", dec("52400"), at(100)) {
        Some(Ok(ManagementAction::Hold)) => {}
        _ => panic!("Expected nothing to be done"),
    }
    match e.monitor_position("BTCUSDT", dec("52500"), at(100)) {
        Some(Ok(ManagementAction::ActivateTrailingStop { offset })) => {
            assert_eq!(offset, dec("1000"));
        }
        _ => panic!("Expected the trailing stop"),
    }
    assert_eq!(e.get_position("BTCUSDT").unwrap().state, TradeState::TrailingActive);
}

#[test]
fn weekends_close_positions() {
    let monday = at(1_583_107_200); // 2020-03-02 00:00 UTC
    let friday = |hour: i64| at(1_583_452_800 + hour * 3600); // 2020-03-06
    let mut e = IbkrExecutionEngine::new_mock();
    assert!(e.is_mock());
    assert!(e.is_market_open_at(monday));
    assert!(e.is_market_open_at(friday(21)));
    assert!(!e.is_market_open_at(friday(22)));
    assert!(!e.is_market_open_at(friday(24 + 12)));
    assert!(!e.is_market_open_at(friday(48 + 22)));
    assert!(e.is_market_open_at(friday(48 + 23)));
    let mut open = |e: &mut IbkrExecutionEngine, now| {
        e.open_position(
            "CL",
            Position::Long,
            dec("60"),
            dec("59"),
            dec("65"),
            dec("1"),
            dec("0.5"),
            now,
        )
        .unwrap()
    };
    assert_eq!(
        open(&mut e, friday(23)).unwrap_err().to_string(),
        "Exchange error: [IBKR] Refused to open CL position on LONG — market is closed or in Friday pre-close window."
    );
    open(&mut e, monday).unwrap();
    assert!(e.has_position("CL") && !e.has_position("BRN"));
    assert_eq!(e.active_positions().len(), 1);
    let action = e.monitor_position("CL", dec("61.5"), monday).unwrap().unwrap();
    assert!(matches!(action, ManagementAction::ExecuteFirstTp { .. }));
    let action = e.monitor_position("CL", dec("62.5"), monday).unwrap().unwrap();
    assert!(matches!(action, ManagementAction::ActivateTrailingStop { offset } if offset == dec("1")));
    let action = e.monitor_position("CL", dec("70"), friday(22)).unwrap().unwrap();
    assert!(matches!(
        action,
        ManagementAction::ClosePosition { reason }
            if reason == "Friday pre-close: weekend gap risk mitigation"
    ));
    assert!(!e.has_position("CL"));
    assert!(e.monitor_position("BRN", dec("1"), monday).unwrap().is_err());
    let c = IbkrEngineConfig::default();
    assert_eq!((c.port, c.client_id, c.friday_close_utc_hour), (7497, 1, 22));
    assert_eq!(c.max_slippage, dec("0.001"));
    assert!(!IbkrExecutionEngine::new(c).is_mock());
}
