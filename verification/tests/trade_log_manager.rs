use axiom_sandbox::data::trade_manager::{TradeAction, TradeManager};
use axiom_sandbox::data::trade_record::{TradeDirection, TradePhase};
use axiom_sandbox::decimal::Decimal;

fn dec(text: &str) -> Decimal {
    Decimal::parse(text).unwrap()
}

fn create_test_manager() -> TradeManager {
    TradeManager::new("test_trades.csv")
}

#[test]
fn test_open_trade() {
    let mut manager = create_test_manager();

    let trade = manager
        .open_trade(
            "trade-001",
            "BTCUSDT",
            TradeDirection::Long,
            dec("50000"),
            dec("49000"),
            dec("53000"),
            dec("1"),
            dec("500"),
            dec("55"), // RSI
            dec("25"), // ADX
            "StrongUptrend".to_string(),
        );

    assert_eq!(trade.id, "trade-001");
    assert_eq!(trade.phase, TradePhase::Phase1);
    assert_eq!(manager.active_trades().len(), 1);
    assert_eq!(trade.entry_rsi, dec("55"));
}

#[test]
fn test_evaluate_phase2_trigger() {
    let mut manager = create_test_manager();

    manager
        .open_trade(
            "trade-001",
            "BTCUSDT",
            TradeDirection::Long,
            dec("50000"),
            dec("49000"),
            dec("53000"),
            dec("1"),
            dec("500"),
            dec("0"),
            dec("0"),
            "Neutral".to_string(),
        );

    // At 1.5R (51500)
    let action = manager.evaluate_trade("trade-001", dec("51500"));

    match action {
        TradeAction::TransitionPhase2 {
            close_quantity,
            new_stop_loss,
        } => {
            assert_eq!(close_quantity, dec("0.33"));
            assert_eq!(new_stop_loss, dec("50000")); // Breakeven
        }
        _ => panic!("Expected Phase2 transition"),
    }
}

#[test]
fn test_execute_phase2() {
    let mut manager = create_test_manager();

    manager
        .open_trade(
            "trade-001",
            "BTCUSDT",
            TradeDirection::Long,
            dec("50000"),
            dec("49000"),
            dec("53000"),
            dec("1"),
            dec("500"),
            dec("0"),
            dec("0"),
            "Neutral".to_string(),
        );

    let action = manager.evaluate_trade("trade-001", dec("51500"));
    manager
        .execute_action("trade-001", action, dec("51500"))
        .unwrap();

    let trade = manager.find_trade("trade-001").unwrap();
    assert_eq!(trade.phase, TradePhase::Phase2);
    assert_eq!(trade.stop_loss, dec("50000"));
    assert_eq!(trade.position_size, dec("0.67"));
}

#[test]
fn test_evaluate_phase3_trigger() {
    let mut manager = create_test_manager();

    manager
        .open_trade(
            "trade-001",
            "BTCUSDT",
            TradeDirection::Long,
            dec("50000"),
            dec("49000"),
            dec("53000"),
            dec("1"),
            dec("500"),
            dec("0"),
            dec("0"),
            "Neutral".to_string(),
        );

    // At 2.5R (52500)
    let action = manager.evaluate_trade("trade-001", dec("52500"));

    match action {
        TradeAction::TransitionPhase3 { trailing_stop } => {
            // Trailing stop = 52500 - (500 * 2.0) = 51500
            assert_eq!(trailing_stop, dec("51500"));
        }
        _ => panic!("Expected Phase3 transition"),
    }
}

#[test]
fn test_stop_loss_exit() {
    let mut manager = create_test_manager();

    manager
        .open_trade(
            "trade-001",
            "BTCUSDT",
            TradeDirection::Long,
            dec("50000"),
            dec("49000"),
            dec("53000"),
            dec("1"),
            dec("500"),
            dec("0"),
            dec("0"),
            "Neutral".to_string(),
        );

    // Price hits stop loss
    let action = manager.evaluate_trade("trade-001", dec("48500"));

    match action {
        TradeAction::CloseTrade { exit_price, reason } => {
            assert_eq!(exit_price, dec("49000"));
            assert_eq!(reason, "Stop Loss");
        }
        _ => panic!("Expected CloseTrade action"),
    }
}

#[test]
fn test_take_profit_exit() {
    let mut manager = create_test_manager();

    manager
        .open_trade(
            "trade-001",
            "BTCUSDT",
            TradeDirection::Long,
            dec("50000"),
            dec("49000"),
            dec("53000"),
            dec("1"),
            dec("500"),
            dec("0"),
            dec("0"),
            "Neutral".to_string(),
        );

    // Price hits take profit
    let action = manager.evaluate_trade("trade-001", dec("53500"));

    match action {
        TradeAction::CloseTrade { exit_price, reason } => {
            assert_eq!(exit_price, dec("53000"));
            assert_eq!(reason, "Take Profit");
        }
        _ => panic!("Expected CloseTrade action"),
    }
}

#[test]
fn test_close_trade_pnl() {
    let mut manager = create_test_manager();

    manager
        .open_trade(
            "trade-001",
            "BTCUSDT",
            TradeDirection::Long,
            dec("50000"),
            dec("49000"),
            dec("53000"),
            dec("1"),
            dec("500"),
            dec("0"),
            dec("0"),
            "Neutral".to_string(),
        );

    manager
        .close_trade("trade-001", dec("51500"), "Manual")
        .unwrap();

    // Trade should be removed from active
    assert!(manager.find_trade("trade-001").is_none());
    assert_eq!(manager.active_trades().len(), 0);
}


fn open_short_trade(manager: &mut TradeManager, id: &str) {
    // Short: entry=50000, SL=51000 (above), TP=47000 (below)
    manager
        .open_trade(
            id,
            "BTCUSDT",
            TradeDirection::Short,
            dec("50000"),
            dec("51000"), // SL above entry
            dec("47000"), // TP below entry
            dec("1"),
            dec("500"),
            dec("0"),
            dec("0"),
            "Downtrend".to_string(),
        );
}

#[test]
fn test_short_evaluate_phase2_trigger() {
    let mut manager = create_test_manager();
    open_short_trade(&mut manager, "short-001");

    // Price drops to 1.5R: entry(50000) - 1.5 * risk(1000) = 48500
    let action = manager.evaluate_trade("short-001", dec("48500"));

    match action {
        TradeAction::TransitionPhase2 {
            close_quantity,
            new_stop_loss,
        } => {
            assert_eq!(close_quantity, dec("0.33"));
            assert_eq!(new_stop_loss, dec("50000")); // Breakeven
        }
        _ => panic!("Expected Phase2 transition, got {:?}", action),
    }
}

#[test]
fn test_short_stop_loss_exit() {
    let mut manager = create_test_manager();
    open_short_trade(&mut manager, "short-001");

    // Price rises above stop loss (51000)
    let action = manager.evaluate_trade("short-001", dec("51500"));

    match action {
        TradeAction::CloseTrade { exit_price, reason } => {
            assert_eq!(exit_price, dec("51000"));
            assert_eq!(reason, "Stop Loss");
        }
        _ => panic!("Expected CloseTrade action, got {:?}", action),
    }
}

#[test]
fn test_short_take_profit_exit() {
    let mut manager = create_test_manager();
    open_short_trade(&mut manager, "short-001");

    // Price drops below take profit (47000)
    let action = manager.evaluate_trade("short-001", dec("46500"));

    match action {
        TradeAction::CloseTrade { exit_price, reason } => {
            assert_eq!(exit_price, dec("47000"));
            assert_eq!(reason, "Take Profit");
        }
        _ => panic!("Expected CloseTrade action, got {:?}", action),
    }
}

#[test]
fn test_short_execute_phase2() {
    let mut manager = create_test_manager();
    open_short_trade(&mut manager, "short-001");

    let action = manager.evaluate_trade("short-001", dec("48500"));
    manager
        .execute_action("short-001", action, dec("48500"))
        .unwrap();

    let trade = manager.find_trade("short-001").unwrap();
    assert_eq!(trade.phase, TradePhase::Phase2);
    assert_eq!(trade.stop_loss, dec("50000")); // Breakeven
    assert_eq!(trade.position_size, dec("0.67"));
}

#[test]
fn test_short_evaluate_phase3_trigger() {
    let mut manager = create_test_manager();
    open_short_trade(&mut manager, "short-001");

    // Price drops to 2.5R: entry(50000) - 2.5 * risk(1000) = 47500
    let action = manager.evaluate_trade("short-001", dec("47500"));

    match action {
        TradeAction::TransitionPhase3 { trailing_stop } => {
            // Short trailing stop = 47500 + (500 * 2.0) = 48500
            assert_eq!(trailing_stop, dec("48500"));
        }
        _ => panic!("Expected Phase3 transition, got {:?}", action),
    }
}
