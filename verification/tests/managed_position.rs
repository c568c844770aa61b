use axiom_sandbox::decimal::Decimal;
use axiom_sandbox::exchange::trade_manager::{
    action_at_multiple, evaluate_position, ManagedPosition, ManagementAction, TradeState,
};
use axiom_sandbox::types::position::Position;

fn dec(text: &str) -> Decimal {
    Decimal::parse(text).unwrap()
}

fn create_long_position() -> ManagedPosition {
    ManagedPosition::new(
        "BTCUSDT",
        Position::Long,
        dec("50000"), // entry
        dec("49000"), // stop loss (1R = 1000)
        dec("53000"), // take profit
        dec("1"),     // quantity
        dec("500"),   // ATR
    )
}

#[test]
fn trade_manager_test_r_multiple_calculation() {
    let position = create_long_position();

    // At entry
    assert_eq!(position.current_r_multiple(dec("50000")), dec("0"));

    // At 1R profit
    assert_eq!(position.current_r_multiple(dec("51000")), dec("1"));

    // At 1.5R profit
    assert_eq!(position.current_r_multiple(dec("51500")), dec("1.5"));

    // At 1R loss
    assert_eq!(position.current_r_multiple(dec("49000")), dec("-1"));
}

#[test]
fn test_first_tp_trigger() {
    let position = create_long_position();

    // Below 1.5R - should not trigger
    assert!(!position.should_hit_first_tp(dec("51400")));

    // At 1.5R - should trigger
    assert!(position.should_hit_first_tp(dec("51500")));

    // Above 1.5R - should trigger
    assert!(position.should_hit_first_tp(dec("52000")));
}

#[test]
fn test_trailing_stop_trigger() {
    let position = create_long_position();

    // Below 2.5R - should not trigger
    assert!(!position.should_activate_trailing(dec("52400")));

    // At 2.5R - should trigger
    assert!(position.should_activate_trailing(dec("52500")));
}

#[test]
fn test_first_tp_close_quantity() {
    let position = create_long_position();

    // 33% of 1 = 0.33
    assert_eq!(position.first_tp_close_quantity(), dec("0.33"));
}

#[test]
fn test_trailing_stop_offset() {
    let position = create_long_position();

    // ATR 500 * 2.0 = 1000
    assert_eq!(position.trailing_stop_offset(), dec("1000"));
}

#[test]
fn test_state_transition_first_tp() {
    let mut position = create_long_position();

    position.transition_to_first_tp(dec("0.33"), dec("495"));

    assert_eq!(position.state, TradeState::FirstTpHit);
    assert_eq!(position.current_quantity, dec("0.67"));
    assert_eq!(position.current_stop_loss, dec("50000")); // Breakeven
    assert_eq!(position.realized_pnl, dec("495"));
}

#[test]
fn test_evaluate_position_first_tp() {
    let position = create_long_position();

    let action = evaluate_position(&position, dec("51500"));

    match action {
        ManagementAction::ExecuteFirstTp {
            quantity_to_close,
            new_stop_loss,
        } => {
            assert_eq!(quantity_to_close, dec("0.33"));
            assert_eq!(new_stop_loss, dec("50000"));
        }
        _ => panic!("Expected ExecuteFirstTp action"),
    }
}

#[test]
fn test_evaluate_position_trailing() {
    let position = create_long_position();

    let action = evaluate_position(&position, dec("52500"));

    match action {
        ManagementAction::ActivateTrailingStop { offset } => {
            assert_eq!(offset, dec("1000"));
        }
        _ => panic!("Expected ActivateTrailingStop action"),
    }
}


fn create_short_position() -> ManagedPosition {
    // Short: entry=50000, SL=51000 (above), TP=47000 (below)
    // risk_per_unit = |50000 - 51000| = 1000
    ManagedPosition::new(
        "BTCUSDT",
        Position::Short,
        dec("50000"),
        dec("51000"),
        dec("47000"),
        dec("1"),
        dec("500"),
    )
}

#[test]
fn trade_manager_test_short_r_multiple_calculation() {
    let position = create_short_position();

    // At entry: 0R
    assert_eq!(position.current_r_multiple(dec("50000")), dec("0"));

    // Price drops 1000 => +1R for Short
    assert_eq!(position.current_r_multiple(dec("49000")), dec("1"));

    // Price drops 1500 => +1.5R
    assert_eq!(position.current_r_multiple(dec("48500")), dec("1.5"));

    // Price rises 1000 => -1R
    assert_eq!(position.current_r_multiple(dec("51000")), dec("-1"));
}

#[test]
fn test_short_first_tp_trigger() {
    let position = create_short_position();

    // Below 1.5R — should not trigger
    assert!(!position.should_hit_first_tp(dec("48600")));

    // At 1.5R (price drops to 48500) — should trigger
    assert!(position.should_hit_first_tp(dec("48500")));

    // Above 1.5R — should trigger
    assert!(position.should_hit_first_tp(dec("48000")));
}

#[test]
fn test_short_trailing_stop_trigger() {
    let position = create_short_position();

    // Below 2.5R — should not trigger
    assert!(!position.should_activate_trailing(dec("47600")));

    // At 2.5R (price drops to 47500) — should trigger
    assert!(position.should_activate_trailing(dec("47500")));
}

#[test]
fn test_short_evaluate_position_first_tp() {
    let position = create_short_position();

    // At 1.5R for Short (price=48500)
    let action = evaluate_position(&position, dec("48500"));

    match action {
        ManagementAction::ExecuteFirstTp {
            quantity_to_close,
            new_stop_loss,
        } => {
            assert_eq!(quantity_to_close, dec("0.33"));
            assert_eq!(new_stop_loss, dec("50000")); // Breakeven
        }
        _ => panic!("Expected ExecuteFirstTp action"),
    }
}

#[test]
fn test_short_evaluate_position_trailing() {
    let position = create_short_position();

    // At 2.5R for Short (price=47500)
    let action = evaluate_position(&position, dec("47500"));

    match action {
        ManagementAction::ActivateTrailingStop { offset } => {
            // ATR 500 * 2.0 = 1000
            assert_eq!(offset, dec("1000"));
        }
        _ => panic!("Expected ActivateTrailingStop action"),
    }
}

#[test]
fn multiples_decide_what_is_done() {
    let mut position = create_long_position();
    assert!(matches!(
        action_at_multiple(&position, dec("1.4999")),
        Some(ManagementAction::Hold)
    ));
    match action_at_multiple(&position, dec("1.50")) {
        Some(ManagementAction::ExecuteFirstTp { quantity_to_close, new_stop_loss }) => {
            assert_eq!(quantity_to_close, dec("0.33"));
            assert_eq!(new_stop_loss, dec("50000"));
        }
        _ => panic!("Expected ExecuteFirstTp action"),
    }
    match action_at_multiple(&position, dec("2.5")) {
        Some(ManagementAction::ActivateTrailingStop { offset }) => assert_eq!(offset, dec("1000")),
        _ => panic!("Expected ActivateTrailingStop action"),
    }
    position.state = TradeState::FirstTpHit;
    assert!(matches!(
        action_at_multiple(&position, dec("1.6")),
        Some(ManagementAction::Hold)
    ));
}
