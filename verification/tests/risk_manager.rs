use axiom_sandbox::decimal::Decimal;
use axiom_sandbox::risk::manager::{RiskManager, TradeResult};
use axiom_sandbox::risk::sizing::RiskError;
use axiom_sandbox::time::Timestamp;

fn dec(text: &str) -> Decimal {
    Decimal::parse(text).unwrap()
}

#[test]
fn test_risk_manager_creation() {
    let manager = RiskManager::new(dec("100000"));

    assert_eq!(manager.current_equity(), dec("100000"));
    assert_eq!(manager.starting_equity(), dec("100000"));
    assert!(!manager.is_trading_halted());
}

#[test]
fn test_position_sizing() {
    let manager = RiskManager::new(dec("100000"));

    let result = manager
        .calculate_position_size(
            dec("100"),                  // entry
            dec("0"),                    // stop loss (100% risk)
            dec("1"),                    // 15m ATR
            dec("1"),                    // 4h ATR
            Some(dec("10000000000")), // $10B market cap
        )
        .unwrap();

    // (100,000 * 0.05) / 100 = 50
    assert_eq!(result.size, dec("50"));
}

#[test]
fn test_trade_recording() {
    let mut manager = RiskManager::new(dec("100000"));

    let result = TradeResult {
        symbol: "BTCUSDT".to_string(),
        pnl: dec("500"),
        closed_at: Timestamp::now(),
    };

    manager.record_trade_result(result);

    assert_eq!(manager.current_equity(), dec("100500"));
    assert_eq!(manager.daily_stats().trade_count, 1);
    assert_eq!(manager.daily_stats().wins, 1);
}

#[test]
fn test_circuit_breaker_trigger() {
    let mut manager = RiskManager::new(dec("100000"));

    // Lose 3% (greater than 2.5% limit)
    let result = TradeResult {
        symbol: "BTCUSDT".to_string(),
        pnl: dec("-3000"),
        closed_at: Timestamp::now(),
    };

    manager.record_trade_result(result);

    assert!(manager.is_trading_halted());

    // Should not be able to calculate new position
    let sizing =
        manager.calculate_position_size(dec("50000"), dec("49000"), dec("100"), dec("100"), None);

    assert!(matches!(
        sizing,
        Err(RiskError::CircuitBreakerTriggered { .. })
    ));
}

#[test]
fn test_daily_reset() {
    let mut manager = RiskManager::new(dec("100000"));

    // Record a loss
    manager.record_trade_result(TradeResult {
        symbol: "BTCUSDT".to_string(),
        pnl: dec("-3000"),
        closed_at: Timestamp::now(),
    });

    assert!(manager.is_trading_halted());
    assert_eq!(manager.current_equity(), dec("97000"));

    // Reset for new day
    manager.reset_daily();

    assert!(!manager.is_trading_halted());
    assert_eq!(manager.starting_equity(), dec("97000"));
    assert_eq!(manager.daily_stats().trade_count, 0);
}

#[test]
fn test_daily_loss_percentage() {
    let mut manager = RiskManager::new(dec("100000"));

    // Lose 2000 = 2%
    manager.update_equity(dec("98000"));

    let loss_pct = manager.daily_loss_percentage();
    assert_eq!(loss_pct, dec("0.02"));
}

#[test]
fn test_max_position_value() {
    let manager = RiskManager::new(dec("100000"));

    // 500% of 100,000 = 500,000
    assert_eq!(manager.max_position_value(), dec("500000"));
}

#[test]
fn test_risk_per_trade() {
    let manager = RiskManager::new(dec("100000"));

    // 5% of 100,000 = 5,000
    assert_eq!(manager.risk_per_trade(), dec("5000"));
}

#[test]
fn a_halt_lasts_a_day() {
    let mut manager = RiskManager::new(dec("100000"));
    let at = |secs: i64| Timestamp::from_timestamp(secs, 0).unwrap();
    manager.lift_expired_halt(at(1_000_000_000_000));
    assert_eq!(manager.starting_equity(), dec("100000"));
    manager.update_equity_at(dec("97000"), at(1_000));
    assert!(manager.is_trading_halted());
    manager.lift_expired_halt(at(1_000 + 24 * 3600 - 1));
    assert!(manager.is_trading_halted());
    manager.lift_expired_halt(at(1_000 + 24 * 3600));
    assert!(!manager.is_trading_halted());
    assert_eq!(manager.starting_equity(), dec("97000"));
    assert_eq!(manager.daily_loss_percentage(), dec("0"));
}
