use axiom_sandbox::decimal::Decimal;
use axiom_sandbox::exchange::account::parse_usdt_balance_from_json;
use axiom_sandbox::exchange::engine::{ExecutionEngine, FundingRate, PriceTicker};
use axiom_sandbox::exchange::orders::{ExecutionError, OrderSide};
use axiom_sandbox::exchange::trade_manager::{ManagementAction, TradeState};
use axiom_sandbox::time::Timestamp;
use axiom_sandbox::types::position::Position;

fn now() -> Timestamp {
    Timestamp::from_timestamp(1_700_000_000, 0).unwrap()
}

fn dec(text: &str) -> Decimal {
    Decimal::parse(text).unwrap()
}

#[test]
fn test_fetch_account_balance_parses_json() {
    let mock_response = r#"{
        "assets": [
            {
                "asset": "BNB",
                "walletBalance": "0.50000000",
                "availableBalance": "0.50000000"
            },
            {
                "asset": "USDT",
                "walletBalance": "12345.67",
                "availableBalance": "10000.00"
            }
        ]
    }"#;

    let balance =
        parse_usdt_balance_from_json(mock_response).unwrap();
    // free (10000.00) + locked (2345.67) == walletBalance (12345.67)
    assert_eq!(balance, dec("12345.67"));
}

#[test]
fn test_fetch_account_balance_missing_usdt() {
    let mock_response = r#"{ "assets": [{ "asset": "BNB", "walletBalance": "1.0", "availableBalance": "1.0" }] }"#;
    assert!(parse_usdt_balance_from_json(mock_response).is_err());
}

#[test]
fn test_fetch_account_balance_missing_assets() {
    let mock_response = r#"{ "feeTier": 0 }"#;
    assert!(parse_usdt_balance_from_json(mock_response).is_err());
}


#[test]
fn test_open_position_mock() {
    let mut engine = ExecutionEngine::new_mock();

    let position = engine
        .open_position(
            "BTCUSDT",
            Position::Long,
            dec("50000"),
            dec("49000"),
            dec("53000"),
            dec("1"),
            dec("500"),
            None,
            now(),
        )
        .unwrap()
        .unwrap();

    assert_eq!(position.symbol, "BTCUSDT");
    assert_eq!(position.state, TradeState::Open);
}

#[test]
fn test_funding_rate_check() {
    let mut engine = ExecutionEngine::new_mock();

    let acceptable = FundingRate {
        symbol: "BTCUSDT".to_string(),
        rate: dec("0.0002"),
        next_funding_time: 0,
    };

    assert!(engine.check_funding_rate(&acceptable).is_ok());

    let too_high = FundingRate {
        symbol: "BTCUSDT".to_string(),
        rate: dec("0.0005"),
        next_funding_time: 0,
    };

    assert!(matches!(
        engine.check_funding_rate(&too_high),
        Err(ExecutionError::FundingRateTooHigh { .. })
    ));
}

#[test]
fn test_calculate_limit_price() {
    let mut engine = ExecutionEngine::new_mock();

    let ticker = PriceTicker {
        symbol: "BTCUSDT".to_string(),
        price: dec("50000"),
        bid: dec("49990"),
        ask: dec("50010"),
    };

    // Buy: ask + 0.2% = 50010 * 1.002 = 50110.02
    let buy_price = engine.calculate_limit_price(&ticker, OrderSide::Buy);
    assert_eq!(buy_price, dec("50110.02"));

    // Sell: bid - 0.2% = 49990 * 0.998 = 49890.02
    let sell_price = engine.calculate_limit_price(&ticker, OrderSide::Sell);
    assert_eq!(sell_price, dec("49890.02"));
}

#[test]
fn test_monitor_position_first_tp() {
    let mut engine = ExecutionEngine::new_mock();

    engine
        .open_position(
            "BTCUSDT",
            Position::Long,
            dec("50000"),
            dec("49000"),
            dec("53000"),
            dec("1"),
            dec("500"),
            None,
            now(),
        )
        .unwrap()
        .unwrap();

    let action = engine
        .monitor_position("BTCUSDT", dec("51550"), now())
        .unwrap()
        .unwrap();

    match action {
        ManagementAction::ExecuteFirstTp { .. } => {}
        _ => panic!("Expected ExecuteFirstTp action"),
    }

    let position = engine.get_position("BTCUSDT").unwrap();
    assert_eq!(position.state, TradeState::FirstTpHit);
}

#[test]
fn test_monitor_position_trailing() {
    let mut engine = ExecutionEngine::new_mock();

    engine
        .open_position(
            "BTCUSDT",
            Position::Long,
            dec("50000"),
            dec("49000"),
            dec("53000"),
            dec("1"),
            dec("500"),
            None,
            now(),
        )
        .unwrap()
        .unwrap();

    let action = engine
        .monitor_position("BTCUSDT", dec("52550"), now())
        .unwrap()
        .unwrap();

    match action {
        ManagementAction::ActivateTrailingStop { offset } => {
            assert_eq!(offset, dec("1000")); // 500 * 2.0
        }
        _ => panic!("Expected ActivateTrailingStop action"),
    }

    let position = engine.get_position("BTCUSDT").unwrap();
    assert_eq!(position.state, TradeState::TrailingActive);
}

#[test]
fn test_close_position() {
    let mut engine = ExecutionEngine::new_mock();

    engine
        .open_position(
            "BTCUSDT",
            Position::Long,
            dec("50000"),
            dec("49000"),
            dec("53000"),
            dec("1"),
            dec("500"),
            None,
            now(),
        )
        .unwrap()
        .unwrap();

    engine.close_position("BTCUSDT", now()).unwrap().unwrap();

    let position = engine.get_position("BTCUSDT").unwrap();
    assert_eq!(position.state, TradeState::Closed);
    assert!(!position.is_active());
}

#[test]
fn test_is_top_coin() {
    assert!(ExecutionEngine::is_top_coin("BTCUSDT"));
    assert!(ExecutionEngine::is_top_coin("ETHUSDT"));
    assert!(!ExecutionEngine::is_top_coin("OBSCUREUSDT"));
}


#[test]
fn test_short_open_position_mock() {
    let mut engine = ExecutionEngine::new_mock();

    let position = engine
        .open_position(
            "BTCUSDT",
            Position::Short,
            dec("50000"),
            dec("51000"),
            dec("47000"),
            dec("1"),
            dec("500"),
            None,
            now(),
        )
        .unwrap()
        .unwrap();

    assert_eq!(position.symbol, "BTCUSDT");
    assert_eq!(position.direction, Position::Short);
    assert_eq!(position.state, TradeState::Open);
}

#[test]
fn test_short_monitor_position_first_tp() {
    let mut engine = ExecutionEngine::new_mock();

    engine
        .open_position(
            "BTCUSDT",
            Position::Short,
            dec("50000"),
            dec("51000"),
            dec("47000"),
            dec("1"),
            dec("500"),
            None,
            now(),
        )
        .unwrap()
        .unwrap();

    let action = engine
        .monitor_position("BTCUSDT", dec("48450"), now())
        .unwrap()
        .unwrap();

    match action {
        ManagementAction::ExecuteFirstTp { .. } => {}
        _ => panic!("Expected ExecuteFirstTp action for Short"),
    }

    let position = engine.get_position("BTCUSDT").unwrap();
    assert_eq!(position.state, TradeState::FirstTpHit);
}

#[test]
fn test_short_monitor_position_trailing() {
    let mut engine = ExecutionEngine::new_mock();

    engine
        .open_position(
            "BTCUSDT",
            Position::Short,
            dec("50000"),
            dec("51000"),
            dec("47000"),
            dec("1"),
            dec("500"),
            None,
            now(),
        )
        .unwrap()
        .unwrap();

    let action = engine
        .monitor_position("BTCUSDT", dec("47450"), now())
        .unwrap()
        .unwrap();

    match action {
        ManagementAction::ActivateTrailingStop { offset } => {
            assert_eq!(offset, dec("1000")); // 500 * 2.0
        }
        _ => panic!("Expected ActivateTrailingStop action for Short"),
    }

    let position = engine.get_position("BTCUSDT").unwrap();
    assert_eq!(position.state, TradeState::TrailingActive);
}
