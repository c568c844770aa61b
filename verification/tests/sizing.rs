use axiom_sandbox::decimal::Decimal;
use axiom_sandbox::risk::sizing::{
    calculate_position_size, limit_size, RiskError, SizeFigures, SizingInput,
};

fn dec(text: &str) -> Decimal {
    Decimal::parse(text).unwrap()
}

fn default_input() -> SizingInput {
    // A stop far below the entry keeps the position under the cap.
    SizingInput {
        equity: dec("100000"),
        entry_price: dec("100"),
        stop_loss: dec("0"), // 100% risk (extreme but good for testing)
        atr_15m: dec("1"),
        atr_4h: dec("1"),
        market_cap: Some(dec("10000000000")), // $10B
    }
}

#[test]
fn test_basic_position_sizing() {
    let input = default_input();
    let result = calculate_position_size(&input).unwrap();

    // Base size = (100,000 * 0.05) / 100 = 50
    // Position value = 50 * 100 = 5,000 < 500,000 cap
    assert_eq!(result.base_size, dec("50"));
    assert_eq!(result.size, dec("50"));
    assert!(!result.volatility_reduced);
    assert!(!result.market_cap_reduced);
    assert!(!result.liquidity_capped);
}

#[test]
fn test_volatility_reduction() {
    let mut input = default_input();
    input.atr_15m = dec("2.5"); // Ratio = 2.5, above 2.0 threshold

    let result = calculate_position_size(&input).unwrap();

    // Base = 50, reduced by 50% = 25
    assert_eq!(result.base_size, dec("50"));
    assert_eq!(result.size, dec("25"));
    assert!(result.volatility_reduced);
    assert_eq!(result.atr_ratio, dec("2.5"));
}

#[test]
fn test_volatility_skip() {
    let mut input = default_input();
    input.atr_15m = dec("3.5"); // Ratio = 3.5, above 3.0 threshold

    let result = calculate_position_size(&input);

    assert!(matches!(result, Err(RiskError::VolatilityTooHigh { .. })));
}

#[test]
fn test_market_cap_reduction() {
    let mut input = default_input();
    input.market_cap = Some(dec("500000000")); // $500M, below $1B

    let result = calculate_position_size(&input).unwrap();

    // Base = 50, reduced by 50% = 25
    assert_eq!(result.size, dec("25"));
    assert!(result.market_cap_reduced);
}

#[test]
fn test_combined_reductions() {
    let mut input = default_input();
    input.atr_15m = dec("2.5"); // Volatility reduction
    input.market_cap = Some(dec("500000000")); // Market cap reduction

    let result = calculate_position_size(&input).unwrap();

    // Base 50 * 0.5 (volatility) * 0.5 (market cap) = 12.5
    assert_eq!(result.size, dec("12.5"));
    assert!(result.volatility_reduced);
    assert!(result.market_cap_reduced);
}

#[test]
fn test_liquidity_cap() {
    let mut input = default_input();
    input.entry_price = dec("100");
    input.stop_loss = dec("99.99"); // Tiny risk → huge base position

    let result = calculate_position_size(&input).unwrap();

    // risk_per_unit = 0.01
    // Base size = 5,000 / 0.01 = 500,000 units
    // Max position value = 100,000 * 5.0 = 500,000
    // Max size = 500,000 / 100 = 5,000 units
    // 500,000 > 5,000 → capped
    assert!(result.liquidity_capped);
    assert_eq!(result.size, dec("5000"));
}

#[test]
fn test_invalid_stop_loss() {
    let mut input = default_input();
    input.stop_loss = input.entry_price; // Same as entry

    let result = calculate_position_size(&input);

    assert!(matches!(result, Err(RiskError::InvalidStopLoss { .. })));
}

#[test]
fn test_invalid_equity() {
    let mut input = default_input();
    input.equity = dec("0");

    let result = calculate_position_size(&input);

    assert!(matches!(result, Err(RiskError::InvalidEquity { .. })));
}

#[test]
fn limits_are_applied_in_turn() {
    let mut figures = SizeFigures {
        risk_amount: dec("800"),
        base_size: dec("8"),
        max_size: dec("5"),
        atr_ratio: dec("2"),
        market_cap: None,
    };
    let r = limit_size(&figures).unwrap();
    assert_eq!(r.size, dec("5"));
    assert!(r.liquidity_capped && !r.volatility_reduced && !r.market_cap_reduced);

    figures.atr_ratio = dec("2.01");
    let r = limit_size(&figures).unwrap();
    assert_eq!(r.size, dec("4"));
    assert!(!r.liquidity_capped && r.volatility_reduced);

    figures.market_cap = Some(dec("1"));
    let r = limit_size(&figures).unwrap();
    assert_eq!(r.size, dec("2"));
    assert_eq!(r.base_size, dec("8"));
    assert_eq!(r.risk_amount, dec("800"));
    assert_eq!(r.atr_ratio, dec("2.01"));
    assert!(r.market_cap_reduced && r.volatility_reduced);
}

#[test]
fn the_amount_at_risk_is_capped() {
    let mut input = default_input();
    input.stop_loss = dec("99.7");
    input.entry_price = dec("100");
    input.equity = dec("1000");
    input.atr_15m = dec("2.5");
    for (distance, equity) in [("0.3", "1000"), ("0.7", "999.99"), ("33", "12345.678")] {
        input.stop_loss = dec("100").checked_sub(&dec(distance)).unwrap();
        input.equity = dec(equity);
        let r = calculate_position_size(&input).unwrap();
        let risk = r.base_size.checked_mul(&dec(distance)).unwrap();
        let share = dec(equity).checked_mul(&dec("0.05")).unwrap();
        assert_eq!(r.risk_amount, share);
        let over = risk.checked_sub(&share).unwrap();
        assert!(over.abs().lt(&dec("0.000000000000000000001")));
        assert!(r.size.le(&r.base_size));
        assert!(dec("0").lt(&r.size));
        let worth = r.size.checked_mul(&dec("100")).unwrap();
        assert!(worth.le(&dec(equity).checked_mul(&dec("5.0000000001")).unwrap()));
    }
}
