use axiom_sandbox::decimal::Decimal;
use axiom_sandbox::types::position::Position;
use axiom_sandbox::types::trade::Trade;

fn dec(text: &str) -> Decimal {
    Decimal::parse(text).unwrap()
}

#[test]
fn test_trade_creation_long() {
    let trade = Trade::new(
        "BTCUSDT",
        Position::Long,
        dec("50000"),
        dec("49000"),
        dec("0.1"),
    );

    assert_eq!(trade.symbol, "BTCUSDT");
    assert_eq!(trade.position, Position::Long);
    assert_eq!(trade.entry_price, dec("50000"));
    assert_eq!(trade.stop_loss, dec("49000"));
    assert_eq!(trade.risk_per_unit(), dec("1000"));

    // Check TP1 at 2.0R: 50000 + (1000 * 2) = 52000
    assert_eq!(trade.take_profits[0].price, dec("52000"));
    assert_eq!(trade.take_profits[0].r_multiple, dec("2"));

    // Check TP2 at 3.0R: 50000 + (1000 * 3) = 53000
    assert_eq!(trade.take_profits[1].price, dec("53000"));
    assert_eq!(trade.take_profits[1].r_multiple, dec("3"));
}

#[test]
fn test_trade_creation_short() {
    let trade = Trade::new(
        "ETHUSDT",
        Position::Short,
        dec("3000"),
        dec("3100"),
        dec("1.0"),
    );

    assert_eq!(trade.position, Position::Short);
    assert_eq!(trade.risk_per_unit(), dec("100"));

    // Check TP1 at 2.0R: 3000 - (100 * 2) = 2800
    assert_eq!(trade.take_profits[0].price, dec("2800"));

    // Check TP2 at 3.0R: 3000 - (100 * 3) = 2700
    assert_eq!(trade.take_profits[1].price, dec("2700"));
}

#[test]
fn test_trade_stop_loss() {
    let trade = Trade::new(
        "BTCUSDT",
        Position::Long,
        dec("50000"),
        dec("49000"),
        dec("0.1"),
    );

    assert!(!trade.is_stopped_out(dec("50000")));
    assert!(!trade.is_stopped_out(dec("49001")));
    assert!(trade.is_stopped_out(dec("49000")));
    assert!(trade.is_stopped_out(dec("48000")));
}

#[test]
fn test_trade_unrealized_pnl() {
    let trade = Trade::new(
        "BTCUSDT",
        Position::Long,
        dec("50000"),
        dec("49000"),
        dec("0.1"),
    );

    // Price up 1000 -> 0.1 * 1000 = 100 profit
    assert_eq!(trade.unrealized_pnl(dec("51000")), dec("100"));

    // Price down 500 -> 0.1 * -500 = -50 loss
    assert_eq!(trade.unrealized_pnl(dec("49500")), dec("-50"));
}

#[test]
fn test_trade_update_take_profits() {
    let mut trade = Trade::new(
        "BTCUSDT",
        Position::Long,
        dec("50000"),
        dec("49000"),
        dec("0.1"),
    );

    // Price below TP1
    let hit = trade.update_take_profits(dec("51000"));
    assert!(hit.is_empty());

    // Price hits TP1 (52000)
    let hit = trade.update_take_profits(dec("52000"));
    assert_eq!(hit, vec![0]);
    assert!(trade.take_profits[0].hit);
    assert!(!trade.take_profits[1].hit);

    // Price hits TP2 (53000)
    let hit = trade.update_take_profits(dec("53500"));
    assert_eq!(hit, vec![1]);
    assert!(trade.take_profits[1].hit);
}
