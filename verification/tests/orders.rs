use axiom_sandbox::decimal::Decimal;
use axiom_sandbox::exchange::orders::{
    OcoOrderRequest, OrderRequest, OrderSide, OrderStatus, OrderType,
};

fn dec(text: &str) -> Decimal {
    Decimal::parse(text).unwrap()
}

#[test]
fn test_order_side_opposite() {
    assert_eq!(OrderSide::Buy.opposite(), OrderSide::Sell);
    assert_eq!(OrderSide::Sell.opposite(), OrderSide::Buy);
}

#[test]
fn test_order_status_active() {
    assert!(OrderStatus::New.is_active());
    assert!(OrderStatus::PartiallyFilled.is_active());
    assert!(!OrderStatus::Filled.is_active());
    assert!(!OrderStatus::Canceled.is_active());
}

#[test]
fn test_limit_order_creation() {
    let order = OrderRequest::limit("BTCUSDT", OrderSide::Buy, dec("0.1"), dec("50000"));

    assert_eq!(order.symbol, "BTCUSDT");
    assert_eq!(order.side, OrderSide::Buy);
    assert_eq!(order.order_type, OrderType::Limit);
    assert_eq!(order.quantity, dec("0.1"));
    assert_eq!(order.price, Some(dec("50000")));
}

#[test]
fn test_oco_close_long() {
    let oco = OcoOrderRequest::close_long(
        "BTCUSDT",
        dec("0.1"),
        dec("55000"), // TP
        dec("48000"), // SL trigger
        dec("0.002"), // 0.2% slippage
    );

    assert_eq!(oco.side, OrderSide::Sell);
    assert_eq!(oco.take_profit_price, dec("55000"));
    assert_eq!(oco.stop_loss_trigger, dec("48000"));
    // SL limit = 48000 * 0.998 = 47904
    assert_eq!(oco.stop_loss_limit, dec("47904"));
}

#[test]
fn test_oco_close_short() {
    let oco = OcoOrderRequest::close_short(
        "BTCUSDT",
        dec("0.1"),
        dec("45000"), // TP
        dec("52000"), // SL trigger
        dec("0.002"), // 0.2% slippage
    );

    assert_eq!(oco.side, OrderSide::Buy);
    // SL limit = 52000 * 1.002 = 52104
    assert_eq!(oco.stop_loss_limit, dec("52104"));
}
