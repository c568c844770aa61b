use axiom_sandbox::decimal::Decimal;
use axiom_sandbox::types::position::Position;
use axiom_sandbox::websocket::messages::{KlineData, KlineEvent};
use axiom_sandbox::websocket::streams::{
    build_market_stream_url, KlineBuffer, StreamEvent, TrackedPosition, TradePhase,
};

fn dec(text: &str) -> Decimal {
    Decimal::parse(text).unwrap()
}

#[test]
fn test_build_market_stream_url() {
    let url = build_market_stream_url(&["BTCUSDT"], &["15m", "1h"]);
    assert!(url.starts_with("wss://fstream.binance.com"));
    assert!(url.contains("btcusdt@aggTrade"));
    assert!(url.contains("btcusdt@kline_15m"));
    assert!(url.contains("btcusdt@kline_1h"));
}

#[test]
fn test_tracked_position_r_multiple() {
    let pos = TrackedPosition::new(
        "BTCUSDT",
        Position::Long,
        dec("50000"),
        dec("49000"),
        dec("53000"),
        dec("1"),
        dec("500"),
    );

    // At entry: 0R
    assert_eq!(pos.current_r_multiple(dec("50000")), dec("0"));

    // At 1.5R
    assert_eq!(pos.current_r_multiple(dec("51500")), dec("1.5"));

    // At 2.5R
    assert_eq!(pos.current_r_multiple(dec("52500")), dec("2.5"));
}

#[test]
fn test_phase_triggers() {
    let pos = TrackedPosition::new(
        "BTCUSDT",
        Position::Long,
        dec("50000"),
        dec("49000"),
        dec("53000"),
        dec("1"),
        dec("500"),
    );

    assert!(!pos.should_trigger_phase2(dec("50000")));
    assert!(pos.should_trigger_phase2(dec("51500")));

    assert!(!pos.should_trigger_phase3(dec("51500")));
    assert!(pos.should_trigger_phase3(dec("52500")));
}

#[test]
fn streams_test_phase_transitions() {
    let mut pos = TrackedPosition::new(
        "BTCUSDT",
        Position::Long,
        dec("50000"),
        dec("49000"),
        dec("53000"),
        dec("1"),
        dec("500"),
    );

    assert_eq!(pos.phase, TradePhase::Phase1);

    pos.transition_phase2();
    assert_eq!(pos.phase, TradePhase::Phase2);
    assert_eq!(pos.stop_loss, dec("50000")); // Breakeven

    pos.transition_phase3();
    assert_eq!(pos.phase, TradePhase::Phase3);
}

#[test]
fn test_trailing_stop_calculation() {
    let pos = TrackedPosition::new(
        "BTCUSDT",
        Position::Long,
        dec("50000"),
        dec("49000"),
        dec("53000"),
        dec("1"),
        dec("500"),
    );

    // Trailing stop = current - (2.0 * ATR) = 52000 - 1000 = 51000
    assert_eq!(pos.trailing_stop_price(dec("52000")), dec("51000"));
}

#[test]
fn test_kline_buffer() {
    let mut buffer = KlineBuffer::new(3);

    // Create mock kline events
    let kline1 = create_mock_kline("BTCUSDT", "15m", 1);
    let kline2 = create_mock_kline("BTCUSDT", "15m", 2);
    let kline3 = create_mock_kline("BTCUSDT", "15m", 3);
    let kline4 = create_mock_kline("BTCUSDT", "15m", 4);

    buffer.push(kline1);
    buffer.push(kline2);
    buffer.push(kline3);

    let klines = buffer.get("BTCUSDT", "15m").unwrap();
    assert_eq!(klines.len(), 3);

    // Adding 4th should remove oldest
    buffer.push(kline4);
    let klines = buffer.get("BTCUSDT", "15m").unwrap();
    assert_eq!(klines.len(), 3);
}

fn create_mock_kline(symbol: &str, interval: &str, idx: u64) -> KlineEvent {
    KlineEvent {
        event_type: "kline".to_string(),
        event_time: idx,
        symbol: symbol.to_string(),
        kline: KlineData {
            start_time: idx,
            close_time: idx + 1,
            symbol: symbol.to_string(),
            interval: interval.to_string(),
            open: "50000".to_string(),
            close: "50100".to_string(),
            high: "50200".to_string(),
            low: "49900".to_string(),
            volume: "100".to_string(),
            num_trades: 1000,
            is_closed: true,
            quote_volume: "5000000".to_string(),
        },
    }
}


fn create_short_position() -> TrackedPosition {
    // Short BTCUSDT: entry=50000, SL=51000 (above), TP=47000 (below)
    // risk_per_unit = |50000 - 51000| = 1000
    TrackedPosition::new(
        "BTCUSDT",
        Position::Short,
        dec("50000"),
        dec("51000"),
        dec("47000"),
        dec("1"),
        dec("500"),
    )
}

#[test]
fn streams_test_short_r_multiple_calculation() {
    let pos = create_short_position();

    // At entry: 0R
    assert_eq!(pos.current_r_multiple(dec("50000")), dec("0"));

    // Price drops 1500 (favorable) => +1.5R
    assert_eq!(pos.current_r_multiple(dec("48500")), dec("1.5"));

    // Price drops 2500 (favorable) => +2.5R
    assert_eq!(pos.current_r_multiple(dec("47500")), dec("2.5"));

    // Price rises 1000 (adverse) => -1R
    assert_eq!(pos.current_r_multiple(dec("51000")), dec("-1"));
}

#[test]
fn test_short_phase_triggers() {
    let pos = create_short_position();

    // At entry — no trigger
    assert!(!pos.should_trigger_phase2(dec("50000")));

    // Price drops to 1.5R (48500) — Phase 2 should trigger
    assert!(pos.should_trigger_phase2(dec("48500")));

    // Price drops to 2.5R (47500) — Phase 3 should trigger
    assert!(pos.should_trigger_phase3(dec("47500")));

    // Price rises — should NOT trigger
    assert!(!pos.should_trigger_phase2(dec("51000")));
    assert!(!pos.should_trigger_phase3(dec("51000")));
}

#[test]
fn test_short_phase_transitions() {
    let mut pos = create_short_position();

    assert_eq!(pos.phase, TradePhase::Phase1);

    pos.transition_phase2();
    assert_eq!(pos.phase, TradePhase::Phase2);
    assert_eq!(pos.stop_loss, dec("50000")); // Breakeven = entry price

    pos.transition_phase3();
    assert_eq!(pos.phase, TradePhase::Phase3);
}

#[test]
fn test_short_trailing_stop_calculation() {
    let pos = create_short_position();

    // Short trailing stop = current_price + (2.0 * ATR)
    // = 47500 + (2 * 500) = 47500 + 1000 = 48500
    assert_eq!(pos.trailing_stop_price(dec("47500")), dec("48500"));
}

#[test]
fn multiples_move_the_phase_upward() {
    let mut pos = TrackedPosition::new(
        "BTCUSDT",
        Position::Long,
        dec("50000"),
        dec("49000"),
        dec("53000"),
        dec("1"),
        dec("500"),
    );
    assert!(matches!(pos.follow_multiple("BTCUSDT", dec("51000"), dec("1")), Some(None)));
    match pos.follow_multiple("BTCUSDT", dec("51500"), dec("1.5")) {
        Some(Some(StreamEvent::Phase2Triggered { symbol, close_quantity, new_stop_loss })) => {
            assert_eq!(symbol, "BTCUSDT");
            assert_eq!(close_quantity, dec("0.33"));
            assert_eq!(new_stop_loss, dec("50000"));
        }
        _ => panic!("Expected Phase2Triggered"),
    }
    assert_eq!(pos.phase, TradePhase::Phase2);
    assert!(matches!(pos.follow_multiple("BTCUSDT", dec("51500"), dec("1.5")), Some(None)));
    match pos.follow_multiple("BTCUSDT", dec("52500"), dec("2.5")) {
        Some(Some(StreamEvent::Phase3Triggered { trailing_stop, .. })) => {
            assert_eq!(trailing_stop, dec("51500"));
        }
        _ => panic!("Expected Phase3Triggered"),
    }
    assert!(matches!(pos.follow_multiple("BTCUSDT", dec("52500"), dec("9")), Some(None)));
}
