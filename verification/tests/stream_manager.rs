use axiom_sandbox::decimal::Decimal;
use axiom_sandbox::types::position::Position;
use axiom_sandbox::websocket::manager::{
    order_event, route_event, AfterEnd, ManagerConfig, Routed, SystemEvent, WebSocketManager,
};
use axiom_sandbox::websocket::messages::{
    classify_event, AccountUpdate, AggTrade, OrderEvent, OrderUpdate, WsMessage,
};
use axiom_sandbox::websocket::streams::{
    build_user_stream_url, StreamEvent, StreamProcessor, StreamType, TrackedPosition,
};

fn dec(text: &str) -> Decimal {
    Decimal::parse(text).unwrap()
}

fn position() -> TrackedPosition {
    TrackedPosition::new(
        "BTCUSDT",
        Position::Long,
        Decimal::from_u32(50000),
        Decimal::from_u32(49000),
        Decimal::from_u32(53000),
        Decimal::from_u32(1),
        Decimal::from_u32(500),
    )
}

#[test]
fn test_manager_config_default() {
    let config = ManagerConfig::default();
    assert!(config.enable_market_stream);
    assert!(!config.enable_user_stream);
    assert!(config.symbols.contains(&"BTCUSDT".to_string()));
}

#[test]
fn test_manager_creation() {
    let manager = WebSocketManager::new(ManagerConfig::default());
    assert!(!manager.is_shutdown());
}

#[test]
fn test_track_position() {
    let mut manager = WebSocketManager::new(ManagerConfig::default());

    manager.track_position(position());

    // Position should be tracked
    let processor = manager.processor();
    assert!(processor.kline_buffer().get("BTCUSDT", "15m").is_none()); // No klines yet
}

#[test]
fn test_shutdown() {
    let mut manager = WebSocketManager::new(ManagerConfig::default());

    assert!(!manager.is_shutdown());
    manager.shutdown();
    assert!(manager.is_shutdown());
}

fn trade(symbol: &str, price: &str) -> AggTrade {
    AggTrade {
        event_type: "aggTrade".to_string(),
        event_time: 123,
        symbol: symbol.to_string(),
        agg_trade_id: 1,
        price: price.to_string(),
        quantity: "1".to_string(),
        first_trade_id: 1,
        last_trade_id: 1,
        trade_time: 456,
        is_buyer_maker: true,
    }
}

fn order(status: &str, price: &str) -> OrderUpdate {
    OrderUpdate {
        event_type: "executionReport".to_string(),
        event_time: 1,
        symbol: "BTCUSDT".to_string(),
        client_order_id: "c".to_string(),
        side: "BUY".to_string(),
        order_type: "LIMIT".to_string(),
        time_in_force: "GTC".to_string(),
        quantity: "1.5".to_string(),
        price: price.to_string(),
        stop_price: "0".to_string(),
        status: status.to_string(),
        order_id: 77,
        last_executed_qty: "0".to_string(),
        last_executed_price: "0".to_string(),
        cumulative_qty: "0".to_string(),
    }
}

#[test]
fn streams_are_started_as_configured() {
    let mut config = ManagerConfig::default();
    config.symbols = vec!["BTCUSDT".to_string(), "EthUsdt".to_string()];
    config.intervals = vec!["15m".to_string()];
    config.enable_user_stream = true;
    assert_eq!(WebSocketManager::new(config.clone()).streams().len(), 1);
    config.listen_key = Some("KEY".to_string());
    let plans = WebSocketManager::new(config).streams();
    assert_eq!(plans[0].stream_type, StreamType::Market);
    assert_eq!(
        plans[0].url,
        "wss://fstream.binance.com/stream?streams=btcusdt@aggTrade/btcusdt@kline_15m/ethusdt@aggTrade/ethusdt@kline_15m"
    );
    assert_eq!(plans[1].stream_type, StreamType::UserData);
    assert_eq!(plans[1].url, build_user_stream_url("KEY"));
    assert_eq!(plans[1].url, "wss://fstream.binance.com/ws/KEY");
    assert_eq!(StreamType::Market.heartbeat_timeout().as_secs(), 200);
    assert_eq!(StreamType::UserData.heartbeat_timeout().as_secs(), 180);
    assert_eq!(StreamType::Market.activity_check_interval().as_secs(), 20);
    assert_eq!(StreamType::UserData.activity_check_interval().as_secs(), 60);
}

#[test]
fn breaker_stops_the_market_stream() {
    let mut m = WebSocketManager::new(ManagerConfig::default());
    assert!(m.may_connect());
    for i in 0..9 {
        assert_eq!(m.on_stream_end(StreamType::Market, true, i), AfterEnd::Retry { announce: true });
    }
    assert_eq!(m.on_stream_end(StreamType::Market, false, 9), AfterEnd::Retry { announce: true });
    assert!(m.may_connect());
    assert_eq!(m.on_stream_end(StreamType::Market, true, 10), AfterEnd::Stop);
    assert!(m.is_circuit_breaker_tripped());
    assert!(!m.may_connect());
    assert_eq!(
        m.on_stream_end(StreamType::UserData, true, 11),
        AfterEnd::Retry { announce: false }
    );
    m.reset_circuit_breaker();
    assert!(m.may_connect());
    m.shutdown();
    assert!(!m.may_connect());
}

#[test]
fn events_are_classified_by_their_type() {
    let mut wrong = trade("BTCUSDT", "1");
    wrong.event_type = "trade".to_string();
    match classify_event(Some(trade("BTCUSDT", "50000")), None, None, None, "{}") {
        WsMessage::AggTrade(t) => assert_eq!(t.symbol, "BTCUSDT"),
        _ => panic!("Expected AggTrade"),
    }
    assert!(matches!(
        classify_event(Some(wrong), None, None, Some(order("NEW", "1")), "{}"),
        WsMessage::Order(_)
    ));
    let account = AccountUpdate {
        event_type: "other".to_string(),
        event_time: 0,
        balances: vec![],
    };
    assert!(matches!(
        classify_event(None, None, Some(account), None, "raw"),
        WsMessage::Unknown(s) if s == "raw"
    ));
}

#[test]
fn prices_are_announced_and_bring_phases_once() {
    let mut p = StreamProcessor::new();
    p.track_position(position());
    let first = p.process_message(WsMessage::AggTrade(trade("BTCUSDT", "51500"))).unwrap();
    assert_eq!(first.len(), 2);
    match (&first[0], &first[1]) {
        (
            StreamEvent::PriceTick(t),
            StreamEvent::Phase2Triggered { symbol, close_quantity, new_stop_loss },
        ) => {
            assert_eq!((t.symbol.as_str(), t.price, t.timestamp), ("BTCUSDT", dec("51500"), 456));
            assert_eq!(symbol, "BTCUSDT");
            assert_eq!(*close_quantity, dec("0.33"));
            assert_eq!(*new_stop_loss, dec("50000"));
        }
        _ => panic!("Expected a tick and Phase 2"),
    }
    let second = p.process_message(WsMessage::AggTrade(trade("BTCUSDT", "51500"))).unwrap();
    assert_eq!(second.len(), 1);
    let third = p.process_message(WsMessage::AggTrade(trade("BTCUSDT", "52500"))).unwrap();
    assert!(matches!(
        &third[1],
        StreamEvent::Phase3Triggered { trailing_stop, .. } if *trailing_stop == dec("51500")
    ));
    let fourth = p.process_message(WsMessage::AggTrade(trade("BTCUSDT", "60000"))).unwrap();
    assert_eq!(fourth.len(), 1);
    assert!(p.process_message(WsMessage::AggTrade(trade("BTCUSDT", "x"))).unwrap().is_empty());
    assert!(p.process_message(WsMessage::Closed).unwrap().is_empty());
    p.untrack_position("BTCUSDT");
    assert_eq!(p.process_price("BTCUSDT", dec("51500"), 1).unwrap().len(), 1);
}

#[test]
fn orders_and_events_are_routed() {
    match order_event(WsMessage::Order(order("FILLED", "50000.5"))) {
        Some(OrderEvent::Filled { symbol, order_id, side, price, quantity }) => {
            assert_eq!((symbol.as_str(), order_id, side.as_str()), ("BTCUSDT", 77, "BUY"));
            assert_eq!((price, quantity), (dec("50000.5"), dec("1.5")));
        }
        _ => panic!("Expected Filled"),
    }
    assert!(matches!(
        order_event(WsMessage::Order(order("FILLED", "?"))),
        Some(OrderEvent::Filled { price, .. }) if price == Decimal::zero()
    ));
    for status in ["CANCELED", "CANCELLED"] {
        assert!(order(status, "1").is_cancelled());
        assert!(matches!(
            order_event(WsMessage::Order(order(status, "1"))),
            Some(OrderEvent::Cancelled { order_id: 77, .. })
        ));
    }
    assert!(order_event(WsMessage::Order(order("NEW", "1"))).is_none());
    assert!(order_event(WsMessage::Closed).is_none());
    assert!(matches!(
        route_event(StreamEvent::Reconnected),
        Routed::System(SystemEvent::Reconnected)
    ));
    assert!(matches!(
        route_event(StreamEvent::Phase3Triggered {
            symbol: "A".to_string(),
            trailing_stop: dec("1"),
        }),
        Routed::Note(_)
    ));
}
