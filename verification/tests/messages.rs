use axiom_sandbox::json::{get_string, get_u64};
use axiom_sandbox::websocket::messages::{
    classify_event, AggTrade, KlineData, KlineEvent, OrderUpdate, WsMessage,
};

fn text(json: &str, key: &str) -> String {
    get_string(json, key).unwrap()
}

fn number(json: &str, key: &str) -> u64 {
    get_u64(json, key).unwrap()
}

fn flag(json: &str, key: &str) -> bool {
    let value: serde_json::Value = serde_json::from_str(json).unwrap();
    value.get(key).unwrap().as_bool().unwrap()
}

fn agg_trade(json: &str) -> AggTrade {
    AggTrade {
        event_type: text(json, "e"),
        event_time: number(json, "E"),
        symbol: text(json, "s"),
        agg_trade_id: number(json, "a"),
        price: text(json, "p"),
        quantity: text(json, "q"),
        first_trade_id: number(json, "f"),
        last_trade_id: number(json, "l"),
        trade_time: number(json, "T"),
        is_buyer_maker: flag(json, "m"),
    }
}

fn kline_event(json: &str) -> KlineEvent {
    let value: serde_json::Value = serde_json::from_str(json).unwrap();
    let k = value.get("k").unwrap().to_string();
    KlineEvent {
        event_type: text(json, "e"),
        event_time: number(json, "E"),
        symbol: text(json, "s"),
        kline: KlineData {
            start_time: number(&k, "t"),
            close_time: number(&k, "T"),
            symbol: text(&k, "s"),
            interval: text(&k, "i"),
            open: text(&k, "o"),
            close: text(&k, "c"),
            high: text(&k, "h"),
            low: text(&k, "l"),
            volume: text(&k, "v"),
            num_trades: number(&k, "n"),
            is_closed: flag(&k, "x"),
            quote_volume: text(&k, "q"),
        },
    }
}

fn order_update(json: &str) -> OrderUpdate {
    OrderUpdate {
        event_type: text(json, "e"),
        event_time: number(json, "E"),
        symbol: text(json, "s"),
        client_order_id: text(json, "c"),
        side: text(json, "S"),
        order_type: text(json, "o"),
        time_in_force: text(json, "f"),
        quantity: text(json, "q"),
        price: text(json, "p"),
        stop_price: text(json, "P"),
        status: text(json, "X"),
        order_id: number(json, "i"),
        last_executed_qty: text(json, "l"),
        last_executed_price: text(json, "L"),
        cumulative_qty: text(json, "z"),
    }
}

#[test]
fn test_parse_agg_trade() {
    let json = r#"{
        "e": "aggTrade",
        "E": 1234567890,
        "s": "BTCUSDT",
        "a": 12345,
        "p": "50000.00",
        "q": "1.5",
        "f": 100,
        "l": 105,
        "T": 1234567890,
        "m": true
    }"#;

    let trade = agg_trade(json);
    assert_eq!(trade.symbol, "BTCUSDT");
    assert_eq!(trade.price_decimal().unwrap().to_string(), "50000.00");
}

#[test]
fn test_parse_kline() {
    let json = r#"{
        "e": "kline",
        "E": 1234567890,
        "s": "BTCUSDT",
        "k": {
            "t": 1234567800,
            "T": 1234567899,
            "s": "BTCUSDT",
            "i": "15m",
            "o": "49000.00",
            "c": "50000.00",
            "h": "50500.00",
            "l": "48500.00",
            "v": "100.5",
            "n": 1000,
            "x": true,
            "q": "5000000.00"
        }
    }"#;

    let kline = kline_event(json);
    assert_eq!(kline.kline.interval, "15m");
    assert!(kline.kline.is_closed);
    assert_eq!(kline.kline.high_decimal().unwrap().to_string(), "50500.00");
}

#[test]
fn test_parse_order_update() {
    let json = r#"{
        "e": "executionReport",
        "E": 1234567890,
        "s": "BTCUSDT",
        "c": "my_order_123",
        "S": "BUY",
        "o": "LIMIT",
        "f": "GTC",
        "q": "1.0",
        "p": "50000.00",
        "P": "0.0",
        "X": "FILLED",
        "i": 12345,
        "l": "1.0",
        "L": "50000.00",
        "z": "1.0"
    }"#;

    let order = order_update(json);
    assert!(order.is_filled());
    assert!(!order.is_cancelled());
}

#[test]
fn test_parse_agg_trade_message() {
    let json = r#"{"e":"aggTrade","E":123,"s":"BTCUSDT","a":1,"p":"50000","q":"1","f":1,"l":1,"T":123,"m":true}"#;
    let msg = classify_event(Some(agg_trade(json)), None, None, None, json);

    match msg {
        WsMessage::AggTrade(t) => assert_eq!(t.symbol, "BTCUSDT"),
        _ => panic!("Expected AggTrade"),
    }
}
