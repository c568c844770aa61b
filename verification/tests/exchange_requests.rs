use axiom_sandbox::decimal::Decimal;
use axiom_sandbox::exchange::account::{
    account_reply, checked_usdt_balance_from_json, AccountBalance,
};
use axiom_sandbox::exchange::orders::{ExecutionError, OcoStatus, OrderResult, OrderSide,
    OrderStatus, OrderType};
use axiom_sandbox::exchange::replies::{
    algo_order_reply, assign_legs, cancel_all_reply, cancel_order_reply, interpret_algo_order,
    interpret_oco, oco_reply, Leg,
};
use axiom_sandbox::exchange::signing::{
    account_query, algo_base_url, algo_order_query, cancel_order_query, hex_encode, hmac_sign,
    oco_query, signed_url, symbol_query,
};
use axiom_sandbox::json::{get_elements, get_i64, get_string, get_u64};

fn dec(text: &str) -> Decimal {
    Decimal::parse(text).unwrap()
}

fn message<T>(r: Result<T, ExecutionError>) -> String {
    match r {
        Ok(_) => panic!("Expected an error"),
        Err(e) => e.to_string(),
    }
}

#[test]
fn signature_is_the_hexadecimal_code() {
    assert_eq!(
        hmac_sign("what do ya want for nothing?", "Jefe"),
        "5bdcc146bf60754e6a042426089575c75a003f089d2739839dec58b964ec3843"
    );
    assert_eq!(hex_encode(&vec![0, 9, 10, 255]), "00090aff");
    assert_eq!(
        signed_url("https://x", "/p", "what do ya want for nothing?", "Jefe"),
        "https://x/p?what do ya want for nothing?&signature=5bdcc146bf60754e6a042426089575c75a003f089d2739839dec58b964ec3843"
    );
    assert_eq!(algo_base_url(true), "https://testnet.binancefuture.com");
    assert_eq!(algo_base_url(false), "https://fapi.binance.com");
}

#[test]
fn queries_list_their_parameters() {
    assert_eq!(
        algo_order_query("BTCUSDT", "SELL", "STOP_MARKET", Some("49000"), None, 17),
        "symbol=BTCUSDT&side=SELL&type=STOP_MARKET&closePosition=true&algoType=CONDITIONAL&triggerPrice=49000&timestamp=17"
    );
    assert_eq!(
        algo_order_query("BTCUSDT", "BUY", "TRAILING_STOP_MARKET", None, Some("1.5"), 0),
        "symbol=BTCUSDT&side=BUY&type=TRAILING_STOP_MARKET&closePosition=true&algoType=CONDITIONAL&callbackRate=1.5&timestamp=0"
    );
    assert_eq!(
        cancel_order_query("BTCUSDT", 12345, 18446744073709551615),
        "symbol=BTCUSDT&orderId=12345&timestamp=18446744073709551615"
    );
    assert_eq!(symbol_query("BTCUSDT", 10), "symbol=BTCUSDT&timestamp=10");
    assert_eq!(account_query(99), "timestamp=99");
    assert_eq!(
        oco_query("BTCUSDT", "SELL", "0.5", "53000", "49000", "48902", 5),
        "symbol=BTCUSDT&side=SELL&quantity=0.5&price=53000&stopPrice=49000&stopLimitPrice=48902&stopLimitTimeInForce=GTC&timestamp=5"
    );
}

#[test]
fn json_is_read_by_member() {
    let text = r#"{"a": "x", "b": 7, "c": -7, "d": [1, "two"], "e": 1.5}"#;
    assert_eq!(get_string(text, "a"), Some("x".to_string()));
    assert_eq!(get_string(text, "b"), None);
    assert_eq!(get_u64(text, "b"), Some(7));
    assert_eq!(get_u64(text, "c"), None);
    assert_eq!(get_i64(text, "c"), Some(-7));
    assert_eq!(get_i64(text, "e"), None);
    assert_eq!(get_elements(text, "d"), Some(vec!["1".to_string(), "\"two\"".to_string()]));
    assert_eq!(get_elements(text, "a"), None);
    assert_eq!(get_u64("not json", "b"), None);
}

#[test]
fn conditional_orders_are_identified() {
    assert_eq!(algo_order_reply(true, "200 OK", r#"{"orderId":5}"#).unwrap(), 5);
    assert_eq!(algo_order_reply(true, "200 OK", r#"{"algoId":6}"#).unwrap(), 6);
    assert_eq!(
        message(algo_order_reply(true, "200 OK", r#"{"orderId":"x","algoId":6}"#)),
        "Exchange error: No orderId in algoOrder response: {\"algoId\":6,\"orderId\":\"x\"}"
    );
    assert_eq!(
        message(algo_order_reply(false, "400 Bad Request", r#"{"code":-1102,"msg":"bad"}"#)),
        "Exchange error: Binance algoOrder HTTP 400 Bad Request — code -1102: bad"
    );
    assert_eq!(
        message(algo_order_reply(false, "500", "{}")),
        "Exchange error: Binance algoOrder HTTP 500 — code -1: unknown error"
    );
    assert_eq!(interpret_algo_order(true, "", None, None, Some(9), "").unwrap(), 9);
    assert!(cancel_order_reply(7, true, "200", "").is_ok());
    assert_eq!(
        message(cancel_order_reply(7, false, "404", r#"{"code":1,"msg":"gone"}"#)),
        "Exchange error: Cancel algoOrder 7 HTTP 404 — code 1: gone"
    );
    assert!(cancel_all_reply(true, "200", "").is_ok());
    assert_eq!(
        message(cancel_all_reply(false, "404", "null")),
        "Exchange error: Cancel all algoOpenOrders HTTP 404 — code -1: unknown error"
    );
}

fn leg(kind: &str, order_id: Option<u64>) -> Leg {
    Leg { kind: kind.to_string(), order_id }
}

#[test]
fn order_list_legs_are_told_apart() {
    let body = r#"{"orderListId":3,"listClientOrderId":"c","orders":[{"type":"STOP_LOSS_LIMIT","orderId":1},{"type":"TAKE_PROFIT_LIMIT","orderId":2}]}"#;
    let placed = oco_reply("BTCUSDT", true, "200 OK", body).unwrap();
    assert_eq!(placed.order_list_id, 3);
    assert_eq!(placed.list_client_order_id, Some("c".to_string()));
    assert_eq!(placed.symbol, "BTCUSDT");
    assert_eq!((placed.take_profit_order_id, placed.stop_loss_order_id), (2, 1));
    assert_eq!(placed.status, OcoStatus::Executing);
    // Without types the first order is the take profit, the second the stop loss.
    let body = r#"{"orderListId":3,"orders":[{"orderId":8},{"orderId":9}]}"#;
    let placed = oco_reply("BTCUSDT", true, "200 OK", body).unwrap();
    assert_eq!((placed.take_profit_order_id, placed.stop_loss_order_id), (8, 9));
    assert_eq!(placed.list_client_order_id, None);
    assert_eq!(
        assign_legs(&vec![leg("TAKE_PROFIT", Some(4)), leg("STOP_LOSS", Some(5))]),
        (Some(4), Some(5))
    );
    assert_eq!(assign_legs(&vec![leg("", None), leg("", Some(5))]), (Some(5), None));
    assert_eq!(assign_legs(&vec![leg("X", Some(1)), leg("STOP_LOSS", Some(2))]), (Some(1), Some(2)));
    assert_eq!(assign_legs(&vec![leg("STOP_LOSS", Some(1)), leg("X", Some(2))]), (Some(2), Some(1)));
    assert_eq!(assign_legs(&vec![leg("X", Some(1)), leg("TAKE_PROFIT", Some(2))]), (Some(2), Some(1)));
    assert_eq!(assign_legs(&vec![leg("TAKE_PROFIT", Some(1))]), (Some(1), None));
    assert_eq!(assign_legs(&vec![leg("X", Some(3)), leg("Y", Some(3))]), (Some(3), Some(3)));
    assert_eq!(
        assign_legs(&vec![leg("X", Some(3)), leg("Y", Some(3)), leg("Z", Some(4))]),
        (Some(3), Some(3))
    );
    assert_eq!(assign_legs(&vec![leg("TAKE_PROFIT", Some(3)), leg("Y", Some(3))]), (Some(3), Some(3)));
    let body = r#"{"orderListId":7,"orders":[{"type":"TAKE_PROFIT_LIMIT","orderId":1},{"type":"LIMIT","orderId":2}]}"#;
    let placed = oco_reply("BTCUSDT", true, "200 OK", body).unwrap();
    assert_eq!(placed.order_list_id, 7);
    assert_eq!((placed.take_profit_order_id, placed.stop_loss_order_id), (1, 2));
    assert_eq!(placed.status, OcoStatus::Executing);
}

#[test]
fn order_list_failures_are_named() {
    assert_eq!(
        message(oco_reply("B", false, "400", r#"{"code":-2010,"msg":"no"}"#)),
        "Exchange error: Binance OCO HTTP 400 — code -2010: no"
    );
    assert_eq!(
        message(oco_reply("B", true, "200", "{}")),
        "Exchange error: No orderListId in OCO response: {}"
    );
    assert_eq!(
        message(oco_reply("B", true, "200", r#"{"orderListId":1}"#)),
        "Exchange error: No orders array in OCO response: {\"orderListId\":1}"
    );
    assert_eq!(
        message(oco_reply("B", true, "200", r#"{"orderListId":1,"orders":[]}"#)),
        "Exchange error: Could not identify TP leg order ID in OCO response: {\"orderListId\":1,\"orders\":[]}"
    );
    let one = Some(vec![leg("TAKE_PROFIT", Some(4)), leg("STOP_LOSS", None)]);
    assert_eq!(
        message(interpret_oco("B", true, "", None, None, Some(1), one, None, "a")),
        "Exchange error: Could not identify SL leg order ID in OCO response: a"
    );
    let lone = Some(vec![leg("", Some(4))]);
    assert_eq!(
        message(interpret_oco("B", true, "", None, None, Some(1), lone, None, "b")),
        "Exchange error: Could not identify SL leg order ID in OCO response: b"
    );
}

#[test]
fn balances_are_added_up() {
    let b = AccountBalance {
        asset: "USDT".to_string(),
        free: dec("10.5"),
        locked: dec("0.25"),
    };
    assert_eq!(b.total(), dec("10.75"));
    assert_eq!(b.total().to_string(), "10.75");
    let bad = r#"{"assets":[{"asset":"USDT","availableBalance":"x","walletBalance":"1"}]}"#;
    assert_eq!(
        message(checked_usdt_balance_from_json(bad).unwrap()),
        "Exchange error: Failed to parse USDT availableBalance"
    );
    let bad = r#"{"assets":[{"asset":"USDT","walletBalance":"y"}]}"#;
    assert_eq!(
        message(checked_usdt_balance_from_json(bad).unwrap()),
        "Exchange error: Failed to parse USDT walletBalance"
    );
    assert_eq!(
        message(checked_usdt_balance_from_json("[]").unwrap()),
        "Exchange error: account_information response missing 'assets' array"
    );
    assert_eq!(
        message(checked_usdt_balance_from_json(r#"{"assets":[]}"#).unwrap()),
        "Exchange error: USDT asset not found in account information"
    );
}

#[test]
fn execution_errors_have_messages() {
    let text = |e: ExecutionError| e.to_string();
    assert_eq!(
        text(ExecutionError::FundingRateTooHigh { rate: dec("0.0005"), limit: dec("0.0003") }),
        "Funding rate 0.0005 exceeds limit 0.0003"
    );
    assert_eq!(
        text(ExecutionError::SlippageExceeded { expected: dec("1"), actual: dec("2") }),
        "Slippage exceeded: expected 1, got 2"
    );
    assert_eq!(
        text(ExecutionError::OrderRejected { reason: "r".to_string() }),
        "Order rejected: r"
    );
    assert_eq!(
        text(ExecutionError::InsufficientBalance { required: dec("2"), available: dec("1") }),
        "Insufficient balance: need 2, have 1"
    );
    assert_eq!(
        text(ExecutionError::PositionNotFound { symbol: "S".to_string() }),
        "Position not found: S"
    );
    assert_eq!(
        text(ExecutionError::ConnectionError { message: "m".to_string() }),
        "Connection error: m"
    );
    let mut result = OrderResult {
        order_id: 1,
        client_order_id: None,
        symbol: "S".to_string(),
        status: OrderStatus::Filled,
        side: OrderSide::Buy,
        order_type: OrderType::Market,
        quantity: dec("2"),
        filled_quantity: dec("0.5"),
        avg_price: dec("1"),
        timestamp: 0,
    };
    assert!(result.is_filled());
    result.status = OrderStatus::Expired;
    assert!(!result.is_filled());
    assert!(result.status.is_terminal());
    assert_eq!(result.remaining_quantity(), dec("1.5"));
}

#[test]
fn answers_that_are_no_documents_are_refused() {
    assert!(message(algo_order_reply(true, "200", "<html>"))
        .starts_with("Exchange error: Algo order JSON parse error: "));
    assert!(message(oco_reply("B", true, "200", ""))
        .starts_with("Exchange error: OCO order JSON parse error: "));
    assert!(message(account_reply(true, "200", "{").unwrap())
        .starts_with("Exchange error: Failed to parse account info JSON: "));
    assert_eq!(
        message(account_reply(false, "401", r#"{ "code": -2014 }"#).unwrap()),
        "Exchange error: Binance account HTTP 401 — code -2014: unknown"
    );
    assert_eq!(
        message(oco_reply("B", true, "200", r#"{ "a" : 1 }"#)),
        "Exchange error: No orderListId in OCO response: {\"a\":1}"
    );
    let body = r#"{"assets":[{"asset":"USDT","availableBalance":"1.5","walletBalance":"2"}]}"#;
    assert_eq!(account_reply(true, "200", body).unwrap().unwrap(), dec("2.0"));
}
