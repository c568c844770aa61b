use axiom_sandbox::time::Duration;
use axiom_sandbox::websocket::circuit_breaker::CircuitBreaker;
use axiom_sandbox::websocket::config;
use axiom_sandbox::websocket::connection::{
    base_backoff, backoff_with_jitter, ConnectionError, ConnectionState, LoopEnd, LoopStep,
    SocketEvent, WsConnection,
};

const SECOND: u128 = 1_000_000_000;

fn connection() -> WsConnection {
    WsConnection::new("wss://example.com", Duration::from_secs(60)).unwrap()
}

#[test]
fn test_config_values() {
    assert_eq!(config::ROTATION_INTERVAL, 23 * 60 * 60);
    assert_eq!(config::MARKET_HEARTBEAT_TIMEOUT, 200);
    assert_eq!(config::USER_HEARTBEAT_TIMEOUT, 180);
    assert_eq!(config::CIRCUIT_BREAKER_LIMIT, 10);
}

#[test]
fn test_backoff_calculation() {
    let mut conn = WsConnection::new("wss://example.com", Duration::from_secs(60)).unwrap();

    // First attempt: 1s + jitter
    let delay1 = conn.calculate_backoff();
    assert!(delay1 >= Duration::from_secs(1));
    assert!(delay1 < Duration::from_secs(3));

    // Second attempt: 2s + jitter
    conn.increment_backoff();
    let delay2 = conn.calculate_backoff();
    assert!(delay2 >= Duration::from_secs(2));

    // Third attempt: 4s + jitter
    conn.increment_backoff();
    let delay3 = conn.calculate_backoff();
    assert!(delay3 >= Duration::from_secs(4));
}

#[test]
fn test_backoff_max_cap() {
    let mut conn = WsConnection::new("wss://example.com", Duration::from_secs(60)).unwrap();

    // Many attempts should cap at MAX_BACKOFF
    for _ in 0..20 {
        conn.increment_backoff();
    }

    let delay = conn.calculate_backoff();
    assert!(
        delay <= Duration::from_millis(config::MAX_BACKOFF * 1000 + config::MAX_JITTER_MS)
    );
}

#[test]
fn test_circuit_breaker() {
    let mut breaker = CircuitBreaker::new(3, Duration::from_secs(60));

    assert!(!breaker.record_disconnection());
    assert!(!breaker.record_disconnection());
    assert!(breaker.record_disconnection()); // 3rd triggers

    assert!(breaker.is_tripped());

    breaker.reset();
    assert!(!breaker.is_tripped());
}

#[test]
fn test_needs_rotation() {
    let mut conn = WsConnection::new("wss://example.com", Duration::from_secs(60)).unwrap();

    // No connection yet
    assert!(!conn.needs_rotation());

    // Simulate connection
    conn.connected_at(0);
    conn.touch_at(24 * 60 * 60 * SECOND);
    assert!(conn.needs_rotation());
    assert!(conn.needs_rotation_at(24 * 60 * 60 * SECOND));
    assert!(conn.needs_rotation_at(23 * 60 * 60 * SECOND));
    assert!(!conn.needs_rotation_at(23 * 60 * 60 * SECOND - 1));
}

#[test]
fn backoff_doubles_and_is_capped_for_any_attempt() {
    let delays: Vec<u64> = (0..8).map(base_backoff).collect();
    assert_eq!(delays, vec![1000, 2000, 4000, 8000, 16000, 32000, 60000, 60000]);
    assert_eq!(base_backoff(u32::MAX), 60000);
    assert_eq!(backoff_with_jitter(2, 250), Duration::from_millis(4250));
}

#[test]
fn address_is_normalised_or_refused() {
    assert_eq!(connection().url(), "wss://example.com/");
    match WsConnection::new("no address", Duration::from_secs(1)) {
        Err(ConnectionError::UrlParse(message)) => {
            assert_eq!(message, "relative URL without a base");
            assert_eq!(
                ConnectionError::UrlParse(message).to_string(),
                "URL parse error: relative URL without a base"
            );
        }
        _ => panic!("expected a parse error"),
    }
    assert_eq!(ConnectionError::WebSocket("x".to_string()).to_string(), "WebSocket error: x");
    assert_eq!(ConnectionError::Timeout.to_string(), "Connection timeout");
    assert_eq!(ConnectionError::HeartbeatTimeout.to_string(), "Heartbeat timeout");
    assert_eq!(ConnectionError::ChannelSend.to_string(), "Channel send error");
    assert_eq!(ConnectionError::CircuitBreaker.to_string(), "Circuit breaker triggered");
    assert_eq!(ConnectionError::Closed.to_string(), "Connection closed");
}

#[test]
fn events_keep_the_connection_alive_or_end_it() {
    let mut c = connection();
    c.connected_at(10 * SECOND);
    assert_eq!(c.state(), ConnectionState::Connected);
    assert_eq!(c.on_event(SocketEvent::Tick, 69 * SECOND), LoopStep::Continue);
    assert_eq!(c.on_event(SocketEvent::Tick, 70 * SECOND), LoopStep::FailHeartbeat);
    assert_eq!(c.on_event(SocketEvent::Pong, 70 * SECOND), LoopStep::Continue);
    assert_eq!(c.on_event(SocketEvent::Tick, 129 * SECOND), LoopStep::Continue);
    assert_eq!(c.on_event(SocketEvent::Text, 130 * SECOND), LoopStep::Deliver);
    assert_eq!(
        c.on_event(SocketEvent::Binary { is_text: true }, 130 * SECOND),
        LoopStep::Deliver
    );
    assert_eq!(
        c.on_event(SocketEvent::Binary { is_text: false }, 130 * SECOND),
        LoopStep::Continue
    );
    assert_eq!(c.on_event(SocketEvent::Ping, 130 * SECOND), LoopStep::PongAndDeliver);
    assert_eq!(c.on_event(SocketEvent::Close, 130 * SECOND), LoopStep::DeliverClosed);
    assert_eq!(c.on_event(SocketEvent::Frame, 130 * SECOND), LoopStep::Continue);
    assert_eq!(c.on_event(SocketEvent::Error, 500 * SECOND), LoopStep::FailSocket);
    assert_eq!(c.on_event(SocketEvent::Ended, 500 * SECOND), LoopStep::FailClosed);
    assert!(c.heartbeat_timeout_at(190 * SECOND));
    assert!(!c.should_close(190 * SECOND));
    assert!(c.should_close(10 * SECOND + 23 * 60 * 60 * SECOND));
    c.shutdown();
    assert!(c.should_close(0));
}

#[test]
fn ends_of_a_connection_lead_to_retry_or_rotation() {
    let mut c = connection();
    c.connected_at(0);
    assert!(!c.on_loop_end(LoopEnd::Clean, SECOND));
    assert_eq!(c.state(), ConnectionState::Disconnected);
    c.connected_at(0);
    assert!(c.on_loop_end(LoopEnd::HeartbeatTimeout, SECOND));
    assert_eq!(c.state(), ConnectionState::Reconnecting);
    c.connected_at(0);
    assert!(c.on_loop_end(LoopEnd::Failed, SECOND));
    assert!(c.calculate_backoff() >= Duration::from_secs(2));
    c.connected_at(0);
    assert!(!c.on_loop_end(LoopEnd::Failed, 24 * 60 * 60 * SECOND));
    assert_eq!(c.state(), ConnectionState::Rotating);
}

#[test]
fn breaker_forgets_what_is_outside_its_window() {
    let mut b = CircuitBreaker::new(2, Duration::from_secs(60));
    assert!(!b.record_at(0));
    assert!(!b.record_at(60 * SECOND));
    assert!(b.record_at(119 * SECOND));
    // Tripped for good, however quiet it is afterwards.
    assert!(b.record_at(10_000 * SECOND));
    let mut d = CircuitBreaker::default_config();
    for i in 0..9u128 {
        assert!(!d.record_at(i));
    }
    assert!(d.record_at(9));
}

#[test]
fn a_touch_takes_the_reading_of_the_clock() {
    let mut c = WsConnection::new("wss://example.com/ws", Duration::from_secs(3600)).unwrap();
    let far: u128 = 10_000_000 * SECOND;
    assert!(c.heartbeat_timeout_at(far));
    c.connected_at(far);
    assert!(c.now() >= far);
    c.touch_at(1);
    assert!(c.heartbeat_timeout());
    c.touch();
    assert!(!c.heartbeat_timeout());
    assert!(!c.heartbeat_timeout_at(far + 3600 * SECOND - 1));
    assert!(c.heartbeat_timeout_at(c.now() + 3600 * SECOND));
    assert!(!c.needs_rotation());
}

#[test]
fn disconnections_outside_the_window_do_not_count() {
    let mut b = CircuitBreaker::new(3, Duration::from_secs(10));
    assert!(!b.record_at(0));
    assert!(!b.record_at(1));
    assert!(!b.record_at(10 * SECOND + 1));
    assert!(!b.record_at(10 * SECOND + 2));
    assert!(b.record_at(20 * SECOND));
    assert!(b.record_at(99 * SECOND));
    b.reset();
    assert!(!b.is_tripped());
    assert!(!b.record_disconnection());
    assert!(!b.record_disconnection());
    assert!(b.record_disconnection());
}
