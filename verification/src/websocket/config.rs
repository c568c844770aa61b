//! Stream constants. Durations are in seconds, unless their name says otherwise.
use vstd::prelude::*;

verus! {

/// Stream base address (spot).
pub const BINANCE_WS_BASE: &'static str = "wss://stream.binance.com:9443";

/// Stream base address (futures).
pub const BINANCE_FUTURES_WS_BASE: &'static str = "wss://fstream.binance.com";

/// REST base address (for backfill).
pub const BINANCE_REST_BASE: &'static str = "https://api.binance.com";

/// Proactive rotation interval (23 hours, before the 24h limit).
pub const ROTATION_INTERVAL: u64 = 82800;

/// Market stream heartbeat timeout.
/// Reconnect if no message is received within this duration.
pub const MARKET_HEARTBEAT_TIMEOUT: u64 = 200;

/// Market stream activity check interval.
pub const MARKET_ACTIVITY_CHECK: u64 = 20;

/// User data stream heartbeat timeout.
pub const USER_HEARTBEAT_TIMEOUT: u64 = 180;

/// User data stream activity check interval.
pub const USER_ACTIVITY_CHECK: u64 = 60;

/// Initial reconnection delay.
pub const INITIAL_BACKOFF: u64 = 1;

/// Maximum reconnection delay.
pub const MAX_BACKOFF: u64 = 60;

/// Backoff multiplier.
pub const BACKOFF_MULTIPLIER: u32 = 2;

/// Maximum jitter to add to backoff (in milliseconds).
pub const MAX_JITTER_MS: u64 = 1000;

/// Circuit breaker: max disconnections within window.
pub const CIRCUIT_BREAKER_LIMIT: u32 = 10;

/// Circuit breaker: time window for counting disconnections.
pub const CIRCUIT_BREAKER_WINDOW: u64 = 300;

/// Number of candles to fetch for backfill on reconnect.
pub const BACKFILL_KLINE_COUNT: u32 = 100;

/// Channel buffer size for price events.
pub const PRICE_CHANNEL_SIZE: usize = 1000;

/// Channel buffer size for order events.
pub const ORDER_CHANNEL_SIZE: usize = 100;

} // verus!
