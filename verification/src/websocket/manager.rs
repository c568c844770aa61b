//! The supervisor of the market and the account stream: which streams run, when they are retried,
//! and who is told of what they bring.
use crate::decimal::{parsed, zero, Dec, Decimal};
use crate::text::{join, views};
use crate::websocket::circuit_breaker::{
    in_order, law_failures_in_the_window_trip, Breaker, CircuitBreaker,
};
use crate::websocket::connection::ConnectionError;
use crate::websocket::messages::{KlineEvent, OrderEvent, OrderUpdate, PriceTick, WsMessage};
use crate::websocket::streams::{
    build_market_stream_url, build_user_stream_url, market_streams, processed, Follower, StreamEvent,
    StreamProcessor, StreamType, TrackedPosition,
};
use vstd::prelude::*;

verus! {

/// Manager errors.
#[derive(Debug)]
pub enum ManagerError {
    Connection(ConnectionError),
    Channel,
    CircuitBreaker,
    Shutdown,
}

impl ManagerError {
    /// The message of the error.
    pub open spec fn message(self) -> Seq<char> {
        match self {
            ManagerError::Connection(e) => "Connection error: "@ + e.message(),
            ManagerError::Channel => "Channel error"@,
            ManagerError::CircuitBreaker =>
                "Circuit breaker triggered - too many disconnections"@,
            ManagerError::Shutdown => "Shutdown requested"@,
        }
    }

    /// The message of the error.
    pub fn to_string(&self) -> (r: String)
        ensures
            r@ == self.message(),
    {
        match self {
            ManagerError::Connection(e) => "Connection error: ".to_owned().concat(
                e.to_string().as_str(),
            ),
            ManagerError::Channel => "Channel error".to_owned(),
            ManagerError::CircuitBreaker =>
                "Circuit breaker triggered - too many disconnections".to_owned(),
            ManagerError::Shutdown => "Shutdown requested".to_owned(),
        }
    }
}

/// System-level events for the main event loop.
#[derive(Clone, Copy, Debug, PartialEq, Eq, Structural)]
pub enum SystemEvent {
    /// A stream reconnected: state should be reconciled.
    Reconnected,
}

/// Configuration for the manager.
#[derive(Clone, Debug)]
pub struct ManagerConfig {
    /// Symbols to subscribe to.
    pub symbols: Vec<String>,
    /// Candle intervals to subscribe to.
    pub intervals: Vec<String>,
    /// Listen key for user data stream (optional).
    pub listen_key: Option<String>,
    /// Enable market stream.
    pub enable_market_stream: bool,
    /// Enable user data stream.
    pub enable_user_stream: bool,
}

impl Default for ManagerConfig {
    fn default() -> (r: ManagerConfig)
        ensures
            r.symbols@.len() == 1,
            r.symbols@[0]@ == "BTCUSDT"@,
            r.intervals@.len() == 1,
            r.intervals@[0]@ == "1h"@,
            r.listen_key is None,
            r.enable_market_stream,
            !r.enable_user_stream,
    {
        let mut symbols: Vec<String> = Vec::new();
        symbols.push("BTCUSDT".to_owned());
        let mut intervals: Vec<String> = Vec::new();
        intervals.push("1h".to_owned());
        ManagerConfig {
            symbols,
            intervals,
            listen_key: None,
            enable_market_stream: true,
            enable_user_stream: false,
        }
    }
}

/// A stream to start, with its address.
#[derive(Clone, Debug)]
pub struct StreamPlan {
    pub stream_type: StreamType,
    pub url: String,
}

/// The model of a stream to start.
pub struct StreamStart {
    pub stream_type: StreamType,
    pub url: Seq<char>,
}

impl View for StreamPlan {
    type V = StreamStart;

    open spec fn view(&self) -> StreamStart {
        StreamStart { stream_type: self.stream_type, url: self.url@ }
    }
}

/// The address of the market streams of a configuration.
pub open spec fn market_url(c: ManagerConfig) -> Seq<char> {
    "wss://fstream.binance.com"@ + "/stream?streams="@ + join(
        market_streams(views(c.symbols@), views(c.intervals@), c.symbols@.len()),
        '/',
    )
}

/// The streams that a configuration starts: the market stream if enabled, then the user stream if
/// enabled and a listen key is there.
pub open spec fn streams_of(c: ManagerConfig) -> Seq<StreamStart> {
    let market = if c.enable_market_stream {
        seq![StreamStart { stream_type: StreamType::Market, url: market_url(c) }]
    } else {
        Seq::empty()
    };
    let user = if c.enable_user_stream && c.listen_key is Some {
        seq![
            StreamStart {
                stream_type: StreamType::UserData,
                url: "wss://fstream.binance.com"@ + "/ws/"@ + c.listen_key->0@,
            },
        ]
    } else {
        Seq::empty()
    };
    market + user
}

/// What to do when the connection of a stream has ended.
#[derive(Clone, Copy, Debug, PartialEq, Eq, Structural)]
pub enum AfterEnd {
    /// Give the stream up.
    Stop,
    /// Connect again; whether to announce it first.
    Retry { announce: bool },
}

/// Who is told of a stream event.
#[derive(Clone, Debug)]
pub enum Routed {
    /// The price consumers.
    Price(PriceTick),
    /// The candle consumers.
    Kline(KlineEvent),
    /// The main loop.
    System(SystemEvent),
    /// Nobody; it is only worth a log line.
    Note(StreamEvent),
}

/// Says who is told of a stream event.
pub fn route_event(event: StreamEvent) -> (r: Routed)
    ensures
        r == match event {
            StreamEvent::PriceTick(t) => Routed::Price(t),
            StreamEvent::KlineClosed(k) => Routed::Kline(k),
            StreamEvent::Reconnected => Routed::System(SystemEvent::Reconnected),
            e => Routed::Note(e),
        },
{
    match event {
        StreamEvent::PriceTick(t) => Routed::Price(t),
        StreamEvent::KlineClosed(k) => Routed::Kline(k),
        StreamEvent::Reconnected => Routed::System(SystemEvent::Reconnected),
        e => Routed::Note(e),
    }
}

/// The number that a text stands for; zero where it stands for none.
pub open spec fn number_or_zero(text: Seq<char>) -> Dec {
    match parsed(text) {
        Some(d) => d,
        None => zero(),
    }
}

/// The event `e` is what a filled or a cancelled order is announced with.
pub open spec fn announces(order: OrderUpdate, e: Option<OrderEvent>) -> bool {
    if order.status@ == "FILLED"@ {
        match e {
            Some(OrderEvent::Filled { symbol, order_id, side, price, quantity }) => symbol@
                == order.symbol@ && order_id == order.order_id && side@ == order.side@ && price@
                == number_or_zero(order.price@) && quantity@ == number_or_zero(order.quantity@),
            _ => false,
        }
    } else if order.status@ == "CANCELED"@ || order.status@ == "CANCELLED"@ {
        match e {
            Some(OrderEvent::Cancelled { symbol, order_id }) => symbol@ == order.symbol@
                && order_id == order.order_id,
            _ => false,
        }
    } else {
        e is None
    }
}

/// The order event that a message of the user stream brings, if any.
pub fn order_event(msg: WsMessage) -> (r: Option<OrderEvent>)
    ensures
        match msg {
            WsMessage::Order(order) => announces(order, r),
            _ => r is None,
        },
{
    match msg {
        WsMessage::Order(order) => {
            if order.is_filled() {
                let price = match order.price_decimal() {
                    Some(d) => d,
                    None => Decimal::zero(),
                };
                let quantity = match order.quantity_decimal() {
                    Some(d) => d,
                    None => Decimal::zero(),
                };
                Some(
                    OrderEvent::Filled {
                        symbol: order.symbol,
                        order_id: order.order_id,
                        side: order.side,
                        price,
                        quantity,
                    },
                )
            } else if order.is_cancelled() {
                Some(OrderEvent::Cancelled { symbol: order.symbol, order_id: order.order_id })
            } else {
                None
            }
        },
        _ => None,
    }
}

/// Supervisor for market and user data streams.
pub struct WebSocketManager {
    config: ManagerConfig,
    circuit_breaker: CircuitBreaker,
    processor: StreamProcessor,
    shutdown: bool,
}

fn as_strs(v: &Vec<String>) -> (r: Vec<&str>)
    ensures
        crate::websocket::streams::str_views(r@) == views(v@),
        r@.len() == v@.len(),
{
    let mut out: Vec<&str> = Vec::new();
    let mut i: usize = 0;
    while i < v.len()
        invariant
            i <= v.len(),
            out@.len() == i,
            forall|k: int| 0 <= k < i ==> (#[trigger] out@[k])@ == v@[k]@,
        decreases v.len() - i,
    {
        out.push(v[i].as_str());
        i = i + 1;
    }
    assert(crate::websocket::streams::str_views(out@) =~= views(v@));
    out
}

impl WebSocketManager {
    /// The configuration.
    pub closed spec fn setup(&self) -> ManagerConfig {
        self.config
    }

    /// The circuit breaker.
    pub closed spec fn breaker(&self) -> Breaker {
        self.circuit_breaker@
    }

    /// The stream processor.
    pub closed spec fn stream_processor(&self) -> StreamProcessor {
        self.processor
    }

    /// A shutdown was requested.
    pub closed spec fn stopping(&self) -> bool {
        self.shutdown
    }

    /// Creates a new manager.
    pub fn new(config: ManagerConfig) -> (r: WebSocketManager)
        ensures
            r.setup() == config,
            !r.stopping(),
            r.breaker() == (Breaker {
                times: Seq::empty(),
                limit: 10,
                window: 300000000000,
                open: false,
                clock: 0,
            }),
            r.stream_processor().book() == Map::<Seq<char>, Follower>::empty(),
            r.stream_processor().buffer().limit() == 100,
            forall|s: Seq<char>, i: Seq<char>|
                (#[trigger] r.stream_processor().buffer().klines(s, i)) is None,
    {
        WebSocketManager {
            config,
            circuit_breaker: CircuitBreaker::default_config(),
            processor: StreamProcessor::new(),
            shutdown: false,
        }
    }

    /// The streams to start.
    pub fn streams(&self) -> (r: Vec<StreamPlan>)
        ensures
            r@.map_values(|p: StreamPlan| p@) == streams_of(self.setup()),
    {
        let mut plans: Vec<StreamPlan> = Vec::new();
        if self.config.enable_market_stream {
            let symbols = as_strs(&self.config.symbols);
            let intervals = as_strs(&self.config.intervals);
            let url = build_market_stream_url(symbols.as_slice(), intervals.as_slice());
            assert(url@ == market_url(self.config));
            plans.push(StreamPlan { stream_type: StreamType::Market, url });
        }
        match &self.config.listen_key {
            Some(key) => {
                if self.config.enable_user_stream {
                    let url = build_user_stream_url(key.as_str());
                    plans.push(StreamPlan { stream_type: StreamType::UserData, url });
                }
            },
            None => {},
        }
        assert(plans@.map_values(|p: StreamPlan| p@) =~= streams_of(self.setup()));
        plans
    }

    /// Whether a stream may connect: no shutdown was requested and the breaker is not tripped.
    pub fn may_connect(&self) -> (r: bool)
        ensures
            r == (!self.stopping() && !self.breaker().open),
    {
        !self.shutdown && !self.circuit_breaker.is_tripped()
    }

    /// Keeps that the connection of a stream has ended at `now`, and says what to do. A failure is
    /// counted by the breaker; only the market stream stops at once when that trips it, and only
    /// the market stream announces that it connects again.
    pub fn on_stream_end(&mut self, stream: StreamType, failed: bool, now: u128) -> (r: AfterEnd)
        ensures
            final(self).setup() == old(self).setup(),
            final(self).stopping() == old(self).stopping(),
            final(self).stream_processor() == old(self).stream_processor(),
            final(self).breaker() == if failed {
                old(self).breaker().recorded(now)
            } else {
                old(self).breaker()
            },
            r == match stream {
                StreamType::Market => if failed && final(self).breaker().open {
                    AfterEnd::Stop
                } else {
                    AfterEnd::Retry { announce: true }
                },
                StreamType::UserData => AfterEnd::Retry { announce: false },
            },
            r is Stop ==> stream == StreamType::Market && failed && final(self).breaker().open,
            !failed ==> final(self).breaker() == old(self).breaker(),
            failed ==> final(self).breaker().times.len() >= 1 && final(self).breaker().times.last()
                == now,
    {
        let mut tripped = false;
        if failed {
            tripped = self.circuit_breaker.record_at(now);
        }
        match stream {
            StreamType::Market => {
                if tripped {
                    AfterEnd::Stop
                } else {
                    AfterEnd::Retry { announce: true }
                }
            },
            StreamType::UserData => AfterEnd::Retry { announce: false },
        }
    }

    /// Tracks a position for phase detection.
    pub fn track_position(&mut self, position: TrackedPosition)
        ensures
            final(self).stream_processor().book() == old(self).stream_processor().book().insert(
                position@.symbol,
                position@,
            ),
            final(self).stream_processor().buffer() == old(self).stream_processor().buffer(),
            final(self).setup() == old(self).setup(),
            final(self).stopping() == old(self).stopping(),
            final(self).breaker() == old(self).breaker(),
    {
        self.processor.track_position(position);
    }

    /// Untracks a position.
    pub fn untrack_position(&mut self, symbol: &str)
        ensures
            final(self).stream_processor().book() == old(self).stream_processor().book().remove(
                symbol@,
            ),
            final(self).stream_processor().buffer() == old(self).stream_processor().buffer(),
            final(self).setup() == old(self).setup(),
            final(self).stopping() == old(self).stopping(),
            final(self).breaker() == old(self).breaker(),
    {
        self.processor.untrack_position(symbol);
    }

    /// Processes a message of the market stream. Where a figure cannot be held, the result is
    /// nothing.
    pub fn process_message(&mut self, msg: WsMessage) -> (r: Option<Vec<StreamEvent>>)
        ensures
            processed(old(self).stream_processor(), final(self).stream_processor(), msg, r),
            final(self).setup() == old(self).setup(),
            final(self).stopping() == old(self).stopping(),
            final(self).breaker() == old(self).breaker(),
    {
        self.processor.process_message(msg)
    }

    /// The stream processor.
    pub fn processor(&self) -> (r: &StreamProcessor)
        ensures
            *r == self.stream_processor(),
    {
        &self.processor
    }

    /// Requests graceful shutdown.
    pub fn shutdown(&mut self)
        ensures
            final(self).stopping(),
            final(self).setup() == old(self).setup(),
            final(self).breaker() == old(self).breaker(),
            final(self).stream_processor() == old(self).stream_processor(),
    {
        self.shutdown = true;
    }

    /// Returns true if shutdown was requested.
    pub fn is_shutdown(&self) -> (r: bool)
        ensures
            r == self.stopping(),
    {
        self.shutdown
    }

    /// Returns true if circuit breaker is tripped.
    pub fn is_circuit_breaker_tripped(&self) -> (r: bool)
        ensures
            r == self.breaker().open,
    {
        self.circuit_breaker.is_tripped()
    }

    /// Resets the circuit breaker.
    pub fn reset_circuit_breaker(&mut self)
        ensures
            final(self).breaker() == (Breaker {
                times: Seq::empty(),
                open: false,
                ..old(self).breaker()
            }),
            final(self).setup() == old(self).setup(),
            final(self).stopping() == old(self).stopping(),
            final(self).stream_processor() == old(self).stream_processor(),
    {
        self.circuit_breaker.reset();
    }
}

/// Ten failures within five minutes end the connections of a new manager: its breaker has tripped.
pub proof fn law_ten_failures_trip(b: Breaker, times: Seq<u128>)
    requires
        b.fresh(),
        b.limit == 10,
        b.window == 300000000000,
        in_order(times),
        times.len() == 10,
        times[9] - times[0] < 300000000000,
    ensures
        b.recorded_all(times).open,
{
    law_failures_in_the_window_trip(b, times);
}

/// Which streams a configuration starts: that of the market exactly where it is enabled, and that of
/// the account exactly where it is enabled and has a key, whose address ends in the key. The market
/// comes first.
pub proof fn law_streams_by_configuration(c: ManagerConfig)
    ensures
        ({
            let s = streams_of(c);
            let user = c.enable_user_stream && c.listen_key is Some;
            &&& s.len() == if c.enable_market_stream && user {
                2int
            } else if c.enable_market_stream || user {
                1
            } else {
                0
            }
            &&& c.enable_market_stream ==> s[0].stream_type == StreamType::Market && s[0].url
                == "wss://fstream.binance.com/stream?streams="@ + join(
                market_streams(views(c.symbols@), views(c.intervals@), c.symbols@.len()),
                '/',
            )
            &&& user ==> s.last().stream_type == StreamType::UserData && s.last().url
                == "wss://fstream.binance.com/ws/"@ + c.listen_key->0@
        }),
{
    reveal_strlit("wss://fstream.binance.com");
    reveal_strlit("/stream?streams=");
    reveal_strlit("/ws/");
    reveal_strlit("wss://fstream.binance.com/stream?streams=");
    reveal_strlit("wss://fstream.binance.com/ws/");
    assert("wss://fstream.binance.com"@ + "/stream?streams="@
        =~= "wss://fstream.binance.com/stream?streams="@);
    assert("wss://fstream.binance.com"@ + "/ws/"@ =~= "wss://fstream.binance.com/ws/"@);
}

/// An order is announced where it was filled or cancelled, and only then: with its own identifier and
/// symbol, and a filled one with its side, price and quantity.
pub proof fn law_orders_are_announced(order: OrderUpdate, e: Option<OrderEvent>)
    requires
        announces(order, e),
    ensures
        e is Some <==> order.status@ == "FILLED"@ || order.status@ == "CANCELED"@
            || order.status@ == "CANCELLED"@,
        e matches Some(OrderEvent::Filled { symbol, order_id, side, price, quantity }) ==> {
            &&& order.status@ == "FILLED"@
            &&& symbol@ == order.symbol@ && order_id == order.order_id && side@ == order.side@
            &&& parsed(order.price@) is Some ==> Some(price@) == parsed(order.price@)
            &&& parsed(order.price@) is None ==> price@.m == 0
            &&& parsed(order.quantity@) is Some ==> Some(quantity@) == parsed(order.quantity@)
            &&& parsed(order.quantity@) is None ==> quantity@.m == 0
        },
        e matches Some(OrderEvent::Cancelled { symbol, order_id }) ==> order.status@ != "FILLED"@
            && symbol@ == order.symbol@ && order_id == order.order_id,
        !(e matches Some(OrderEvent::Rejected { .. })),
{
}

} // verus!
