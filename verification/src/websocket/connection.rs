//! The life of a stream's connection: when it is made, given up, retried and rotated.
use crate::time::{Clock, Duration};
use crate::websocket::config;
use vstd::prelude::*;

verus! {

/// Connection errors.
#[derive(Debug)]
pub enum ConnectionError {
    /// The socket failed, with its message.
    WebSocket(String),
    /// The address cannot be parsed, with the parser's message.
    UrlParse(String),
    /// Connecting took too long.
    Timeout,
    /// No message came for too long.
    HeartbeatTimeout,
    /// Nobody takes the messages any more.
    ChannelSend,
    /// Too many disconnections.
    CircuitBreaker,
    /// The connection was closed.
    Closed,
}

impl ConnectionError {
    /// The message of the error.
    pub open spec fn message(self) -> Seq<char> {
        match self {
            ConnectionError::WebSocket(e) => "WebSocket error: "@ + e@,
            ConnectionError::UrlParse(e) => "URL parse error: "@ + e@,
            ConnectionError::Timeout => "Connection timeout"@,
            ConnectionError::HeartbeatTimeout => "Heartbeat timeout"@,
            ConnectionError::ChannelSend => "Channel send error"@,
            ConnectionError::CircuitBreaker => "Circuit breaker triggered"@,
            ConnectionError::Closed => "Connection closed"@,
        }
    }

    /// The message of the error.
    pub fn to_string(&self) -> (r: String)
        ensures
            r@ == self.message(),
    {
        match self {
            ConnectionError::WebSocket(e) => "WebSocket error: ".to_owned().concat(e.as_str()),
            ConnectionError::UrlParse(e) => "URL parse error: ".to_owned().concat(e.as_str()),
            ConnectionError::Timeout => "Connection timeout".to_owned(),
            ConnectionError::HeartbeatTimeout => "Heartbeat timeout".to_owned(),
            ConnectionError::ChannelSend => "Channel send error".to_owned(),
            ConnectionError::CircuitBreaker => "Circuit breaker triggered".to_owned(),
            ConnectionError::Closed => "Connection closed".to_owned(),
        }
    }
}

/// Connection state.
#[derive(Clone, Copy, Debug, PartialEq, Eq, Structural)]
pub enum ConnectionState {
    Disconnected,
    Connecting,
    Connected,
    Reconnecting,
    Rotating,
}

/// What `url::Url::parse` makes of a text: the address in its normal form, or the error's message.
pub uninterp spec fn parsed_url(text: Seq<char>) -> Result<Seq<char>, Seq<char>>;

/// `url::Url::parse`. What it makes of a text is only named.
#[verifier::external_body]
fn parse_url(text: &str) -> (r: Result<String, String>)
    ensures
        match r {
            Ok(u) => parsed_url(text@) == Ok::<Seq<char>, Seq<char>>(u@),
            Err(e) => parsed_url(text@) == Err::<Seq<char>, Seq<char>>(e@),
        },
{
    url::Url::parse(text).map(|u| u.to_string()).map_err(|e| e.to_string())
}

/// `rand::RngExt::random_range`, with the thread's generator: some number of the range.
#[verifier::external_body]
fn random_below(limit: u64) -> (r: u64)
    requires
        limit > 0,
    ensures
        r < limit,
{
    rand::RngExt::random_range(&mut rand::rng(), 0..limit)
}

/// Two to the power `n`.
pub open spec fn pow2(n: nat) -> int
    decreases n,
{
    if n == 0 {
        1
    } else {
        2 * pow2((n - 1) as nat)
    }
}

/// The delay before an attempt, in milliseconds and without jitter: one second, doubled with each
/// attempt, and never more than a minute.
pub open spec fn backoff_millis(attempt: nat) -> int {
    let d = 1000 * pow2(attempt);
    if d < 60000 {
        d
    } else {
        60000
    }
}

proof fn lemma_pow2_grows(a: nat, b: nat)
    requires
        a <= b,
    ensures
        1 <= pow2(a) <= pow2(b),
    decreases b,
{
    if b > 0 {
        if a < b {
            lemma_pow2_grows(a, (b - 1) as nat);
        } else {
            lemma_pow2_grows((a - 1) as nat, (b - 1) as nat);
        }
    }
}

/// The delay does not shrink with further attempts, starts at a second and ends at a minute.
pub proof fn law_backoff_grows_to_its_cap(a: nat, b: nat)
    requires
        a <= b,
    ensures
        1000 <= backoff_millis(a) <= backoff_millis(b) <= 60000,
        backoff_millis(0) == 1000,
        b >= 6 ==> backoff_millis(b) == 60000,
{
    lemma_pow2_grows(a, b);
    lemma_pow2_grows(0, a);
    assert(pow2(0) == 1);
    if b >= 6 {
        lemma_pow2_grows(6, b);
        assert(pow2(6) == 64) by {
            reveal_with_fuel(pow2, 7);
        }
    }
}

/// The delay before an attempt, in milliseconds and without jitter.
pub fn base_backoff(attempt: u32) -> (r: u64)
    ensures
        r as int == backoff_millis(attempt as nat),
        1000 <= r <= 60000,
{
    proof {
        law_backoff_grows_to_its_cap(attempt as nat, attempt as nat);
    }
    if attempt >= 6 {
        return config::MAX_BACKOFF * 1000;
    }
    let mut d: u64 = 1;
    let mut i: u32 = 0;
    while i < attempt
        invariant
            i <= attempt < 6,
            d as int == pow2(i as nat),
            d <= 64,
        decreases attempt - i,
    {
        proof {
            lemma_pow2_grows((i + 1) as nat, 6);
            assert(pow2(6) == 64) by {
                reveal_with_fuel(pow2, 7);
            }
        }
        let m: u64 = config::BACKOFF_MULTIPLIER as u64;
        assert(m == 2);
        d = d * m;
        i = i + 1;
    }
    let delay: u64 = config::INITIAL_BACKOFF * 1000 * d;
    if delay < config::MAX_BACKOFF * 1000 {
        delay
    } else {
        config::MAX_BACKOFF * 1000
    }
}

/// The delay before an attempt, with the given jitter.
pub fn backoff_with_jitter(attempt: u32, jitter: u64) -> (r: Duration)
    requires
        jitter <= config::MAX_JITTER_MS,
    ensures
        r@ == (backoff_millis(attempt as nat) + jitter) * 1000000,
{
    Duration::from_millis(base_backoff(attempt) + jitter)
}

/// The model of a connection. Times are readings of its clock, in nanoseconds.
pub struct Link {
    pub url: Seq<char>,
    pub state: ConnectionState,
    pub last_message: int,
    pub started: Option<int>,
    pub attempt: int,
    pub heartbeat_timeout: int,
    pub shutdown: bool,
    /// The newest reading that the clock has kept.
    pub clock: int,
}

impl Link {
    /// The connection has been up for as long as it may be.
    pub open spec fn needs_rotation(self, now: int) -> bool {
        self.started is Some && now - self.started->0 >= config::ROTATION_INTERVAL * 1000000000
    }

    /// No message has come for as long as the heartbeat allows.
    pub open spec fn timed_out(self, now: int) -> bool {
        let quiet = if now >= self.last_message {
            now - self.last_message
        } else {
            0
        };
        quiet >= self.heartbeat_timeout
    }

    /// The clock after a reading.
    pub open spec fn clock_at(self, now: int) -> int {
        if now > self.clock {
            now
        } else {
            self.clock
        }
    }

    /// The connection after a message came at `now`.
    pub open spec fn heard(self, now: int) -> Link {
        Link { last_message: now, clock: self.clock_at(now), ..self }
    }

    /// The connection after one more attempt.
    pub open spec fn retried(self) -> Link {
        Link {
            attempt: if self.attempt < u32::MAX {
                self.attempt + 1
            } else {
                self.attempt
            },
            ..self
        }
    }

    /// The connection after its messages ended at `now`.
    pub open spec fn ended(self, end: LoopEnd, now: int) -> Link {
        let l = match end {
            LoopEnd::Clean => Link {
                state: ConnectionState::Disconnected,
                started: None,
                ..self
            },
            LoopEnd::HeartbeatTimeout => Link { state: ConnectionState::Reconnecting, ..self },
            LoopEnd::Failed => (Link {
                state: ConnectionState::Reconnecting,
                ..self
            }).retried(),
        };
        if l.needs_rotation(now) {
            Link { state: ConnectionState::Rotating, ..l }
        } else {
            l
        }
    }
}

/// How the messages of a connection ended.
#[derive(Clone, Copy, Debug, PartialEq, Eq, Structural)]
pub enum LoopEnd {
    /// On purpose: a shutdown or a rotation.
    Clean,
    /// No message came for too long.
    HeartbeatTimeout,
    /// With any other error.
    Failed,
}

/// What came from the socket, or from the timer that checks for activity.
#[derive(Clone, Copy, Debug, PartialEq, Eq, Structural)]
pub enum SocketEvent {
    Text,
    /// A binary message; whether it is valid text.
    Binary { is_text: bool },
    Ping,
    Pong,
    Close,
    Frame,
    Error,
    Ended,
    Tick,
}

/// What to do about it.
#[derive(Clone, Copy, Debug, PartialEq, Eq, Structural)]
pub enum LoopStep {
    /// Go on.
    Continue,
    /// Read the text and hand the message on.
    Deliver,
    /// Answer with the same payload and hand the ping on.
    PongAndDeliver,
    /// Hand on that the connection was closed, then give it up.
    DeliverClosed,
    /// Give the connection up with the socket's error.
    FailSocket,
    /// Give the connection up as closed.
    FailClosed,
    /// Give the connection up for want of a heartbeat.
    FailHeartbeat,
}

/// Anything that came from the socket counts as activity, except its errors and its end.
pub open spec fn is_activity(e: SocketEvent) -> bool {
    !(e is Error || e is Ended || e is Tick)
}

/// What to do about an event.
pub open spec fn step_for(l: Link, e: SocketEvent, now: int) -> LoopStep {
    match e {
        SocketEvent::Text => LoopStep::Deliver,
        SocketEvent::Binary { is_text } => if is_text {
            LoopStep::Deliver
        } else {
            LoopStep::Continue
        },
        SocketEvent::Ping => LoopStep::PongAndDeliver,
        SocketEvent::Pong => LoopStep::Continue,
        SocketEvent::Close => LoopStep::DeliverClosed,
        SocketEvent::Frame => LoopStep::Continue,
        SocketEvent::Error => LoopStep::FailSocket,
        SocketEvent::Ended => LoopStep::FailClosed,
        SocketEvent::Tick => if l.timed_out(now) {
            LoopStep::FailHeartbeat
        } else {
            LoopStep::Continue
        },
    }
}

/// A connection is retried after a failure, and a clean end starts no rotation.
pub proof fn law_end_of_connection(l: Link, end: LoopEnd, now: int)
    ensures
        l.ended(end, now).state == ConnectionState::Disconnected ==> end == LoopEnd::Clean,
        end == LoopEnd::Clean ==> l.ended(end, now).state == ConnectionState::Disconnected,
        end != LoopEnd::Clean ==> l.ended(end, now).state == if l.needs_rotation(now) {
            ConnectionState::Rotating
        } else {
            ConnectionState::Reconnecting
        },
        l.ended(end, now).attempt >= l.attempt,
{
}

/// A connection to a stream.
#[derive(Clone, Debug)]
pub struct WsConnection {
    url: String,
    state: ConnectionState,
    last_message_time: u128,
    connection_start: Option<u128>,
    backoff_attempt: u32,
    heartbeat_timeout: Duration,
    shutdown: bool,
    clock: Clock,
}

impl View for WsConnection {
    type V = Link;

    closed spec fn view(&self) -> Link {
        Link {
            url: self.url@,
            state: self.state,
            last_message: self.last_message_time as int,
            started: match self.connection_start {
                Some(t) => Some(t as int),
                None => None,
            },
            attempt: self.backoff_attempt as int,
            heartbeat_timeout: self.heartbeat_timeout@,
            shutdown: self.shutdown,
            clock: self.clock@,
        }
    }
}

impl WsConnection {
    /// Creates a connection that is not made yet.
    pub fn new(url: &str, heartbeat_timeout: Duration) -> (r: Result<WsConnection, ConnectionError>)
        ensures
            match parsed_url(url@) {
                Ok(u) => r is Ok && (r->Ok_0)@ == (Link {
                    url: u,
                    state: ConnectionState::Disconnected,
                    last_message: (r->Ok_0)@.clock,
                    started: None,
                    attempt: 0,
                    heartbeat_timeout: heartbeat_timeout@,
                    shutdown: false,
                    clock: (r->Ok_0)@.clock,
                }) && (r->Ok_0)@.clock >= 0,
                Err(e) => r is Err && r->Err_0 is UrlParse && (r->Err_0->UrlParse_0)@ == e,
            },
    {
        match parse_url(url) {
            Ok(url) => {
                let mut clock = Clock::start();
                let now: u128 = clock.read();
                clock.keep(now);
                Ok(
                    WsConnection {
                        url,
                        state: ConnectionState::Disconnected,
                        last_message_time: now,
                        connection_start: None,
                        backoff_attempt: 0,
                        heartbeat_timeout,
                        shutdown: false,
                        clock,
                    },
                )
            },
            Err(e) => Err(ConnectionError::UrlParse(e)),
        }
    }

    /// Reads the connection's clock: never before the newest reading that it has kept.
    pub fn now(&self) -> (r: u128)
        ensures
            r as int >= self@.clock,
    {
        self.clock.read()
    }

    /// The address of the connection.
    pub fn url(&self) -> (r: &str)
        ensures
            r@ == self@.url,
    {
        self.url.as_str()
    }

    /// Returns current connection state.
    pub fn state(&self) -> (r: ConnectionState)
        ensures
            r == self@.state,
    {
        self.state
    }

    /// Triggers shutdown.
    pub fn shutdown(&mut self)
        ensures
            final(self)@ == (Link { shutdown: true, ..old(self)@ }),
    {
        self.shutdown = true;
    }

    /// Returns true if shutdown was requested.
    pub fn is_shutdown(&self) -> (r: bool)
        ensures
            r == self@.shutdown,
    {
        self.shutdown
    }

    /// Connecting has begun.
    pub fn set_connecting(&mut self)
        ensures
            final(self)@ == (Link { state: ConnectionState::Connecting, ..old(self)@ }),
    {
        self.state = ConnectionState::Connecting;
    }

    /// The connection was made at `now`.
    pub fn connected_at(&mut self, now: u128)
        ensures
            final(self)@ == (Link {
                state: ConnectionState::Connected,
                started: Some(now as int),
                last_message: now as int,
                attempt: 0,
                clock: old(self)@.clock_at(now as int),
                ..old(self)@
            }),
    {
        self.clock.keep(now);
        self.state = ConnectionState::Connected;
        self.connection_start = Some(now);
        self.last_message_time = now;
        self.backoff_attempt = 0;
    }

    /// Calculates backoff delay with jitter.
    pub fn calculate_backoff(&self) -> (r: Duration)
        ensures
            backoff_millis(self@.attempt as nat) * 1000000 <= r@ < (backoff_millis(
                self@.attempt as nat,
            ) + config::MAX_JITTER_MS) * 1000000,
    {
        let jitter: u64 = random_below(config::MAX_JITTER_MS);
        backoff_with_jitter(self.backoff_attempt, jitter)
    }

    /// Increments backoff attempt counter.
    pub fn increment_backoff(&mut self)
        ensures
            final(self)@ == old(self)@.retried(),
    {
        if self.backoff_attempt < u32::MAX {
            self.backoff_attempt = self.backoff_attempt + 1;
        }
    }

    /// Resets backoff counter (after successful connection).
    pub fn reset_backoff(&mut self)
        ensures
            final(self)@ == (Link { attempt: 0, ..old(self)@ }),
    {
        self.backoff_attempt = 0;
    }

    /// Whether proactive rotation is needed at `now`.
    pub fn needs_rotation_at(&self, now: u128) -> (r: bool)
        ensures
            r == self@.needs_rotation(now as int),
    {
        match self.connection_start {
            Some(start) => now >= start && now - start >= config::ROTATION_INTERVAL as u128
                * 1000000000,
            None => false,
        }
    }

    /// Checks if proactive rotation is needed.
    pub fn needs_rotation(&self) -> (r: bool)
        ensures
            self@.started is None ==> !r,
            self@.needs_rotation(self@.clock) ==> r,
            exists|now: u128|
                now as int >= self@.clock && r == #[trigger] self@.needs_rotation(now as int),
    {
        let now: u128 = self.clock.read();
        self.needs_rotation_at(now)
    }

    /// Whether the heartbeat has timed out at `now`.
    pub fn heartbeat_timeout_at(&self, now: u128) -> (r: bool)
        ensures
            r == self@.timed_out(now as int),
    {
        let quiet: u128 = if now >= self.last_message_time {
            now - self.last_message_time
        } else {
            0
        };
        quiet >= self.heartbeat_timeout.as_nanos()
    }

    /// Checks if heartbeat timeout has occurred.
    pub fn heartbeat_timeout(&self) -> (r: bool)
        ensures
            self@.timed_out(self@.clock) ==> r,
            exists|now: u128|
                now as int >= self@.clock && r == #[trigger] self@.timed_out(now as int),
    {
        let now: u128 = self.clock.read();
        self.heartbeat_timeout_at(now)
    }

    /// A message came at `now`.
    pub fn touch_at(&mut self, now: u128)
        ensures
            final(self)@ == old(self)@.heard(now as int),
    {
        self.clock.keep(now);
        self.last_message_time = now;
    }

    /// Updates last message time: it is the reading that the connection's clock gives now, which is
    /// never before an earlier one.
    pub fn touch(&mut self)
        ensures
            final(self)@ == old(self)@.heard(final(self)@.clock),
            final(self)@.clock >= old(self)@.clock,
    {
        let now: u128 = self.clock.read();
        self.touch_at(now);
    }

    /// Sets state to reconnecting.
    pub fn set_reconnecting(&mut self)
        ensures
            final(self)@ == (Link { state: ConnectionState::Reconnecting, ..old(self)@ }),
    {
        self.state = ConnectionState::Reconnecting;
    }

    /// Sets state to rotating.
    pub fn set_rotating(&mut self)
        ensures
            final(self)@ == (Link { state: ConnectionState::Rotating, ..old(self)@ }),
    {
        self.state = ConnectionState::Rotating;
    }

    /// Sets state to disconnected.
    pub fn set_disconnected(&mut self)
        ensures
            final(self)@ == (Link {
                state: ConnectionState::Disconnected,
                started: None,
                ..old(self)@
            }),
    {
        self.state = ConnectionState::Disconnected;
        self.connection_start = None;
    }

    /// Whether to close the connection on purpose before the next message is awaited at `now`.
    pub fn should_close(&self, now: u128) -> (r: bool)
        ensures
            r == (self@.shutdown || self@.needs_rotation(now as int)),
    {
        self.shutdown || self.needs_rotation_at(now)
    }

    /// What to do about an event that came at `now`.
    pub fn on_event(&mut self, event: SocketEvent, now: u128) -> (r: LoopStep)
        ensures
            r == step_for(old(self)@, event, now as int),
            final(self)@ == if is_activity(event) {
                old(self)@.heard(now as int)
            } else {
                old(self)@
            },
    {
        match event {
            SocketEvent::Text => {
                self.touch_at(now);
                LoopStep::Deliver
            },
            SocketEvent::Binary { is_text } => {
                self.touch_at(now);
                if is_text {
                    LoopStep::Deliver
                } else {
                    LoopStep::Continue
                }
            },
            SocketEvent::Ping => {
                self.touch_at(now);
                LoopStep::PongAndDeliver
            },
            SocketEvent::Pong => {
                self.touch_at(now);
                LoopStep::Continue
            },
            SocketEvent::Close => {
                self.touch_at(now);
                LoopStep::DeliverClosed
            },
            SocketEvent::Frame => {
                self.touch_at(now);
                LoopStep::Continue
            },
            SocketEvent::Error => LoopStep::FailSocket,
            SocketEvent::Ended => LoopStep::FailClosed,
            SocketEvent::Tick => {
                if self.heartbeat_timeout_at(now) {
                    LoopStep::FailHeartbeat
                } else {
                    LoopStep::Continue
                }
            },
        }
    }

    /// Keeps how the messages of the connection ended at `now`. The result says whether to wait
    /// before the next attempt.
    pub fn on_loop_end(&mut self, end: LoopEnd, now: u128) -> (r: bool)
        ensures
            final(self)@ == old(self)@.ended(end, now as int),
            r == (final(self)@.state == ConnectionState::Reconnecting),
    {
        match end {
            LoopEnd::Clean => self.set_disconnected(),
            LoopEnd::HeartbeatTimeout => self.set_reconnecting(),
            LoopEnd::Failed => {
                self.set_reconnecting();
                self.increment_backoff();
            },
        }
        if self.needs_rotation_at(now) {
            self.set_rotating();
        }
        self.state == ConnectionState::Reconnecting
    }
}

/// A connection is rotated exactly when it has been up for twenty-three hours, and never while it is
/// down. Once that is due it stays due.
pub proof fn law_rotation_by_time(l: Link, now: int, later: int)
    requires
        now <= later,
    ensures
        l.started matches Some(start) ==> l.needs_rotation(now) == (now - start >= 23 * 3600
            * 1000000000),
        l.started is None ==> !l.needs_rotation(now),
        l.needs_rotation(now) ==> l.needs_rotation(later),
{
}

/// A connection has timed out exactly when as long as its heartbeat allows has passed since its last
/// message; a message starts the time anew.
pub proof fn law_heartbeat_by_time(l: Link, message: int, now: int)
    requires
        l.heartbeat_timeout > 0,
    ensures
        now >= l.last_message ==> l.timed_out(now) == (now - l.last_message >= l.heartbeat_timeout),
        now < l.last_message ==> !l.timed_out(now),
        now < message + l.heartbeat_timeout ==> !l.heard(message).timed_out(now),
        now >= message + l.heartbeat_timeout ==> l.heard(message).timed_out(now),
        l.heard(message).needs_rotation(now) == l.needs_rotation(now),
        l.heard(message).attempt == l.attempt,
        l.heard(message).state == l.state,
{
}

/// Each attempt waits twice as long as the one before it, until a minute is reached: 1, 2, 4, 8, 16
/// and 32 seconds, and then a minute each time.
pub proof fn law_backoff_doubles(n: nat)
    ensures
        n <= 4 ==> backoff_millis(n + 1) == 2 * backoff_millis(n),
        n >= 5 ==> backoff_millis(n + 1) == 60000,
        backoff_millis(0) == 1000,
        backoff_millis(5) == 32000,
{
    reveal_with_fuel(pow2, 7);
    law_backoff_grows_to_its_cap(0, n + 1);
    assert(pow2(n + 1) == 2 * pow2(n));
    if n <= 4 {
        lemma_pow2_grows(n, 4);
    } else if n == 5 {
        assert(pow2(6) == 64);
    }
}

/// What each event leads to: text and what is valid text is handed on, a ping is answered and handed
/// on, pongs and frames are passed over; a close, an error and the end of the socket give the
/// connection up, and so does a check for activity when the heartbeat has timed out, and only then.
pub proof fn law_events_by_kind(l: Link, now: int)
    requires
        l.heartbeat_timeout > 0,
    ensures
        step_for(l, SocketEvent::Text, now) is Deliver,
        step_for(l, SocketEvent::Binary { is_text: true }, now) is Deliver,
        step_for(l, SocketEvent::Binary { is_text: false }, now) is Continue,
        step_for(l, SocketEvent::Ping, now) is PongAndDeliver,
        step_for(l, SocketEvent::Pong, now) is Continue,
        step_for(l, SocketEvent::Frame, now) is Continue,
        step_for(l, SocketEvent::Close, now) is DeliverClosed,
        step_for(l, SocketEvent::Error, now) is FailSocket,
        step_for(l, SocketEvent::Ended, now) is FailClosed,
        step_for(l, SocketEvent::Tick, now) is FailHeartbeat <==> now - l.last_message
            >= l.heartbeat_timeout,
        step_for(l, SocketEvent::Tick, now) is FailHeartbeat || step_for(
            l,
            SocketEvent::Tick,
            now,
        ) is Continue,
        is_activity(SocketEvent::Text) && is_activity(SocketEvent::Ping) && is_activity(
            SocketEvent::Pong,
        ),
        !is_activity(SocketEvent::Tick) && !is_activity(SocketEvent::Error) && !is_activity(
            SocketEvent::Ended,
        ),
{
}

/// How the end of a connection counts: a failure is one more attempt to wait for, a missed heartbeat
/// and a clean end are not; a clean end forgets when the connection was made, so that it is not
/// rotated, and the others rotate it where that is due.
pub proof fn law_ends_by_kind(l: Link, now: int)
    requires
        0 <= l.attempt < u32::MAX,
    ensures
        l.ended(LoopEnd::Failed, now).attempt == l.attempt + 1,
        l.ended(LoopEnd::HeartbeatTimeout, now).attempt == l.attempt,
        l.ended(LoopEnd::Clean, now).attempt == l.attempt,
        l.ended(LoopEnd::Clean, now).started is None,
        l.ended(LoopEnd::Clean, now).state == ConnectionState::Disconnected,
        l.started matches Some(start) ==> {
            let due = now - start >= 23 * 3600 * 1000000000;
            let state = if due {
                ConnectionState::Rotating
            } else {
                ConnectionState::Reconnecting
            };
            &&& l.ended(LoopEnd::Failed, now).state == state
            &&& l.ended(LoopEnd::HeartbeatTimeout, now).state == state
            &&& l.ended(LoopEnd::Failed, now).started == Some(start)
        },
        l.ended(LoopEnd::Failed, now).url == l.url,
        l.ended(LoopEnd::Failed, now).last_message == l.last_message,
{
}

} // verus!
