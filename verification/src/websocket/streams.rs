//! Market and account streams: their addresses, the candles they bring, and the positions that
//! follow their prices.
use crate::decimal::{
    abs_opt, add_opt, aligned_sum, difference, difference_of, div_opt, law_difference_is_exact,
    law_product_is_exact, law_product_is_rounded, law_quotient_of_multiple, law_quotient_reaches,
    law_sum_is_exact, lemma_pow10_add, lemma_pow10_positive, lemma_units_sign, opt_view, parsed,
    pow10, product, quotient, quotient_of, sub_opt, sum_of, whole, zero, Dec, Decimal,
};
use crate::symbol_map::SymbolMap;
use crate::text::{join, join_texts, lowercase, same_text, to_lowercase, views};
use crate::time::Duration;
use crate::types::position::Position;
use crate::websocket::config;
use crate::websocket::messages::{AggTrade, KlineData, KlineEvent, PriceTick, WsMessage};
use vstd::prelude::*;

verus! {

/// Stream type for different connections.
#[derive(Clone, Copy, Debug, PartialEq, Eq, Structural, Hash)]
pub enum StreamType {
    /// Market data stream (trades, candles).
    Market,
    /// User data stream (account, orders).
    UserData,
}

impl StreamType {
    /// Returns the heartbeat timeout for this stream type.
    pub fn heartbeat_timeout(&self) -> (r: Duration)
        ensures
            r@ == match self {
                StreamType::Market => 200 * 1000000000int,
                StreamType::UserData => 180 * 1000000000int,
            },
    {
        match self {
            StreamType::Market => Duration::from_secs(config::MARKET_HEARTBEAT_TIMEOUT),
            StreamType::UserData => Duration::from_secs(config::USER_HEARTBEAT_TIMEOUT),
        }
    }

    /// Returns the activity check interval for this stream type.
    pub fn activity_check_interval(&self) -> (r: Duration)
        ensures
            r@ == match self {
                StreamType::Market => 20 * 1000000000int,
                StreamType::UserData => 60 * 1000000000int,
            },
    {
        match self {
            StreamType::Market => Duration::from_secs(config::MARKET_ACTIVITY_CHECK),
            StreamType::UserData => Duration::from_secs(config::USER_ACTIVITY_CHECK),
        }
    }
}

/// The views of a list of texts.
pub open spec fn str_views(v: Seq<&str>) -> Seq<Seq<char>> {
    v.map_values(|s: &str| s@)
}

/// The candle streams of a symbol, one for each interval.
pub open spec fn kline_streams(symbol: Seq<char>, intervals: Seq<Seq<char>>) -> Seq<Seq<char>> {
    intervals.map_values(|i: Seq<char>| symbol + "@kline_"@ + i)
}

/// The streams of the first `n` symbols: for each its trades, then its candles.
pub open spec fn market_streams(
    symbols: Seq<Seq<char>>,
    intervals: Seq<Seq<char>>,
    n: nat,
) -> Seq<Seq<char>>
    decreases n,
{
    if n == 0 {
        Seq::empty()
    } else {
        let s = lowercase(symbols[n - 1]);
        market_streams(symbols, intervals, (n - 1) as nat).push(s + "@aggTrade"@) + kline_streams(
            s,
            intervals,
        )
    }
}

/// Builds the address of the combined market streams.
pub fn build_market_stream_url(symbols: &[&str], intervals: &[&str]) -> (r: String)
    ensures
        r@ == "wss://fstream.binance.com"@ + "/stream?streams="@ + join(
            market_streams(str_views(symbols@), str_views(intervals@), symbols@.len()),
            '/',
        ),
{
    let ghost s = str_views(symbols@);
    let ghost v = str_views(intervals@);
    let mut streams: Vec<String> = Vec::new();
    let mut i: usize = 0;
    assert(views(streams@) =~= market_streams(s, v, 0));
    while i < symbols.len()
        invariant
            i <= symbols.len(),
            s == str_views(symbols@),
            v == str_views(intervals@),
            views(streams@) == market_streams(s, v, i as nat),
        decreases symbols.len() - i,
    {
        let lower = to_lowercase(symbols[i]);
        assert(s[i as int] == symbols@[i as int]@);
        let ghost before = views(streams@);
        let trades = lower.clone().concat("@aggTrade");
        let ghost streams_before = streams@;
        streams.push(trades);
        assert(views(streams@) =~= before.push(lower@ + "@aggTrade"@));
        let ghost with_trades = views(streams@);
        let ghost all = kline_streams(lower@, v);
        let mut k: usize = 0;
        assert(with_trades + all.take(0) =~= with_trades);
        while k < intervals.len()
            invariant
                k <= intervals.len(),
                v == str_views(intervals@),
                all == kline_streams(lower@, v),
                views(streams@) == with_trades + all.take(k as int),
            decreases intervals.len() - k,
        {
            let ghost now = streams@;
            let name = lower.clone().concat("@kline_").concat(intervals[k]);
            assert(v[k as int] == intervals@[k as int]@);
            streams.push(name);
            assert(views(streams@) =~= views(now).push(name@));
            assert(all.take(k + 1) =~= all.take(k as int).push(all[k as int]));
            assert(views(now).push(name@) =~= with_trades + all.take(k + 1));
            k = k + 1;
        }
        assert(all.take(k as int) =~= all);
        i = i + 1;
    }
    config::BINANCE_FUTURES_WS_BASE.to_owned().concat("/stream?streams=").concat(
        join_texts(&streams, '/').as_str(),
    )
}

/// Builds the address of the user data stream.
pub fn build_user_stream_url(listen_key: &str) -> (r: String)
    ensures
        r@ == "wss://fstream.binance.com"@ + "/ws/"@ + listen_key@,
{
    config::BINANCE_FUTURES_WS_BASE.to_owned().concat("/ws/").concat(listen_key)
}

/// The candles of one symbol and interval.
#[derive(Clone, Debug)]
pub struct KlineSeries {
    pub symbol: String,
    pub interval: String,
    pub klines: Vec<KlineEvent>,
}

/// The series is that of the symbol and the interval.
pub open spec fn is_series(s: KlineSeries, symbol: Seq<char>, interval: Seq<char>) -> bool {
    s.symbol@ == symbol && s.interval@ == interval
}

/// The place of the series of a symbol and an interval, from a place on.
pub open spec fn series_from(
    s: Seq<KlineSeries>,
    symbol: Seq<char>,
    interval: Seq<char>,
    from: int,
) -> Option<int>
    decreases s.len() - from,
{
    if from < 0 || from >= s.len() {
        None
    } else if is_series(s[from], symbol, interval) {
        Some(from)
    } else {
        series_from(s, symbol, interval, from + 1)
    }
}

/// The candles of a symbol and an interval.
pub open spec fn klines_in(s: Seq<KlineSeries>, symbol: Seq<char>, interval: Seq<char>) -> Option<
    Seq<KlineEvent>,
> {
    match series_from(s, symbol, interval, 0) {
        Some(i) => Some(s[i].klines@),
        None => None,
    }
}

/// The candles after one more: the oldest goes where there are too many.
pub open spec fn with_kline(old: Option<Seq<KlineEvent>>, k: KlineEvent, max_size: nat) -> Seq<
    KlineEvent,
> {
    let all = match old {
        Some(s) => s.push(k),
        None => seq![k],
    };
    if all.len() > max_size {
        all.skip(1)
    } else {
        all
    }
}

proof fn lemma_series_from(
    s: Seq<KlineSeries>,
    symbol: Seq<char>,
    interval: Seq<char>,
    from: int,
)
    requires
        0 <= from,
    ensures
        match series_from(s, symbol, interval, from) {
            Some(i) => from <= i < s.len() && is_series(s[i], symbol, interval) && forall|k: int|
                from <= k < i ==> !is_series(#[trigger] s[k], symbol, interval),
            None => forall|k: int|
                from <= k < s.len() ==> !is_series(#[trigger] s[k], symbol, interval),
        },
    decreases s.len() - from,
{
    if from < s.len() && !is_series(s[from], symbol, interval) {
        lemma_series_from(s, symbol, interval, from + 1);
    }
}

/// Where the first series of a key is, the search finds it.
proof fn lemma_series_at(
    s: Seq<KlineSeries>,
    symbol: Seq<char>,
    interval: Seq<char>,
    i: int,
)
    requires
        0 <= i < s.len(),
        is_series(s[i], symbol, interval),
        forall|k: int| 0 <= k < i ==> !is_series(#[trigger] s[k], symbol, interval),
    ensures
        series_from(s, symbol, interval, 0) == Some(i),
{
    lemma_series_from(s, symbol, interval, 0);
}

/// Candle buffer for indicator backfill.
#[derive(Clone, Debug)]
pub struct KlineBuffer {
    series: Vec<KlineSeries>,
    max_size: usize,
}

impl KlineBuffer {
    /// The candles of a symbol and an interval, oldest first.
    pub closed spec fn klines(&self, symbol: Seq<char>, interval: Seq<char>) -> Option<
        Seq<KlineEvent>,
    > {
        klines_in(self.series@, symbol, interval)
    }

    /// How many candles of a symbol and an interval are kept.
    pub closed spec fn limit(&self) -> nat {
        self.max_size as nat
    }

    /// No more candles than the limit are kept.
    pub open spec fn bounded(&self) -> bool {
        forall|s: Seq<char>, i: Seq<char>|
            (#[trigger] self.klines(s, i)) is Some ==> self.klines(s, i)->0.len() <= self.limit()
    }

    /// Creates a new buffer.
    pub fn new(max_size: usize) -> (r: KlineBuffer)
        ensures
            r.limit() == max_size,
            forall|s: Seq<char>, i: Seq<char>| (#[trigger] r.klines(s, i)) is None,
            r.bounded(),
    {
        KlineBuffer { series: Vec::new(), max_size }
    }

    fn find(&self, symbol: &str, interval: &str) -> (r: Option<usize>)
        ensures
            match r {
                Some(i) => i < self.series@.len() && series_from(
                    self.series@,
                    symbol@,
                    interval@,
                    0,
                ) == Some(i as int),
                None => series_from(self.series@, symbol@, interval@, 0) is None,
            },
    {
        let mut i: usize = 0;
        while i < self.series.len()
            invariant
                series_from(self.series@, symbol@, interval@, 0) == series_from(
                    self.series@,
                    symbol@,
                    interval@,
                    i as int,
                ),
            decreases self.series.len() - i,
        {
            if same_text(self.series[i].symbol.as_str(), symbol) && same_text(
                self.series[i].interval.as_str(),
                interval,
            ) {
                return Some(i);
            }
            i = i + 1;
        }
        None
    }

    /// Adds a candle. Only the candles of its symbol and interval change; where there are more
    /// than the limit, the oldest goes.
    pub fn push(&mut self, kline: KlineEvent)
        ensures
            final(self).limit() == old(self).limit(),
            final(self).klines(kline.symbol@, kline.kline.interval@) == Some(
                with_kline(
                    old(self).klines(kline.symbol@, kline.kline.interval@),
                    kline,
                    old(self).limit(),
                ),
            ),
            forall|s: Seq<char>, i: Seq<char>|
                s != kline.symbol@ || i != kline.kline.interval@ ==> #[trigger] final(self).klines(s, i) == old(self).klines(s, i),
            old(self).bounded() ==> final(self).bounded(),
    {
        let ghost before = self.series@;
        let ghost sym = kline.symbol@;
        let ghost itv = kline.kline.interval@;
        let max_size: usize = self.max_size;
        match self.find(kline.symbol.as_str(), kline.kline.interval.as_str()) {
            Some(i) => {
                let ghost old_klines = before[i as int].klines@;
                let mut s = self.series.remove(i);
                s.klines.push(kline);
                if s.klines.len() > max_size {
                    s.klines.remove(0);
                }
                assert(s.klines@ =~= with_kline(Some(old_klines), kline, max_size as nat));
                self.series.insert(i, s);
                proof {
                    assert(self.series@ =~= before.update(i as int, s));
                    lemma_updated(before, self.series@, i as int, sym, itv);
                }
            },
            None => {
                let symbol = kline.symbol.clone();
                let interval = kline.kline.interval.clone();
                let mut klines: Vec<KlineEvent> = Vec::new();
                klines.push(kline);
                if klines.len() > max_size {
                    klines.remove(0);
                }
                assert(klines@ =~= with_kline(None, kline, max_size as nat));
                let s = KlineSeries { symbol, interval, klines };
                self.series.push(s);
                proof {
                    assert(self.series@ =~= before.push(s));
                    lemma_added(before, s, sym, itv);
                }
            },
        }
        proof {
            let after = *self;
            if old(self).bounded() {
                assert forall|x: Seq<char>, y: Seq<char>|
                    (#[trigger] after.klines(x, y)) is Some implies after.klines(x, y)->0.len()
                    <= after.limit() by {
                    if x != sym || y != itv {
                        assert(after.klines(x, y) == old(self).klines(x, y));
                    } else {
                        assert(old(self).klines(sym, itv) is Some ==> old(self).klines(
                            sym,
                            itv,
                        )->0.len() <= after.limit());
                    }
                }
            }
        }
    }

    /// Gets candles for a symbol and interval.
    pub fn get(&self, symbol: &str, interval: &str) -> (r: Option<&Vec<KlineEvent>>)
        ensures
            match r {
                Some(v) => self.klines(symbol@, interval@) == Some(v@),
                None => self.klines(symbol@, interval@) is None,
            },
    {
        match self.find(symbol, interval) {
            Some(i) => Some(&self.series[i].klines),
            None => None,
        }
    }

    /// Clears all buffered candles.
    pub fn clear(&mut self)
        ensures
            final(self).limit() == old(self).limit(),
            forall|s: Seq<char>, i: Seq<char>| (#[trigger] final(self).klines(s, i)) is None,
    {
        self.series = Vec::new();
    }
}

proof fn lemma_updated(
    before: Seq<KlineSeries>,
    after: Seq<KlineSeries>,
    i: int,
    symbol: Seq<char>,
    interval: Seq<char>,
)
    requires
        series_from(before, symbol, interval, 0) == Some(i),
        before.len() == after.len(),
        0 <= i < before.len(),
        after[i].symbol@ == before[i].symbol@,
        after[i].interval@ == before[i].interval@,
        forall|k: int| 0 <= k < before.len() && k != i ==> #[trigger] after[k] == before[k],
    ensures
        klines_in(after, symbol, interval) == Some(after[i].klines@),
        forall|s: Seq<char>, t: Seq<char>|
            s != symbol || t != interval ==> #[trigger] klines_in(after, s, t) == klines_in(
                before,
                s,
                t,
            ),
{
    lemma_series_from(before, symbol, interval, 0);
    lemma_series_at(after, symbol, interval, i);
    assert forall|s: Seq<char>, t: Seq<char>| s != symbol || t != interval implies #[trigger] klines_in(
        after,
        s,
        t,
    ) == klines_in(before, s, t) by {
        lemma_series_from(before, s, t, 0);
        lemma_series_from(after, s, t, 0);
        match series_from(before, s, t, 0) {
            Some(k) => {
                assert(k != i);
                assert(after[k] == before[k]);
                assert forall|j: int| 0 <= j < k implies !is_series(#[trigger] after[j], s, t) by {
                    assert(!is_series(before[j], s, t));
                }
                lemma_series_at(after, s, t, k);
            },
            None => {
                match series_from(after, s, t, 0) {
                    Some(k) => {
                        assert(!is_series(before[k], s, t));
                    },
                    None => {},
                }
            },
        }
    }
}

proof fn lemma_added(
    before: Seq<KlineSeries>,
    added: KlineSeries,
    symbol: Seq<char>,
    interval: Seq<char>,
)
    requires
        series_from(before, symbol, interval, 0) is None,
        is_series(added, symbol, interval),
    ensures
        klines_in(before.push(added), symbol, interval) == Some(added.klines@),
        forall|s: Seq<char>, t: Seq<char>|
            s != symbol || t != interval ==> #[trigger] klines_in(before.push(added), s, t)
                == klines_in(before, s, t),
{
    let after = before.push(added);
    lemma_series_from(before, symbol, interval, 0);
    assert forall|k: int| 0 <= k < before.len() implies !is_series(
        #[trigger] after[k],
        symbol,
        interval,
    ) by {
        assert(after[k] == before[k]);
    }
    lemma_series_at(after, symbol, interval, before.len() as int);
    assert forall|s: Seq<char>, t: Seq<char>| s != symbol || t != interval implies #[trigger] klines_in(
        after,
        s,
        t,
    ) == klines_in(before, s, t) by {
        lemma_series_from(before, s, t, 0);
        lemma_series_from(after, s, t, 0);
        match series_from(before, s, t, 0) {
            Some(k) => {
                assert(after[k] == before[k]);
                assert forall|j: int| 0 <= j < k implies !is_series(#[trigger] after[j], s, t) by {
                    assert(after[j] == before[j]);
                }
                lemma_series_at(after, s, t, k);
            },
            None => {
                match series_from(after, s, t, 0) {
                    Some(k) => {
                        if k < before.len() {
                            assert(after[k] == before[k]);
                        }
                    },
                    None => {},
                }
            },
        }
    }
}

/// Trade phase for in-trade management.
#[derive(Clone, Copy, Debug, PartialEq, Eq, Structural)]
pub enum TradePhase {
    /// Initial phase.
    Phase1,
    /// After 1.5R: SL at breakeven.
    Phase2,
    /// After 2.5R: Trailing stop active.
    Phase3,
}

/// Position tracking for phase detection.
#[derive(Clone, Debug)]
pub struct TrackedPosition {
    /// Symbol.
    pub symbol: String,
    /// Position direction (Long or Short).
    pub direction: Position,
    /// Entry price.
    pub entry_price: Decimal,
    /// Stop loss price.
    pub stop_loss: Decimal,
    /// Take profit price.
    pub take_profit: Decimal,
    /// Position size.
    pub size: Decimal,
    /// Risk per unit (|entry - stop loss|).
    pub risk_per_unit: Decimal,
    /// ATR value for trailing stop.
    pub atr_value: Decimal,
    /// Current phase.
    pub phase: TradePhase,
}

/// The model of a tracked position.
pub struct Follower {
    pub symbol: Seq<char>,
    pub direction: Position,
    pub entry_price: Dec,
    pub stop_loss: Dec,
    pub take_profit: Dec,
    pub size: Dec,
    pub risk_per_unit: Dec,
    pub atr_value: Dec,
    pub phase: TradePhase,
}

impl View for TrackedPosition {
    type V = Follower;

    open spec fn view(&self) -> Follower {
        Follower {
            symbol: self.symbol@,
            direction: self.direction,
            entry_price: self.entry_price@,
            stop_loss: self.stop_loss@,
            take_profit: self.take_profit@,
            size: self.size@,
            risk_per_unit: self.risk_per_unit@,
            atr_value: self.atr_value@,
            phase: self.phase,
        }
    }
}

/// R-multiple at which Phase 2 begins.
pub open spec fn phase2_r() -> Dec {
    Dec { m: 15, s: 1 }
}

/// R-multiple at which Phase 3 begins.
pub open spec fn phase3_r() -> Dec {
    Dec { m: 25, s: 1 }
}

/// Share of the position that is closed at Phase 2.
pub open spec fn phase2_share() -> Dec {
    Dec { m: 33, s: 2 }
}

/// The model of a phase event.
pub enum PhaseEvent {
    Phase2 { symbol: Seq<char>, close_quantity: Dec, new_stop_loss: Dec },
    Phase3 { symbol: Seq<char>, trailing_stop: Dec },
}

impl Follower {
    /// Profit in multiples of the initial risk; zero where there was no risk.
    pub open spec fn r_multiple(self, price: Dec) -> Option<Dec> {
        if self.risk_per_unit.m == 0 {
            Some(zero())
        } else {
            let pnl = match self.direction {
                Position::Long => difference(price, self.entry_price),
                Position::Short => difference(self.entry_price, price),
                Position::Flat => Some(zero()),
            };
            quotient_of(pnl, Some(self.risk_per_unit))
        }
    }

    /// The stop that trails a price by twice the average true range.
    pub open spec fn trailing_stop(self, price: Dec) -> Option<Dec> {
        let offset = product(self.atr_value, whole(2));
        match self.direction {
            Position::Long => difference_of(Some(price), offset),
            Position::Short => sum_of(Some(price), offset),
            Position::Flat => if offset is Some {
                Some(price)
            } else {
                None
            },
        }
    }

    /// The quantity to close at Phase 2.
    pub open spec fn close_quantity(self) -> Option<Dec> {
        product(self.size, phase2_share())
    }

    /// The position in Phase 2: the stop is at breakeven.
    pub open spec fn in_phase2(self) -> Follower {
        Follower { phase: TradePhase::Phase2, stop_loss: self.entry_price, ..self }
    }

    /// The position in Phase 3.
    pub open spec fn in_phase3(self) -> Follower {
        Follower { phase: TradePhase::Phase3, ..self }
    }

    /// The position after a price at a multiple of the risk, and the event that comes of it. Phase 3
    /// comes before Phase 2. Nothing where a figure cannot be held.
    pub open spec fn after_multiple(self, symbol: Seq<char>, price: Dec, r: Dec) -> Option<
        (Follower, Option<PhaseEvent>),
    > {
        if self.phase != TradePhase::Phase3 && r.units() >= phase3_r().units() {
            match self.trailing_stop(price) {
                Some(trailing_stop) => Some(
                    (self.in_phase3(), Some(PhaseEvent::Phase3 { symbol, trailing_stop })),
                ),
                None => None,
            }
        } else if self.phase == TradePhase::Phase1 && r.units() >= phase2_r().units() {
            match self.close_quantity() {
                Some(close_quantity) => Some(
                    (
                        self.in_phase2(),
                        Some(
                            PhaseEvent::Phase2 {
                                symbol,
                                close_quantity,
                                new_stop_loss: self.entry_price,
                            },
                        ),
                    ),
                ),
                None => None,
            }
        } else {
            Some((self, None))
        }
    }

    /// The position after a price, and the event that comes of it. In Phase 3 nothing more does.
    pub open spec fn after_price(self, symbol: Seq<char>, price: Dec) -> Option<
        (Follower, Option<PhaseEvent>),
    > {
        if self.phase == TradePhase::Phase3 {
            Some((self, None))
        } else {
            match self.r_multiple(price) {
                None => None,
                Some(r) => self.after_multiple(symbol, price, r),
            }
        }
    }
}

/// A position that has just begun to be tracked.
pub open spec fn fresh_follower(
    symbol: Seq<char>,
    direction: Position,
    entry: Dec,
    stop: Dec,
    target: Dec,
    size: Dec,
    atr: Dec,
) -> Follower {
    Follower {
        symbol,
        direction,
        entry_price: entry,
        stop_loss: stop,
        take_profit: target,
        size,
        risk_per_unit: difference(entry, stop)->0.magnitude(),
        atr_value: atr,
        phase: TradePhase::Phase1,
    }
}

/// A position that has just begun to be tracked is in its first phase, has what it was given, and its
/// risk is the distance from the entry to the stop, on whichever side that is.
pub proof fn law_fresh_follower_by_value(
    symbol: Seq<char>,
    direction: Position,
    entry: Dec,
    stop: Dec,
    target: Dec,
    size: Dec,
    atr: Dec,
)
    requires
        entry.valid(),
        stop.valid(),
        aligned_sum(entry, stop.negated()).valid(),
    ensures
        ({
            let t = fresh_follower(symbol, direction, entry, stop, target, size, atr);
            &&& t.symbol == symbol && t.direction == direction && t.entry_price == entry
            &&& t.stop_loss == stop && t.take_profit == target && t.size == size
            &&& t.atr_value == atr && t.phase == TradePhase::Phase1
            &&& t.risk_per_unit.units() == if entry.units() >= stop.units() {
                entry.units() - stop.units()
            } else {
                stop.units() - entry.units()
            }
        }),
{
    law_difference_is_exact(entry, stop);
    crate::exchange::engine::lemma_magnitude(difference(entry, stop)->0);
}

/// Each phase is announced once: right after an event, the same price brings no further one.
pub proof fn law_phase_announced_once(t: Follower, symbol: Seq<char>, price: Dec)
    requires
        t.after_price(symbol, price) is Some,
        (t.after_price(symbol, price)->0).1 is Some,
    ensures
        ({
            let next = (t.after_price(symbol, price)->0).0;
            next.after_price(symbol, price) == Some((next, None::<PhaseEvent>))
        }),
{
}

impl TrackedPosition {
    /// Creates a new tracked position.
    pub fn new(
        symbol: &str,
        direction: Position,
        entry_price: Decimal,
        stop_loss: Decimal,
        take_profit: Decimal,
        size: Decimal,
        atr_value: Decimal,
    ) -> (r: TrackedPosition)
        requires
            difference(entry_price@, stop_loss@) is Some,
        ensures
            r@ == fresh_follower(
                symbol@,
                direction,
                entry_price@,
                stop_loss@,
                take_profit@,
                size@,
                atr_value@,
            ),
    {
        let risk_per_unit = abs_opt(entry_price.checked_sub(&stop_loss)).unwrap();
        TrackedPosition {
            symbol: symbol.to_owned(),
            direction,
            entry_price,
            stop_loss,
            take_profit,
            size,
            risk_per_unit,
            atr_value,
            phase: TradePhase::Phase1,
        }
    }

    /// [`TrackedPosition::new`], or nothing where the risk cannot be held.
    pub fn checked_new(
        symbol: &str,
        direction: Position,
        entry_price: Decimal,
        stop_loss: Decimal,
        take_profit: Decimal,
        size: Decimal,
        atr_value: Decimal,
    ) -> (r: Option<TrackedPosition>)
        ensures
            r is Some == difference(entry_price@, stop_loss@) is Some,
            r is Some ==> r->0@ == (Follower {
                symbol: symbol@,
                direction,
                entry_price: entry_price@,
                stop_loss: stop_loss@,
                take_profit: take_profit@,
                size: size@,
                risk_per_unit: difference(entry_price@, stop_loss@)->0.magnitude(),
                atr_value: atr_value@,
                phase: TradePhase::Phase1,
            }),
    {
        if entry_price.checked_sub(&stop_loss).is_none() {
            return None;
        }
        Some(
            TrackedPosition::new(
                symbol,
                direction,
                entry_price,
                stop_loss,
                take_profit,
                size,
                atr_value,
            ),
        )
    }

    fn r_multiple_of(&self, price: Decimal) -> (r: Option<Decimal>)
        ensures
            opt_view(r) == self@.r_multiple(price@),
    {
        if self.risk_per_unit.is_zero() {
            return Some(Decimal::zero());
        }
        let pnl = match self.direction {
            Position::Long => price.checked_sub(&self.entry_price),
            Position::Short => self.entry_price.checked_sub(&price),
            Position::Flat => Some(Decimal::zero()),
        };
        div_opt(pnl, Some(self.risk_per_unit))
    }

    /// Calculates current R-multiple based on price.
    pub fn current_r_multiple(&self, current_price: Decimal) -> (r: Decimal)
        requires
            self@.r_multiple(current_price@) is Some,
        ensures
            Some(r@) == self@.r_multiple(current_price@),
    {
        self.r_multiple_of(current_price).unwrap()
    }

    /// Checks if price has reached 1.5R (Phase 2 trigger).
    pub fn should_trigger_phase2(&self, current_price: Decimal) -> (r: bool)
        requires
            self@.phase == TradePhase::Phase1 ==> self@.r_multiple(current_price@) is Some,
        ensures
            r == (self@.phase == TradePhase::Phase1 && self@.r_multiple(current_price@)->0.units()
                >= phase2_r().units()),
    {
        self.phase == TradePhase::Phase1 && Decimal::new(15, 1).le(
            &self.current_r_multiple(current_price),
        )
    }

    /// Checks if price has reached 2.5R (Phase 3 trigger).
    pub fn should_trigger_phase3(&self, current_price: Decimal) -> (r: bool)
        requires
            self@.phase != TradePhase::Phase3 ==> self@.r_multiple(current_price@) is Some,
        ensures
            r == (self@.phase != TradePhase::Phase3 && self@.r_multiple(current_price@)->0.units()
                >= phase3_r().units()),
    {
        self.phase != TradePhase::Phase3 && Decimal::new(25, 1).le(
            &self.current_r_multiple(current_price),
        )
    }

    /// Transitions to Phase 2: SL to breakeven.
    pub fn transition_phase2(&mut self)
        ensures
            final(self)@ == old(self)@.in_phase2(),
    {
        self.phase = TradePhase::Phase2;
        self.stop_loss = self.entry_price;
    }

    /// Transitions to Phase 3: trailing stop active.
    pub fn transition_phase3(&mut self)
        ensures
            final(self)@ == old(self)@.in_phase3(),
    {
        self.phase = TradePhase::Phase3;
    }

    fn trailing_stop_of(&self, price: Decimal) -> (r: Option<Decimal>)
        ensures
            opt_view(r) == self@.trailing_stop(price@),
    {
        let offset = self.atr_value.checked_mul(&Decimal::from_u32(2));
        match self.direction {
            Position::Long => sub_opt(Some(price), offset),
            Position::Short => add_opt(Some(price), offset),
            Position::Flat => {
                if offset.is_some() {
                    Some(price)
                } else {
                    None
                }
            },
        }
    }

    /// Calculates trailing stop price.
    pub fn trailing_stop_price(&self, current_price: Decimal) -> (r: Decimal)
        requires
            self@.trailing_stop(current_price@) is Some,
        ensures
            Some(r@) == self@.trailing_stop(current_price@),
    {
        self.trailing_stop_of(current_price).unwrap()
    }

    /// Calculates quantity to close at Phase 2 (33%).
    pub fn phase2_close_quantity(&self) -> (r: Decimal)
        requires
            self@.close_quantity() is Some,
        ensures
            Some(r@) == self@.close_quantity(),
    {
        self.size.checked_mul(&Decimal::new(33, 2)).unwrap()
    }

    /// Moves the position to the phase that a multiple of the risk calls for, and says which event
    /// comes of it. Where a figure cannot be held, nothing changes and the result is nothing.
    pub fn follow_multiple(
        &mut self,
        symbol: &str,
        current_price: Decimal,
        r_multiple: Decimal,
    ) -> (r: Option<Option<StreamEvent>>)
        ensures
            match old(self)@.after_multiple(symbol@, current_price@, r_multiple@) {
                Some(next) => r is Some && final(self)@ == next.0 && phase_event(r->0) == Some(
                    next.1,
                ),
                None => r is None && *final(self) == *old(self),
            },
    {
        if self.phase != TradePhase::Phase3 && Decimal::new(25, 1).le(&r_multiple) {
            if self.trailing_stop_of(current_price).is_none() {
                return None;
            }
            let trailing_stop = self.trailing_stop_price(current_price);
            self.transition_phase3();
            return Some(
                Some(StreamEvent::Phase3Triggered { symbol: symbol.to_owned(), trailing_stop }),
            );
        }
        if self.phase == TradePhase::Phase1 && Decimal::new(15, 1).le(&r_multiple) {
            if self.size.checked_mul(&Decimal::new(33, 2)).is_none() {
                return None;
            }
            let close_quantity = self.phase2_close_quantity();
            self.transition_phase2();
            return Some(
                Some(
                    StreamEvent::Phase2Triggered {
                        symbol: symbol.to_owned(),
                        close_quantity,
                        new_stop_loss: self.entry_price,
                    },
                ),
            );
        }
        Some(None)
    }

    /// [`TrackedPosition::current_r_multiple`] and the two triggers, or nothing where the multiple
    /// cannot be held.
    pub fn checked_triggers(&self, current_price: Decimal) -> (r: Option<(Decimal, bool, bool)>)
        ensures
            match self@.r_multiple(current_price@) {
                Some(m) => r is Some && (r->0).0@ == m && (r->0).1 == (self@.phase
                    == TradePhase::Phase1 && m.units() >= phase2_r().units()) && (r->0).2 == (
                self@.phase != TradePhase::Phase3 && m.units() >= phase3_r().units()),
                None => r is None,
            },
    {
        if self.r_multiple_of(current_price).is_none() {
            return None;
        }
        Some(
            (
                self.current_r_multiple(current_price),
                self.should_trigger_phase2(current_price),
                self.should_trigger_phase3(current_price),
            ),
        )
    }

    /// Moves the position to the phase that a price calls for, and says which event comes of it.
    /// Where a figure cannot be held, nothing changes and the result is nothing.
    pub fn follow_price(&mut self, symbol: &str, current_price: Decimal) -> (r: Option<
        Option<StreamEvent>,
    >)
        ensures
            match old(self)@.after_price(symbol@, current_price@) {
                Some(next) => r is Some && final(self)@ == next.0 && phase_event(r->0) == Some(
                    next.1,
                ),
                None => r is None && *final(self) == *old(self),
            },
    {
        if self.phase == TradePhase::Phase3 {
            return Some(None);
        }
        let triggers = self.checked_triggers(current_price)?;
        self.follow_multiple(symbol, current_price, triggers.0)
    }
}

/// Events emitted by stream processor.
#[derive(Clone, Debug)]
pub enum StreamEvent {
    /// Price tick received.
    PriceTick(PriceTick),
    /// Phase 2 triggered: move SL to breakeven, close 33%.
    Phase2Triggered { symbol: String, close_quantity: Decimal, new_stop_loss: Decimal },
    /// Phase 3 triggered: activate trailing stop.
    Phase3Triggered { symbol: String, trailing_stop: Decimal },
    /// Candle closed (for indicator updates).
    KlineClosed(KlineEvent),
    /// Reconnection occurred (trigger state sync).
    Reconnected,
}

/// The model of an optional phase event; nothing where it is an event of another kind.
pub open spec fn phase_event(e: Option<StreamEvent>) -> Option<Option<PhaseEvent>> {
    match e {
        None => Some(None),
        Some(StreamEvent::Phase2Triggered { symbol, close_quantity, new_stop_loss }) => Some(
            Some(
                PhaseEvent::Phase2 {
                    symbol: symbol@,
                    close_quantity: close_quantity@,
                    new_stop_loss: new_stop_loss@,
                },
            ),
        ),
        Some(StreamEvent::Phase3Triggered { symbol, trailing_stop }) => Some(
            Some(PhaseEvent::Phase3 { symbol: symbol@, trailing_stop: trailing_stop@ }),
        ),
        Some(_) => None,
    }
}

/// A second candle event with the same content.
pub fn copy_kline(k: &KlineEvent) -> (r: KlineEvent)
    ensures
        r == *k,
{
    let d = &k.kline;
    KlineEvent {
        event_type: k.event_type.clone(),
        event_time: k.event_time,
        symbol: k.symbol.clone(),
        kline: KlineData {
            start_time: d.start_time,
            close_time: d.close_time,
            symbol: d.symbol.clone(),
            interval: d.interval.clone(),
            open: d.open.clone(),
            close: d.close.clone(),
            high: d.high.clone(),
            low: d.low.clone(),
            volume: d.volume.clone(),
            num_trades: d.num_trades,
            is_closed: d.is_closed,
            quote_volume: d.quote_volume.clone(),
        },
    }
}

/// The model of a stream event.
pub enum Announcement {
    Tick { symbol: Seq<char>, price: Dec, timestamp: u64 },
    Phase(PhaseEvent),
    KlineClosed(KlineEvent),
    Reconnected,
}

impl View for StreamEvent {
    type V = Announcement;

    open spec fn view(&self) -> Announcement {
        match *self {
            StreamEvent::PriceTick(t) => Announcement::Tick {
                symbol: t.symbol@,
                price: t.price@,
                timestamp: t.timestamp,
            },
            StreamEvent::Phase2Triggered { symbol, close_quantity, new_stop_loss } =>
                Announcement::Phase(
                PhaseEvent::Phase2 {
                    symbol: symbol@,
                    close_quantity: close_quantity@,
                    new_stop_loss: new_stop_loss@,
                },
            ),
            StreamEvent::Phase3Triggered { symbol, trailing_stop } => Announcement::Phase(
                PhaseEvent::Phase3 { symbol: symbol@, trailing_stop: trailing_stop@ },
            ),
            StreamEvent::KlineClosed(k) => Announcement::KlineClosed(k),
            StreamEvent::Reconnected => Announcement::Reconnected,
        }
    }
}

/// The models of a list of events.
pub open spec fn announcements(v: Seq<StreamEvent>) -> Seq<Announcement> {
    v.map_values(|e: StreamEvent| e@)
}

/// The positions as models.
pub open spec fn followers(m: Map<Seq<char>, TrackedPosition>) -> Map<Seq<char>, Follower> {
    m.map_values(|p: TrackedPosition| p@)
}

/// The positions after a trade at a price, and the events: the tick comes first. Nothing where a
/// figure cannot be held.
pub open spec fn after_trade(
    positions: Map<Seq<char>, Follower>,
    symbol: Seq<char>,
    price: Dec,
    timestamp: u64,
) -> Option<(Map<Seq<char>, Follower>, Seq<Announcement>)> {
    let tick = Announcement::Tick { symbol, price, timestamp };
    if !positions.dom().contains(symbol) {
        Some((positions, seq![tick]))
    } else {
        match positions[symbol].after_price(symbol, price) {
            None => None,
            Some(next) => Some(
                (
                    positions.insert(symbol, next.0),
                    match next.1 {
                        Some(e) => seq![tick, Announcement::Phase(e)],
                        None => seq![tick],
                    },
                ),
            ),
        }
    }
}

/// Stream processor that monitors prices and triggers phase transitions.
pub struct StreamProcessor {
    positions: SymbolMap<TrackedPosition>,
    kline_buffer: KlineBuffer,
}

fn copy_tracked(p: &TrackedPosition) -> (r: TrackedPosition)
    ensures
        r@ == p@,
{
    TrackedPosition {
        symbol: p.symbol.clone(),
        direction: p.direction,
        entry_price: p.entry_price,
        stop_loss: p.stop_loss,
        take_profit: p.take_profit,
        size: p.size,
        risk_per_unit: p.risk_per_unit,
        atr_value: p.atr_value,
        phase: p.phase,
    }
}

/// What a message does to a processor, and which events come of it: a trade is followed by its
/// price, a candle is buffered and announced when it is closed, and anything else is passed over.
pub open spec fn processed(
    before: StreamProcessor,
    after: StreamProcessor,
    msg: WsMessage,
    r: Option<Vec<StreamEvent>>,
) -> bool {
    match msg {
        WsMessage::AggTrade(trade) => after.buffer() == before.buffer()
            && match parsed(trade.price@) {
            Some(price) => match after_trade(
                before.book(),
                trade.symbol@,
                price,
                trade.trade_time,
            ) {
                Some(next) => r is Some && after.book() == next.0 && announcements(
                    r->0@,
                ) == next.1,
                None => r is None && after.book() == before.book(),
            },
            None => r is Some && r->0@.len() == 0 && after.book() == before.book(),
        },
        WsMessage::Kline(kline) => {
            &&& after.book() == before.book()
            &&& r is Some
            &&& announcements(r->0@) == if kline.kline.is_closed {
                seq![Announcement::KlineClosed(kline)]
            } else {
                Seq::<Announcement>::empty()
            }
            &&& after.buffer().limit() == before.buffer().limit()
            &&& after.buffer().klines(kline.symbol@, kline.kline.interval@) == Some(
                with_kline(
                    before.buffer().klines(kline.symbol@, kline.kline.interval@),
                    kline,
                    before.buffer().limit(),
                ),
            )
            &&& forall|s: Seq<char>, i: Seq<char>|
                s != kline.symbol@ || i != kline.kline.interval@
                    ==> #[trigger] after.buffer().klines(s, i) == before.buffer().klines(s, i)
            &&& before.buffer().bounded() ==> after.buffer().bounded()
        },
        _ => r is Some && r->0@.len() == 0 && after.book() == before.book()
            && after.buffer() == before.buffer(),
    }
}

impl StreamProcessor {
    /// The tracked positions.
    pub closed spec fn tracked_positions(&self) -> Map<Seq<char>, TrackedPosition> {
        self.positions@
    }

    /// The tracked positions as models.
    pub open spec fn book(&self) -> Map<Seq<char>, Follower> {
        followers(self.tracked_positions())
    }

    /// The candle buffer.
    pub closed spec fn buffer(&self) -> KlineBuffer {
        self.kline_buffer
    }

    /// Creates a new stream processor.
    pub fn new() -> (r: StreamProcessor)
        ensures
            r.book() == Map::<Seq<char>, Follower>::empty(),
            r.buffer().limit() == 100,
            r.buffer().bounded(),
            forall|s: Seq<char>, i: Seq<char>| (#[trigger] r.buffer().klines(s, i)) is None,
    {
        let r = StreamProcessor {
            positions: SymbolMap::new(),
            kline_buffer: KlineBuffer::new(config::BACKFILL_KLINE_COUNT as usize),
        };
        assert(r.book() =~= Map::<Seq<char>, Follower>::empty());
        r
    }

    /// Adds a position to track, in place of any other of its symbol.
    pub fn track_position(&mut self, position: TrackedPosition)
        ensures
            final(self).book() == old(self).book().insert(position@.symbol, position@),
            final(self).buffer() == old(self).buffer(),
    {
        let symbol = position.symbol.clone();
        self.put(symbol.as_str(), position);
    }

    fn put(&mut self, symbol: &str, position: TrackedPosition)
        ensures
            final(self).book() == old(self).book().insert(symbol@, position@),
            final(self).buffer() == old(self).buffer(),
    {
        let ghost before = self.tracked_positions();
        self.positions.insert(symbol, position);
        assert(self.book() =~= followers(before).insert(symbol@, position@));
    }

    /// Removes a position from tracking.
    pub fn untrack_position(&mut self, symbol: &str)
        ensures
            final(self).book() == old(self).book().remove(symbol@),
            final(self).buffer() == old(self).buffer(),
    {
        let ghost before = self.tracked_positions();
        self.positions.remove(symbol);
        assert(self.book() =~= followers(before).remove(symbol@));
    }

    /// Takes a price of a symbol: announces the tick, and the phase that it brings its position
    /// to. Where a figure cannot be held, nothing changes and the result is nothing.
    pub fn process_price(&mut self, symbol: &str, price: Decimal, timestamp: u64) -> (r: Option<
        Vec<StreamEvent>,
    >)
        ensures
            final(self).buffer() == old(self).buffer(),
            match after_trade(old(self).book(), symbol@, price@, timestamp) {
                Some(next) => r is Some && final(self).book() == next.0 && announcements(r->0@)
                    == next.1,
                None => r is None && final(self).book() == old(self).book(),
            },
    {
        let mut events: Vec<StreamEvent> = Vec::new();
        events.push(
            StreamEvent::PriceTick(PriceTick { symbol: symbol.to_owned(), price, timestamp }),
        );
        let ghost tick = Announcement::Tick { symbol: symbol@, price: price@, timestamp };
        assert(announcements(events@) =~= seq![tick]);
        let mut p = match self.positions.get(symbol) {
            Some(p) => copy_tracked(p),
            None => {
                return Some(events);
            },
        };
        let event = p.follow_price(symbol, price)?;
        self.put(symbol, p);
        match event {
            Some(e) => {
                events.push(e);
                assert(announcements(events@) =~= seq![tick, e@]);
            },
            None => {},
        }
        Some(events)
    }

    /// Processes a message: a trade is followed by its price, a candle is buffered and announced
    /// when it is closed, and anything else is passed over. Where a figure cannot be held, nothing
    /// changes and the result is nothing.
    pub fn process_message(&mut self, msg: WsMessage) -> (r: Option<Vec<StreamEvent>>)
        ensures
            processed(*old(self), *final(self), msg, r),
    {
        match msg {
            WsMessage::AggTrade(trade) => match trade.price_decimal() {
                Some(price) => self.process_price(trade.symbol.as_str(), price, trade.trade_time),
                None => Some(Vec::new()),
            },
            WsMessage::Kline(kline) => {
                let mut events: Vec<StreamEvent> = Vec::new();
                let closed = kline.kline.is_closed;
                let copy = copy_kline(&kline);
                self.kline_buffer.push(kline);
                if closed {
                    events.push(StreamEvent::KlineClosed(copy));
                    assert(announcements(events@) =~= seq![Announcement::KlineClosed(kline)]);
                } else {
                    assert(announcements(events@) =~= Seq::<Announcement>::empty());
                }
                Some(events)
            },
            _ => Some(Vec::new()),
        }
    }

    /// Returns the candle buffer for backfill.
    pub fn kline_buffer(&self) -> (r: &KlineBuffer)
        ensures
            *r == self.buffer(),
    {
        &self.kline_buffer
    }
}

/// The gain of one unit at a price, by value: how far the price is above the entry of a long position
/// or below that of a short one; without a position there is none.
pub open spec fn gain(t: Follower, price: Dec) -> int {
    if t.direction == Position::Long {
        price.units() - t.entry_price.units()
    } else if t.direction == Position::Short {
        t.entry_price.units() - price.units()
    } else {
        0
    }
}

/// The entry and a price can be subtracted without loss.
pub open spec fn comparable(t: Follower, price: Dec) -> bool {
    &&& t.entry_price.valid() && price.valid()
    &&& aligned_sum(price, t.entry_price.negated()).valid()
    &&& aligned_sum(t.entry_price, price.negated()).valid()
}

/// The phase that a price brings a tracked position to, by the gain of the price: the third from a
/// gain of two and a half risks on, the second, from the first, from one and a half on, and below
/// that nothing is announced. Only a hundred units of the smallest scale are left open around the two
/// bounds, and the bounds themselves are not.
pub proof fn law_phases_by_gain(t: Follower, symbol: Seq<char>, price: Dec)
    requires
        t.phase != TradePhase::Phase3,
        t.after_price(symbol, price) is Some,
        comparable(t, price),
        t.risk_per_unit.valid(),
        t.risk_per_unit.units() > 0,
    ensures
        ({
            let risk = t.risk_per_unit.units();
            let won = gain(t, price);
            let (after, event) = t.after_price(symbol, price)->0;
            &&& 10 * won == 25 * risk || won * pow10(28) >= risk * (25 * pow10(27) + 102)
                ==> after.phase == TradePhase::Phase3
            &&& won * pow10(28) < risk * (25 * pow10(27) - 102) ==> after.phase != TradePhase::Phase3
            &&& t.phase == TradePhase::Phase1 && (10 * won == 15 * risk || won * pow10(28) >= risk * (
            15 * pow10(27) + 102)) ==> after.phase != TradePhase::Phase1
            &&& won * pow10(28) < risk * (15 * pow10(27) - 102) ==> after == t && event is None
            &&& after.phase == t.phase ==> after == t && event is None
            &&& after.phase != t.phase ==> event is Some
        }),
{
    law_difference_is_exact(price, t.entry_price);
    law_difference_is_exact(t.entry_price, price);
    lemma_units_sign(t.risk_per_unit);
    lemma_units_sign(zero());
    let a = if t.direction == Position::Long {
        difference(price, t.entry_price)->0
    } else if t.direction == Position::Short {
        difference(t.entry_price, price)->0
    } else {
        zero()
    };
    let b = t.risk_per_unit;
    let w = pow10(20);
    let q = pow10(27);
    lemma_pow10_positive(27);
    assert(pow10(28) == 10 * q);
    assert(pow10(29) == 10 * pow10(28));
    assert(phase2_r().units() == 15 * q);
    assert(phase3_r().units() == 25 * q);
    law_quotient_reaches(a, b, 15 * q);
    law_quotient_reaches(a, b, 25 * q);
    let won = gain(t, price);
    let risk = b.units();
    let h = pow10(8);
    lemma_pow10_add(7, 20);
    reveal_with_fuel(pow10, 9);
    assert(h == 100000000);
    assert(pow10(7) == 10000000);
    assert(q == 10000000 * w);
    assert(won * (10 * q) < risk * (15 * q - 102) ==> won * (10 * q) < risk * (25 * q - 102))
        by (nonlinear_arith)
        requires
            risk > 0,
            q >= 1,
    ;
    if 10 * won == 25 * risk {
        assert(won * h == 250000000 * risk) by (nonlinear_arith)
            requires
                10 * won == 25 * risk,
                h == 100000000,
        ;
        law_quotient_of_multiple(a, b, 250000000);
    }
    if 10 * won == 15 * risk {
        assert(won * h == 150000000 * risk) by (nonlinear_arith)
            requires
                10 * won == 15 * risk,
                h == 100000000,
        ;
        law_quotient_of_multiple(a, b, 150000000);
    }
}

/// What the announcements of phases say: of the second phase, that 33 hundredths of the position are
/// to be closed and the stop goes to the entry, which is then the position's; of the third, that the
/// stop lies twice the average true range behind the price, below it for a long position and above
/// it for a short one. Each names the symbol of the price.
pub proof fn law_phase_events_by_value(t: Follower, symbol: Seq<char>, price: Dec)
    requires
        t.after_price(symbol, price) is Some,
        price.valid(),
    ensures
        ({
            let (after, event) = t.after_price(symbol, price)->0;
            &&& event matches Some(PhaseEvent::Phase2 { symbol: s, close_quantity, new_stop_loss })
                ==> {
                &&& s == symbol && new_stop_loss == t.entry_price
                &&& after.stop_loss == t.entry_price
                &&& t.phase == TradePhase::Phase1 && after.phase == TradePhase::Phase2
                &&& t.size.valid() && (Dec { m: t.size.m * 33, s: t.size.s + 2 }).valid() ==> 100
                    * close_quantity.units() == 33 * t.size.units()
            }
            &&& event matches Some(PhaseEvent::Phase3 { symbol: s, trailing_stop }) ==> {
                &&& s == symbol && after.phase == TradePhase::Phase3
                &&& after.stop_loss == t.stop_loss
                &&& trail_fits(t, price) ==> trailing_stop.units() == if t.direction
                    == Position::Long {
                    price.units() - 2 * t.atr_value.units()
                } else if t.direction == Position::Short {
                    price.units() + 2 * t.atr_value.units()
                } else {
                    price.units()
                }
            }
            &&& after.entry_price == t.entry_price && after.size == t.size && after.take_profit
                == t.take_profit && after.risk_per_unit == t.risk_per_unit && after.symbol
                == t.symbol && after.direction == t.direction
        }),
{
    if trail_fits(t, price) {
        law_trailing_stop_by_value(t, price);
    }
    if t.size.valid() && (Dec { m: t.size.m * 33, s: t.size.s + 2 }).valid() {
        law_product_is_exact(t.size, phase2_share());
        let q = product(t.size, phase2_share())->0;
        let w = pow10(26);
        lemma_pow10_positive(26);
        assert(pow10(27) == 10 * w);
        assert(pow10(28) == 10 * pow10(27));
        assert(phase2_share().units() == 33 * w);
        assert(100 * q.units() == 33 * t.size.units()) by (nonlinear_arith)
            requires
                q.units() * (100 * w) == t.size.units() * (33 * w),
                w >= 1,
        ;
    }
}

/// The figures of a trailing stop fit.
pub open spec fn trail_fits(t: Follower, price: Dec) -> bool {
    let offset = product(t.atr_value, whole(2))->0;
    &&& t.atr_value.valid() && price.valid()
    &&& (Dec { m: t.atr_value.m * 2, s: t.atr_value.s }).valid()
    &&& aligned_sum(price, offset).valid() && aligned_sum(price, offset.negated()).valid()
}

/// The trailing stop lies twice the average true range below the price of a long position, and above
/// that of a short one.
pub proof fn law_trailing_stop_by_value(t: Follower, price: Dec)
    requires
        trail_fits(t, price),
    ensures
        t.trailing_stop(price) is Some,
        t.trailing_stop(price)->0.units() == if t.direction == Position::Long {
            price.units() - 2 * t.atr_value.units()
        } else if t.direction == Position::Short {
            price.units() + 2 * t.atr_value.units()
        } else {
            price.units()
        },
{
    let two = whole(2);
    law_product_is_exact(t.atr_value, two);
    law_product_is_rounded(t.atr_value, two);
    let offset = product(t.atr_value, two)->0;
    let p = pow10(28);
    lemma_pow10_positive(28);
    assert(two.units() == 2 * p);
    assert(offset.units() == 2 * t.atr_value.units()) by (nonlinear_arith)
        requires
            offset.units() * p == t.atr_value.units() * (2 * p),
            p >= 1,
    ;
    law_sum_is_exact(price, offset);
    law_difference_is_exact(price, offset);
}

/// A candle that comes is the newest of those that are kept, the others keep their order, and only
/// where there are too many is one forgotten, the oldest.
pub proof fn law_buffer_keeps_the_newest(old_klines: Seq<KlineEvent>, k: KlineEvent, max_size: nat)
    requires
        max_size >= 1,
        old_klines.len() <= max_size,
    ensures
        ({
            let kept = with_kline(Some(old_klines), k, max_size);
            &&& kept.len() >= 1 && kept.last() == k
            &&& kept.len() <= max_size
            &&& old_klines.len() < max_size ==> kept.drop_last() == old_klines
            &&& old_klines.len() == max_size ==> kept.drop_last() == old_klines.skip(1)
        }),
        with_kline(None, k, max_size) == seq![k],
{
    let kept = with_kline(Some(old_klines), k, max_size);
    if old_klines.len() < max_size {
        assert(kept.drop_last() =~= old_klines);
    } else {
        assert(kept.drop_last() =~= old_klines.skip(1));
    }
}

/// A price is always announced, first and with its own symbol, price and time; a phase event follows
/// only for a position of that symbol, and no other position changes.
pub proof fn law_prices_are_announced(
    book: Map<Seq<char>, Follower>,
    symbol: Seq<char>,
    price: Dec,
    timestamp: u64,
    other: Seq<char>,
)
    requires
        after_trade(book, symbol, price, timestamp) is Some,
        other != symbol,
    ensures
        ({
            let (after, events) = after_trade(book, symbol, price, timestamp)->0;
            &&& 1 <= events.len() <= 2
            &&& events[0] == (Announcement::Tick { symbol, price, timestamp })
            &&& events.len() == 2 ==> book.dom().contains(symbol) && events[1] is Phase
            &&& after.dom().contains(other) == book.dom().contains(other)
            &&& book.dom().contains(other) ==> after[other] == book[other]
            &&& !book.dom().contains(symbol) ==> after == book
            &&& book.dom().contains(symbol) ==> book[symbol].after_price(symbol, price) is Some
                && after[symbol] == (book[symbol].after_price(symbol, price)->0).0
        }),
{
}

proof fn lemma_market_streams_count(symbols: Seq<Seq<char>>, intervals: Seq<Seq<char>>, n: nat)
    requires
        n <= symbols.len(),
    ensures
        market_streams(symbols, intervals, n).len() == n * (1 + intervals.len()),
    decreases n,
{
    let m = 1 + intervals.len();
    if n > 0 {
        lemma_market_streams_count(symbols, intervals, (n - 1) as nat);
        assert(n * m == (n - 1) * m + m) by (nonlinear_arith);
        assert(kline_streams(lowercase(symbols[n - 1]), intervals).len() == intervals.len());
    } else {
        assert(0 * m == 0) by (nonlinear_arith);
    }
}

/// The streams of a market address: for each symbol, in small letters, one of its trades and then one
/// of its candles of each interval, symbol after symbol, and no others.
pub proof fn law_market_streams_cover(
    symbols: Seq<Seq<char>>,
    intervals: Seq<Seq<char>>,
    n: nat,
    i: int,
    k: int,
)
    requires
        n <= symbols.len(),
        0 <= i < n,
        0 <= k < intervals.len(),
    ensures
        ({
            let streams = market_streams(symbols, intervals, n);
            let first = i * (1 + intervals.len());
            &&& streams.len() == n * (1 + intervals.len())
            &&& 0 <= first && first + 1 + k < streams.len()
            &&& streams[first] == lowercase(symbols[i]) + "@aggTrade"@
            &&& streams[first + 1 + k] == lowercase(symbols[i]) + "@kline_"@ + intervals[k]
        }),
    decreases n,
{
    let m = 1 + intervals.len();
    let all = market_streams(symbols, intervals, n);
    let before = market_streams(symbols, intervals, (n - 1) as nat);
    let s = lowercase(symbols[n - 1]);
    let candles = kline_streams(s, intervals);
    lemma_market_streams_count(symbols, intervals, n);
    lemma_market_streams_count(symbols, intervals, (n - 1) as nat);
    let first = i * m;
    assert(all == before.push(s + "@aggTrade"@) + candles);
    assert(n * m == (n - 1) * m + m) by (nonlinear_arith);
    assert(first >= 0) by (nonlinear_arith)
        requires
            first == i * m,
            i >= 0,
            m >= 1,
    ;
    if i < n - 1 {
        law_market_streams_cover(symbols, intervals, (n - 1) as nat, i, k);
        assert(all[first] == before[first]);
        assert(all[first + 1 + k] == before[first + 1 + k]);
    } else {
        assert(first == before.len());
        assert(candles[k] == s + "@kline_"@ + intervals[k]);
        assert(all[first + 1 + k] == candles[k]);
    }
}

/// A tracked position that has no risk, or is in its third phase already, announces nothing.
pub proof fn law_nothing_to_announce(t: Follower, symbol: Seq<char>, price: Dec)
    requires
        t.risk_per_unit.m == 0 || t.phase == TradePhase::Phase3,
    ensures
        t.after_price(symbol, price) == Some((t, None::<PhaseEvent>)),
{
    lemma_units_sign(zero());
    lemma_pow10_positive(27);
    assert(phase2_r().units() == 15 * pow10(27));
    assert(phase3_r().units() == 25 * pow10(27));
}

/// What comes of a candle: it is the newest of its symbol and interval, no tracked position changes,
/// and it is announced exactly where it is closed.
pub proof fn law_closed_candles_are_announced(
    before: StreamProcessor,
    after: StreamProcessor,
    kline: KlineEvent,
    r: Option<Vec<StreamEvent>>,
)
    requires
        processed(before, after, WsMessage::Kline(kline), r),
        before.buffer().limit() >= 1,
    ensures
        r is Some,
        kline.kline.is_closed ==> r->0@.len() == 1 && r->0@[0] == StreamEvent::KlineClosed(kline),
        !kline.kline.is_closed ==> r->0@.len() == 0,
        after.book() == before.book(),
        after.buffer().klines(kline.symbol@, kline.kline.interval@) is Some,
        after.buffer().klines(kline.symbol@, kline.kline.interval@)->0.len() >= 1,
        after.buffer().klines(kline.symbol@, kline.kline.interval@)->0.last() == kline,
{
    let events = announcements(r->0@);
    assert(events.len() == r->0@.len());
    if kline.kline.is_closed {
        assert(events[0] == r->0@[0]@);
        assert(events[0] == Announcement::KlineClosed(kline));
    }
}

/// The phases of a tracked position by the multiple of its risk, in units of the smallest scale: the
/// third from 2.5 on, the second from 1.5 on where it is in the first, and otherwise it stays.
pub proof fn law_phases_by_multiple(t: Follower, symbol: Seq<char>, price: Dec, r: Dec)
    requires
        t.after_multiple(symbol, price, r) is Some,
    ensures
        ({
            let (after, event) = t.after_multiple(symbol, price, r)->0;
            let m = r.units();
            &&& t.phase != TradePhase::Phase3 && m >= 25 * pow10(27) ==> after.phase
                == TradePhase::Phase3 && event is Some && event->0 is Phase3
            &&& t.phase == TradePhase::Phase1 && 15 * pow10(27) <= m < 25 * pow10(27) ==> after.phase
                == TradePhase::Phase2 && event is Some && event->0 is Phase2
            &&& t.phase == TradePhase::Phase2 && m < 25 * pow10(27) ==> after == t && event is None
            &&& m < 15 * pow10(27) ==> after == t && event is None
            &&& t.phase == TradePhase::Phase3 ==> after == t && event is None
        }),
{
    lemma_pow10_positive(27);
    assert(phase2_r().units() == 15 * pow10(27));
    assert(phase3_r().units() == 25 * pow10(27));
}

/// A price is followed wherever its figures fit.
pub proof fn law_following_is_owed(t: Follower, symbol: Seq<char>, price: Dec)
    requires
        comparable(t, price),
        t.risk_per_unit.m == 0 || (quotient(difference(price, t.entry_price)->0, t.risk_per_unit) is Some
            && quotient(difference(t.entry_price, price)->0, t.risk_per_unit) is Some),
        trail_fits(t, price),
        t.size.valid(),
        (Dec { m: t.size.m * 33, s: t.size.s + 2 }).valid(),
    ensures
        t.after_price(symbol, price) is Some,
{
    law_difference_is_exact(price, t.entry_price);
    law_difference_is_exact(t.entry_price, price);
    law_trailing_stop_by_value(t, price);
    law_product_is_exact(t.size, phase2_share());
    if t.direction == Position::Flat && t.risk_per_unit.m != 0 {
        assert(quotient(zero(), t.risk_per_unit) == Some(zero()));
    }
}

} // verus!
