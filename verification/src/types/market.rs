//! Candles: open, high, low and close prices and the volume of an interval.
use crate::decimal::{
    abs_opt, aligned_sum, difference, law_difference_is_exact, lemma_pow10_positive,
    lemma_units_sign, magnitude_of, opt_view, parsed, pow10, Dec, Decimal, Price, Volume,
};
use crate::time::{Moment, Timestamp};
use crate::websocket::messages::KlineEvent;
use vstd::prelude::*;

verus! {

/// The model of a candle.
pub struct Bar {
    pub timestamp: Moment,
    pub open: Dec,
    pub high: Dec,
    pub low: Dec,
    pub close: Dec,
    pub volume: Dec,
}

impl Bar {
    /// The close is above the open.
    pub open spec fn rises(self) -> bool {
        self.close.units() > self.open.units()
    }

    /// The close is below the open.
    pub open spec fn falls(self) -> bool {
        self.close.units() < self.open.units()
    }

    /// The distance from the opening to the closing price.
    pub open spec fn body(self) -> Option<Dec> {
        magnitude_of(difference(self.close, self.open))
    }

    /// The distance from the lowest to the highest price.
    pub open spec fn span(self) -> Option<Dec> {
        difference(self.high, self.low)
    }
}

/// Candlestick data of one interval.
#[derive(Clone, Copy, Debug, PartialEq)]
pub struct Candle {
    /// Candle open time.
    pub timestamp: Timestamp,
    /// Opening price.
    pub open: Price,
    /// Highest price during the period.
    pub high: Price,
    /// Lowest price during the period.
    pub low: Price,
    /// Closing price.
    pub close: Price,
    /// Trading volume during the period.
    pub volume: Volume,
}

impl View for Candle {
    type V = Bar;

    open spec fn view(&self) -> Bar {
        Bar {
            timestamp: self.timestamp@,
            open: self.open@,
            high: self.high@,
            low: self.low@,
            close: self.close@,
            volume: self.volume@,
        }
    }
}

impl Candle {
    /// Creates a new candle.
    pub fn new(
        timestamp: Timestamp,
        open: Price,
        high: Price,
        low: Price,
        close: Price,
        volume: Volume,
    ) -> (r: Candle)
        ensures
            r == (Candle { timestamp, open, high, low, close, volume }),
    {
        Candle { timestamp, open, high, low, close, volume }
    }

    /// Returns true if the candle is bullish (close > open).
    pub fn is_bullish(&self) -> (r: bool)
        ensures
            r == self@.rises(),
    {
        self.open.lt(&self.close)
    }

    /// Returns true if the candle is bearish (close < open).
    pub fn is_bearish(&self) -> (r: bool)
        ensures
            r == self@.falls(),
    {
        self.close.lt(&self.open)
    }

    /// Returns the body size (absolute difference between open and close).
    pub fn body_size(&self) -> (r: Price)
        requires
            self@.body() is Some,
        ensures
            Some(r@) == self@.body(),
    {
        abs_opt(self.close.checked_sub(&self.open)).unwrap()
    }

    /// [`Candle::body_size`], or nothing where it cannot be held.
    pub fn checked_body_size(&self) -> (r: Option<Price>)
        ensures
            opt_view(r) == self@.body(),
    {
        if self.close.checked_sub(&self.open).is_some() {
            Some(self.body_size())
        } else {
            None
        }
    }

    /// Returns the full range (high - low).
    pub fn range(&self) -> (r: Price)
        requires
            self@.span() is Some,
        ensures
            Some(r@) == self@.span(),
    {
        self.high.checked_sub(&self.low).unwrap()
    }

    /// [`Candle::range`], or nothing where it cannot be held.
    pub fn checked_range(&self) -> (r: Option<Price>)
        ensures
            opt_view(r) == self@.span(),
    {
        if self.high.checked_sub(&self.low).is_some() {
            Some(self.range())
        } else {
            None
        }
    }
}

/// Timeframe of candlestick data.
#[derive(Clone, Copy, Debug, PartialEq, Eq, Structural, Hash)]
pub enum Interval {
    M15,
    H1,
    H4,
}

impl Interval {
    /// Minutes of the interval.
    pub open spec fn minutes(self) -> int {
        match self {
            Interval::M15 => 15,
            Interval::H1 => 60,
            Interval::H4 => 240,
        }
    }

    /// The interval's name in requests.
    pub open spec fn name(self) -> Seq<char> {
        match self {
            Interval::M15 => "15m"@,
            Interval::H1 => "1h"@,
            Interval::H4 => "4h"@,
        }
    }

    /// Returns the interval duration in minutes.
    pub fn as_minutes(&self) -> (r: u32)
        ensures
            r as int == self.minutes(),
    {
        match self {
            Interval::M15 => 15,
            Interval::H1 => 60,
            Interval::H4 => 240,
        }
    }

    /// Returns the interval's name in requests.
    pub fn as_binance_str(&self) -> (r: &'static str)
        ensures
            r@ == self.name(),
    {
        match self {
            Interval::M15 => "15m",
            Interval::H1 => "1h",
            Interval::H4 => "4h",
        }
    }
}

/// Market data of one symbol: its candles by timeframe.
#[derive(Clone, Debug)]
pub struct MarketData {
    /// Symbol pair (e.g., "BTCUSDT").
    pub symbol: String,
    pub candles_15m: Vec<Candle>,
    pub candles_1h: Vec<Candle>,
    pub candles_4h: Vec<Candle>,
}

impl Default for MarketData {
    fn default() -> (r: MarketData)
        ensures
            r.symbol@ == Seq::<char>::empty(),
            forall|i: Interval| (#[trigger] r.of_interval(i)).len() == 0,
    {
        MarketData {
            symbol: String::new(),
            candles_15m: Vec::new(),
            candles_1h: Vec::new(),
            candles_4h: Vec::new(),
        }
    }
}

impl MarketData {
    /// The candles of a timeframe.
    pub open spec fn of_interval(self, interval: Interval) -> Seq<Candle> {
        match interval {
            Interval::M15 => self.candles_15m@,
            Interval::H1 => self.candles_1h@,
            Interval::H4 => self.candles_4h@,
        }
    }

    /// Creates market data without candles for the given symbol.
    pub fn new(symbol: &str) -> (r: MarketData)
        ensures
            r.symbol@ == symbol@,
            forall|i: Interval| (#[trigger] r.of_interval(i)).len() == 0,
    {
        MarketData {
            symbol: symbol.to_owned(),
            candles_15m: Vec::new(),
            candles_1h: Vec::new(),
            candles_4h: Vec::new(),
        }
    }

    /// Returns candles for the specified interval.
    pub fn candles(&self, interval: Interval) -> (r: &Vec<Candle>)
        ensures
            r@ == self.of_interval(interval),
    {
        match interval {
            Interval::M15 => &self.candles_15m,
            Interval::H1 => &self.candles_1h,
            Interval::H4 => &self.candles_4h,
        }
    }

    /// Returns a mutable reference to candles for the specified interval. The other intervals and
    /// the symbol stay as they are.
    pub fn candles_mut(&mut self, interval: Interval) -> (r: &mut Vec<Candle>)
        ensures
            r@ == old(self).of_interval(interval),
            final(self).of_interval(interval) == final(r)@,
            final(self).symbol == old(self).symbol,
            forall|i: Interval|
                i != interval ==> #[trigger] final(self).of_interval(i) == old(self).of_interval(i),
    {
        match interval {
            Interval::M15 => &mut self.candles_15m,
            Interval::H1 => &mut self.candles_1h,
            Interval::H4 => &mut self.candles_4h,
        }
    }

    /// Returns the latest candle for the specified interval, if available.
    pub fn latest_candle(&self, interval: Interval) -> (r: Option<&Candle>)
        ensures
            self.of_interval(interval).len() == 0 ==> r is None,
            self.of_interval(interval).len() > 0 ==> r is Some && *r->0 == self.of_interval(
                interval,
            ).last(),
    {
        let c = self.candles(interval);
        if c.len() == 0 {
            None
        } else {
            Some(&c[c.len() - 1])
        }
    }

    /// Returns the current price (close of the latest 1H candle).
    pub fn current_price(&self) -> (r: Option<Price>)
        ensures
            r == if self.candles_1h@.len() == 0 {
                None
            } else {
                Some(self.candles_1h@.last().close)
            },
    {
        if self.candles_1h.len() == 0 {
            None
        } else {
            Some(self.candles_1h[self.candles_1h.len() - 1].close)
        }
    }
}

/// A candle as the exchange's REST interface gives it: the opening time in milliseconds, and the
/// numbers as text.
#[derive(Clone, Debug)]
pub struct KlineSummary {
    pub open_time: i64,
    pub open: String,
    pub high: String,
    pub low: String,
    pub close: String,
    pub volume: String,
}

/// The candle that five numbers in text form and an opening time in milliseconds stand for, or
/// nothing where one of them cannot be read.
pub open spec fn bar_of(
    open_time: int,
    open: Seq<char>,
    high: Seq<char>,
    low: Seq<char>,
    close: Seq<char>,
    volume: Seq<char>,
) -> Option<Bar> {
    let t = Moment { secs: open_time / 1000, nanos: (open_time % 1000) * 1000000 };
    match (parsed(open), parsed(high), parsed(low), parsed(close), parsed(volume)) {
        (Some(open), Some(high), Some(low), Some(close), Some(volume)) => if t.valid() {
            Some(Bar { timestamp: t, open, high, low, close, volume })
        } else {
            None
        },
        _ => None,
    }
}

/// The candle that five numbers in text form and an opening time in milliseconds stand for.
pub fn candle_from_texts(
    open_time: i64,
    open: &str,
    high: &str,
    low: &str,
    close: &str,
    volume: &str,
) -> (r: Option<Candle>)
    ensures
        match bar_of(open_time as int, open@, high@, low@, close@, volume@) {
            Some(b) => r is Some && r->0@ == b,
            None => r is None,
        },
{
    let open = Decimal::parse(open)?;
    let high = Decimal::parse(high)?;
    let low = Decimal::parse(low)?;
    let close = Decimal::parse(close)?;
    let volume = Decimal::parse(volume)?;
    let timestamp = Timestamp::from_timestamp_millis(open_time)?;
    Some(Candle::new(timestamp, open, high, low, close, volume))
}

/// Converts a candle of the REST interface.
///
/// Returns `None` if any field fails to parse.
pub fn kline_summary_to_candle(ks: &KlineSummary) -> (r: Option<Candle>)
    ensures
        match bar_of(
            ks.open_time as int,
            ks.open@,
            ks.high@,
            ks.low@,
            ks.close@,
            ks.volume@,
        ) {
            Some(b) => r is Some && r->0@ == b,
            None => r is None,
        },
{
    candle_from_texts(
        ks.open_time,
        ks.open.as_str(),
        ks.high.as_str(),
        ks.low.as_str(),
        ks.close.as_str(),
        ks.volume.as_str(),
    )
}

/// Converts a candle event of a stream.
///
/// Returns `None` if any field fails to parse.
pub fn kline_event_to_candle(event: &KlineEvent) -> (r: Option<Candle>)
    ensures
        match bar_of(
            stream_time(event.kline.start_time),
            event.kline.open@,
            event.kline.high@,
            event.kline.low@,
            event.kline.close@,
            event.kline.volume@,
        ) {
            Some(b) => r is Some && r->0@ == b,
            None => r is None,
        },
{
    let k = &event.kline;
    candle_from_texts(
        signed_time(k.start_time),
        k.open.as_str(),
        k.high.as_str(),
        k.low.as_str(),
        k.close.as_str(),
        k.volume.as_str(),
    )
}

/// The time of a stream as a signed number: what is past the signed range wraps around.
pub open spec fn stream_time(t: u64) -> int {
    if t <= i64::MAX {
        t as int
    } else {
        t - 18446744073709551616
    }
}

fn signed_time(t: u64) -> (r: i64)
    ensures
        r as int == stream_time(t),
{
    if t <= i64::MAX as u64 {
        t as i64
    } else {
        ((t - 9223372036854775808) as i64) + i64::MIN
    }
}

/// A candle by its texts: each figure is the number of its own text, and the time the one that is so
/// many milliseconds after the epoch. A text that is no number gives no candle.
pub proof fn law_candle_by_texts(
    open_time: int,
    open: Seq<char>,
    high: Seq<char>,
    low: Seq<char>,
    close: Seq<char>,
    volume: Seq<char>,
)
    ensures
        bar_of(open_time, open, high, low, close, volume) matches Some(b) ==> {
            &&& parsed(open) == Some(b.open) && parsed(high) == Some(b.high)
            &&& parsed(low) == Some(b.low) && parsed(close) == Some(b.close)
            &&& parsed(volume) == Some(b.volume)
            &&& b.timestamp.millis() == open_time
            &&& b.timestamp.nanos % 1000000 == 0
        },
        parsed(open) is None || parsed(high) is None || parsed(low) is None || parsed(close) is None
            || parsed(volume) is None ==> bar_of(open_time, open, high, low, close, volume) is None,
        0 <= open_time <= 253402300799999 && parsed(open) is Some && parsed(high) is Some && parsed(
            low,
        ) is Some && parsed(close) is Some && parsed(volume) is Some ==> bar_of(
            open_time,
            open,
            high,
            low,
            close,
            volume,
        ) is Some,
{
}

/// The body and the span of a candle by value: the distance from open to close, on whichever side, and
/// how far the high is above the low.
pub proof fn law_candle_sizes_by_value(b: Bar)
    requires
        b.open.valid(),
        b.high.valid(),
        b.low.valid(),
        b.close.valid(),
        aligned_sum(b.close, b.open.negated()).valid(),
        aligned_sum(b.high, b.low.negated()).valid(),
    ensures
        b.body() is Some && b.body()->0.units() == if b.close.units() >= b.open.units() {
            b.close.units() - b.open.units()
        } else {
            b.open.units() - b.close.units()
        },
        b.span() is Some && b.span()->0.units() == b.high.units() - b.low.units(),
{
    law_difference_is_exact(b.close, b.open);
    law_difference_is_exact(b.high, b.low);
    let d = difference(b.close, b.open)->0;
    let w = pow10((28 - d.s) as nat);
    let m = d.m;
    lemma_pow10_positive((28 - d.s) as nat);
    lemma_units_sign(d);
    assert((-m) * w == -(m * w)) by (nonlinear_arith);
}

/// The minutes and names of the intervals: an hour is four quarters and a quarter of four hours.
pub proof fn law_intervals()
    ensures
        Interval::M15.minutes() * 4 == Interval::H1.minutes(),
        Interval::H1.minutes() * 4 == Interval::H4.minutes(),
        Interval::H1.minutes() == 60,
        Interval::M15.name() == "15m"@,
        Interval::H1.name() == "1h"@,
        Interval::H4.name() == "4h"@,
{
}

/// A candle rises or falls, never both; turned round it does the other; and one whose open is its close
/// does neither.
pub proof fn law_candles_rise_or_fall(b: Bar)
    ensures
        !(b.rises() && b.falls()),
        b.rises() ==> b.close.units() > b.open.units(),
        b.close.units() > b.open.units() ==> b.rises(),
        b.falls() == (Bar { open: b.close, close: b.open, ..b }).rises(),
        b.open == b.close ==> !b.rises() && !b.falls(),
{
}

} // verus!
