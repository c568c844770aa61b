//! A trading session: the market data of its symbols, the prices that come in, and the entries
//! that its signals lead to.
use crate::data::backfill::{bars, unsigned_millis};
use crate::data::csv_logger::{line_with_id, record_views};
use crate::data::trade_manager::{kept, Book, TradeManager};
use crate::data::trade_record::{entry_risk, fresh_record, Record, TradeDirection, TradeRecord};
use crate::decimal::{
    add_opt, aligned_sum, difference_of, law_difference_is_exact, law_sum_is_exact, lemma_units_sign,
    mul_opt, pow10, product, product_of, rounds_to, sub_opt, sum, sum_of, whole, zero, Dec, Decimal,
};
use crate::exchange::config;
use crate::risk::manager::{Account, RiskManager};
use crate::risk::sizing::{RiskError, RiskFault};
use crate::strategy::evaluator::{
    config_verdict, evaluation_fits, verdict, EvaluatorError, Reading, RuleEvaluator,
    Verdict,
};
use crate::strategy::models::{ConfigError, EntryRule, UserStrategyConfig};
use crate::symbol_map::SymbolMap;
use crate::text::{join, join_texts, lacks, same_text, unbroken, views};
use crate::time::{Moment, Timestamp};
use crate::types::market::{bar_of, kline_event_to_candle, stream_time, Bar, Candle, Interval, MarketData};
use crate::websocket::messages::KlineEvent;
use vstd::prelude::*;

verus! {

/// The messages of a list of errors, with the text of the risk parameter where one is out of range.
pub open spec fn messages(errors: Seq<ConfigError>, number: Seq<char>) -> Seq<Seq<char>> {
    errors.map_values(|e: ConfigError| e.message(number))
}

/// Why a session cannot start: another is running, or the strategy is invalid.
pub open spec fn start_refusal(
    active: bool,
    config: UserStrategyConfig,
    number: Seq<char>,
) -> Option<Seq<char>> {
    if active {
        Some("A session is already running. Call stop_session first."@)
    } else if config.faults().len() > 0 {
        Some("Invalid strategy config:\n"@ + join(messages(config.faults(), number), '\n'))
    } else {
        None
    }
}

/// Checks whether a session can start; `number` is the text of the risk parameter that is out of
/// range, if one is.
pub fn check_start(active: bool, config: &UserStrategyConfig, number: &str) -> (r: Result<
    (),
    String,
>)
    ensures
        match start_refusal(active, *config, number@) {
            Some(e) => r is Err && (r->Err_0)@ == e,
            None => r is Ok,
        },
{
    if active {
        return Err("A session is already running. Call stop_session first.".to_owned());
    }
    let errors = config.validate();
    if errors.len() == 0 {
        return Ok(());
    }
    let mut texts: Vec<String> = Vec::new();
    let mut i: usize = 0;
    let ghost all = messages(errors@, number@);
    while i < errors.len()
        invariant
            i <= errors.len(),
            all == messages(errors@, number@),
            views(texts@) == all.take(i as int),
        decreases errors.len() - i,
    {
        let ghost before = texts@;
        let t = errors[i].to_string(number);
        texts.push(t);
        i = i + 1;
        assert(views(texts@) =~= views(before).push(t@));
        assert(views(texts@) =~= all.take(i as int));
    }
    assert(all.take(i as int) =~= all);
    Err("Invalid strategy config:\n".to_owned().concat(join_texts(&texts, '\n').as_str()))
}

/// What a session that has started is answered with.
pub fn started_message(name: &str) -> (r: String)
    ensures
        r@ == "Mock session started — strategy '"@ + name@ + "' is active on Binance testnet."@,
{
    "Mock session started — strategy '".to_owned().concat(name).concat(
        "' is active on Binance testnet.",
    )
}

/// What stopping a session is answered with.
pub fn stopped_message(active: bool) -> (r: &'static str)
    ensures
        r@ == if active {
            "Session stopped. WebSocket streams are shutting down."@
        } else {
            "No active session to stop."@
        },
{
    if active {
        "Session stopped. WebSocket streams are shutting down."
    } else {
        "No active session to stop."
    }
}

/// The rule is evaluated on an interval.
pub open spec fn uses(rule: EntryRule, i: Interval) -> bool {
    crate::strategy::evaluator::interval_of(rule) == i
}

/// The intervals that the rules of a strategy need, each once.
pub fn required_intervals(config: &UserStrategyConfig) -> (r: Vec<Interval>)
    ensures
        forall|i: Interval|
            #![trigger r@.contains(i)]
            r@.contains(i) == exists|k: int|
                0 <= k < config.entry_rules@.len() && uses(#[trigger] config.entry_rules@[k], i),
        r@.no_duplicates(),
{
    let mut m15 = false;
    let mut h1 = false;
    let mut h4 = false;
    let mut k: usize = 0;
    let ghost rules = config.entry_rules@;
    while k < config.entry_rules.len()
        invariant
            k <= config.entry_rules.len(),
            rules == config.entry_rules@,
            m15 == exists|j: int| 0 <= j < k && uses(#[trigger] rules[j], Interval::M15),
            h1 == exists|j: int| 0 <= j < k && uses(#[trigger] rules[j], Interval::H1),
            h4 == exists|j: int| 0 <= j < k && uses(#[trigger] rules[j], Interval::H4),
        decreases config.entry_rules.len() - k,
    {
        let i = crate::strategy::evaluator::rule_interval(&config.entry_rules[k]);
        match i {
            Interval::M15 => {
                m15 = true;
                assert(uses(rules[k as int], Interval::M15));
            },
            Interval::H1 => {
                h1 = true;
                assert(uses(rules[k as int], Interval::H1));
            },
            Interval::H4 => {
                h4 = true;
                assert(uses(rules[k as int], Interval::H4));
            },
        }
        k = k + 1;
    }
    let mut r: Vec<Interval> = Vec::new();
    if m15 {
        r.push(Interval::M15);
        assert(r@[0] == Interval::M15);
    }
    let ghost one = r@;
    if h1 {
        r.push(Interval::H1);
        assert(r@[one.len() as int] == Interval::H1);
    }
    let ghost two = r@;
    if h4 {
        r.push(Interval::H4);
        assert(r@[two.len() as int] == Interval::H4);
    }
    proof {
        assert forall|i: Interval|
            #![trigger r@.contains(i)]
            r@.contains(i) == exists|j: int| 0 <= j < rules.len() && uses(#[trigger] rules[j], i) by {
            match i {
                Interval::M15 => {
                    if m15 {
                        assert(r@[0] == i);
                    }
                },
                Interval::H1 => {
                    if h1 {
                        assert(r@[one.len() as int] == i);
                    }
                },
                Interval::H4 => {
                    if h4 {
                        assert(r@[two.len() as int] == i);
                    }
                },
            }
        }
    }
    r
}

/// The symbols that are traded.
pub open spec fn universe() -> Seq<Seq<char>> {
    seq!["BTCUSDT"@, "ETHUSDT"@, "SOLUSDT"@]
}

/// The symbols that are traded.
pub fn trade_symbols() -> (r: Vec<String>)
    ensures
        views(r@) == universe(),
{
    let mut v: Vec<String> = Vec::new();
    v.push("BTCUSDT".to_owned());
    v.push("ETHUSDT".to_owned());
    v.push("SOLUSDT".to_owned());
    assert(views(v@) =~= universe());
    v
}

/// The intervals that are subscribed to.
pub fn stream_intervals() -> (r: Vec<String>)
    ensures
        views(r@) == seq!["15m"@, "1h"@, "4h"@],
{
    let mut v: Vec<String> = Vec::new();
    v.push("15m".to_owned());
    v.push("1h".to_owned());
    v.push("4h".to_owned());
    assert(views(v@) =~= seq!["15m"@, "1h"@, "4h"@]);
    v
}

/// A random identifier, by `uuid::Uuid::new_v4` in its hyphenated form: 36 characters, each a
/// lower-case hexadecimal digit or a hyphen. Which ones is left to chance.
#[verifier::external_body]
fn random_identifier() -> (r: String)
    ensures
        r@.len() == 36,
        forall|i: int|
            0 <= i < r@.len() ==> crate::text::is_digit(#[trigger] r@[i]) || ('a' <= r@[i] && r@[i]
                <= 'f') || r@[i] == '-',
{
    uuid::Uuid::new_v4().to_string()
}

/// A new identifier for a simulated trade. It fits the trade log.
pub fn new_trade_id() -> (r: String)
    ensures
        r@.len() == 41,
        r@.take(5) == "mock-"@,
        lacks(r@, ','),
        unbroken(r@),
{
    proof {
        reveal_strlit("mock-");
    }
    let id = random_identifier();
    let r = "mock-".to_owned().concat(id.as_str());
    assert(r@.take(5) =~= "mock-"@);
    assert forall|i: int| 0 <= i < r@.len() implies #[trigger] r@[i] != ',' && r@[i] != '\n' && r@[i]
        != '\r' by {
        if i >= 5 {
            assert(r@[i] == id@[i - 5]);
        }
    }
    r
}

/// The model of a symbol's market data.
pub struct Market {
    pub symbol: Seq<char>,
    pub m15: Seq<Bar>,
    pub h1: Seq<Bar>,
    pub h4: Seq<Bar>,
}

/// The model of market data.
pub open spec fn market_of(md: MarketData) -> Market {
    Market {
        symbol: md.symbol@,
        m15: bars(md.candles_15m@),
        h1: bars(md.candles_1h@),
        h4: bars(md.candles_4h@),
    }
}

/// Market data without candles.
pub open spec fn empty_market(symbol: Seq<char>) -> Market {
    Market { symbol, m15: Seq::empty(), h1: Seq::empty(), h4: Seq::empty() }
}

/// The candles after another one came: a closed candle is added; an open one takes the place of the
/// last where that is of the same time, and is added otherwise.
pub open spec fn with_candle(c: Seq<Bar>, b: Bar, closed: bool) -> Seq<Bar> {
    if !closed && c.len() > 0 && c.last().timestamp == b.timestamp {
        c.update(c.len() - 1, b)
    } else {
        c.push(b)
    }
}

impl Market {
    /// The market data after another candle came.
    pub open spec fn with_bar(self, i: Interval, b: Bar, closed: bool) -> Market {
        match i {
            Interval::M15 => Market { m15: with_candle(self.m15, b, closed), ..self },
            Interval::H1 => Market { h1: with_candle(self.h1, b, closed), ..self },
            Interval::H4 => Market { h4: with_candle(self.h4, b, closed), ..self },
        }
    }
}

/// The interval of a name.
pub open spec fn named_interval(name: Seq<char>) -> Option<Interval> {
    if name == "15m"@ {
        Some(Interval::M15)
    } else if name == "1h"@ {
        Some(Interval::H1)
    } else if name == "4h"@ {
        Some(Interval::H4)
    } else {
        None
    }
}

/// The interval of a name, if it is one of those that are kept.
pub fn interval_from_name(name: &str) -> (r: Option<Interval>)
    ensures
        r == named_interval(name@),
{
    if same_text(name, "15m") {
        Some(Interval::M15)
    } else if same_text(name, "1h") {
        Some(Interval::H1)
    } else if same_text(name, "4h") {
        Some(Interval::H4)
    } else {
        None
    }
}

fn add_candle(candles: &mut Vec<Candle>, candle: Candle, closed: bool)
    ensures
        bars(final(candles)@) == with_candle(bars(old(candles)@), candle@, closed),
{
    let ghost before = candles@;
    let n: usize = candles.len();
    if !closed && n > 0 {
        let last = candles[n - 1];
        if last.timestamp.timestamp() == candle.timestamp.timestamp()
            && last.timestamp.subsec_nanos() == candle.timestamp.subsec_nanos() {
            candles.set(n - 1, candle);
            assert(bars(candles@) =~= bars(before).update(n - 1, candle@));
            return;
        }
    }
    candles.push(candle);
    assert(bars(candles@) =~= bars(before).push(candle@));
}

fn add_to_market(md: &mut MarketData, i: Interval, candle: Candle, closed: bool)
    ensures
        market_of(*final(md)) == market_of(*old(md)).with_bar(i, candle@, closed),
        final(md).symbol == old(md).symbol,
{
    match i {
        Interval::M15 => add_candle(&mut md.candles_15m, candle, closed),
        Interval::H1 => add_candle(&mut md.candles_1h, candle, closed),
        Interval::H4 => add_candle(&mut md.candles_4h, candle, closed),
    }
}

/// The model of a session.
pub struct Desk {
    /// Market data by symbol.
    pub markets: Map<Seq<char>, Market>,
    /// Last price by symbol.
    pub prices: Map<Seq<char>, Dec>,
    /// Time of the candle of the last entry, by symbol.
    pub traded: Map<Seq<char>, u64>,
    /// Time of the last entry, by symbol.
    pub entered: Map<Seq<char>, Moment>,
    /// Some traded symbol has candles to trade on.
    pub ready: bool,
}

/// The candle that a stream event stands for.
pub open spec fn event_bar(e: KlineEvent) -> Option<Bar> {
    bar_of(
        stream_time(e.kline.start_time),
        e.kline.open@,
        e.kline.high@,
        e.kline.low@,
        e.kline.close@,
        e.kline.volume@,
    )
}

/// The market data of a symbol; empty where there is none.
pub open spec fn market_at(m: Map<Seq<char>, Market>, symbol: Seq<char>) -> Market {
    if m.dom().contains(symbol) {
        m[symbol]
    } else {
        empty_market(symbol)
    }
}

/// One of the traded symbols has 15-minute candles.
pub open spec fn universe_ready(m: Map<Seq<char>, Market>) -> bool {
    exists|i: int|
        0 <= i < universe().len() && market_at(m, #[trigger] universe()[i]).m15.len() > 0
}

impl Desk {
    /// The market data after a candle event. An event that cannot be read, or of another interval,
    /// changes nothing.
    pub open spec fn markets_after(self, e: KlineEvent) -> Map<Seq<char>, Market> {
        match (event_bar(e), named_interval(e.kline.interval@)) {
            (Some(b), Some(i)) => self.markets.insert(
                e.symbol@,
                market_at(self.markets, e.symbol@).with_bar(i, b, e.kline.is_closed),
            ),
            _ => self.markets,
        }
    }

    /// The session after a candle event.
    pub open spec fn after_kline(self, e: KlineEvent) -> Desk {
        Desk {
            markets: self.markets_after(e),
            ready: self.ready || universe_ready(self.markets_after(e)),
            ..self
        }
    }
}

/// A session that is ready stays so, and a candle event changes the market data of its own symbol
/// only.
pub proof fn law_candles_are_local(d: Desk, e: KlineEvent, other: Seq<char>)
    requires
        other != e.symbol@,
    ensures
        d.ready ==> d.after_kline(e).ready,
        market_at(d.after_kline(e).markets, other) == market_at(d.markets, other),
        d.after_kline(e).prices == d.prices,
        d.after_kline(e).traded == d.traded,
{
}

/// What the indicators read at an entry: average true range, RSI and ADX.
#[derive(Clone, Copy, Debug)]
pub struct Figures {
    pub atr: Decimal,
    pub rsi: Decimal,
    pub adx: Decimal,
}

/// The figures of an entry that is made.
pub struct Order {
    pub entry: Dec,
    pub stop: Dec,
    pub target: Dec,
    pub size: Dec,
}

/// What comes of a signal.
pub enum Entry {
    /// There is no market data of the symbol.
    NoData,
    /// The candle of the signal was traded already.
    Duplicate,
    /// There is no price.
    NoPrice,
    /// Trading is halted.
    Halted,
    /// The symbol has as many open trades as it may have.
    Full,
    /// The symbol's last entry is too recent.
    Cooling,
    /// The average true range is zero.
    NoRange,
    /// The position could not be sized.
    Rejected(RiskFault),
    /// A trade is opened.
    Open(Order),
}

/// How many of the first `n` trades are of a symbol.
pub open spec fn trades_of(trades: Seq<Record>, symbol: Seq<char>, n: nat) -> int
    decreases n,
{
    if n == 0 {
        0
    } else {
        trades_of(trades, symbol, (n - 1) as nat) + if trades[n - 1].symbol == symbol {
            1int
        } else {
            0int
        }
    }
}

impl Desk {
    /// The time of a symbol's last 15-minute candle; zero where there is none.
    pub open spec fn candle_time(self, symbol: Seq<char>) -> int {
        let c = market_at(self.markets, symbol).m15;
        if c.len() == 0 {
            0
        } else {
            unsigned_millis(c.last().timestamp)
        }
    }

    /// The price to enter at: the last one that came in, or else the last 15-minute close.
    pub open spec fn entry_price(self, symbol: Seq<char>) -> Dec {
        let c = market_at(self.markets, symbol).m15;
        if self.prices.dom().contains(symbol) {
            self.prices[symbol]
        } else if c.len() > 0 {
            c.last().close
        } else {
            zero()
        }
    }

    /// The symbol was entered less than the cooldown before `now`.
    pub open spec fn cooling(self, symbol: Seq<char>, now: Moment) -> bool {
        self.entered.dom().contains(symbol) && now.nanos_since(self.entered[symbol])
            < config::TRADE_COOLDOWN_MINUTES * 60000000000
    }

    /// What comes of a signal for a symbol at `now`. Nothing where a figure cannot be held.
    pub open spec fn entry(
        self,
        trades: Seq<Record>,
        account: Account,
        symbol: Seq<char>,
        atr: Dec,
        now: Moment,
    ) -> Option<Entry> {
        if !self.markets.dom().contains(symbol) {
            Some(Entry::NoData)
        } else if self.traded.dom().contains(symbol) && self.traded[symbol] as int
            == self.candle_time(symbol) {
            Some(Entry::Duplicate)
        } else if self.entry_price(symbol).m == 0 {
            Some(Entry::NoPrice)
        } else {
            match product_of(
                Some(self.entry_price(symbol)),
                sum(whole(1), config::mock_slippage()),
            ) {
                None => None,
                Some(entry) => if account.halted {
                    Some(Entry::Halted)
                } else if trades_of(trades, symbol, trades.len()) >= config::MAX_OPEN_POSITIONS {
                    Some(Entry::Full)
                } else if self.cooling(symbol, now) {
                    Some(Entry::Cooling)
                } else if atr.m == 0 {
                    Some(Entry::NoRange)
                } else {
                    order_for(account, entry, atr)
                },
            }
        }
    }
}

/// The stop and the target of an entry: two average true ranges below it, and three above.
pub open spec fn levels(entry: Dec, atr: Dec) -> Option<(Dec, Dec)> {
    match (
        difference_of(Some(entry), product(whole(2), atr)),
        sum_of(Some(entry), product(whole(3), atr)),
    ) {
        (Some(stop), Some(target)) => Some((stop, target)),
        _ => None,
    }
}

/// The trade that is opened at an entry price, or why there is none.
pub open spec fn order_for(account: Account, entry: Dec, atr: Dec) -> Option<Entry> {
    match levels(entry, atr) {
        None => None,
        Some(l) => match account.sizing(entry, l.0, atr, atr, None) {
            None => None,
            Some(Err(e)) => Some(Entry::Rejected(e)),
            Some(Ok(s)) => if entry_risk(entry, l.0) is Some {
                Some(Entry::Open(Order { entry, stop: l.0, target: l.1, size: s.size }))
            } else {
                None
            },
        },
    }
}

/// A halted account opens no trade, and neither does a symbol that has its fill of them.
pub proof fn law_no_entry_when_halted_or_full(
    d: Desk,
    trades: Seq<Record>,
    account: Account,
    symbol: Seq<char>,
    atr: Dec,
    now: Moment,
)
    requires
        account.halted || trades_of(trades, symbol, trades.len()) >= config::MAX_OPEN_POSITIONS,
    ensures
        !(d.entry(trades, account, symbol, atr, now) matches Some(Entry::Open(_))),
{
}

/// After an entry the same candle brings no further one.
pub proof fn law_one_entry_per_candle(
    d: Desk,
    trades: Seq<Record>,
    account: Account,
    symbol: Seq<char>,
    atr: Dec,
    now: Moment,
    time: u64,
)
    requires
        d.markets.dom().contains(symbol),
        time as int == d.candle_time(symbol),
    ensures
        (Desk { traded: d.traded.insert(symbol, time), ..d }).entry(trades, account, symbol, atr, now)
            == Some(Entry::Duplicate),
{
}

/// Entries of one symbol keep their distance: for a quarter of an hour after one there is no other,
/// whatever else has changed.
pub proof fn law_entries_keep_their_distance(
    d: Desk,
    trades: Seq<Record>,
    account: Account,
    symbol: Seq<char>,
    atr: Dec,
    last: Moment,
    now: Moment,
)
    requires
        now.nanos_since(last) < 15 * 60 * 1000000000,
    ensures
        !((Desk { entered: d.entered.insert(symbol, last), ..d }).entry(
            trades,
            account,
            symbol,
            atr,
            now,
        ) matches Some(Entry::Open(_))),
{
}

/// What comes of a signal.
#[derive(Debug)]
pub enum EntryOutcome {
    NoData,
    Duplicate,
    NoPrice,
    Halted,
    Full,
    Cooling,
    NoRange,
    Rejected(RiskError),
    Opened(TradeRecord),
}

/// A running session.
pub struct Session {
    market: SymbolMap<MarketData>,
    last_prices: SymbolMap<Decimal>,
    last_traded: SymbolMap<u64>,
    last_entries: SymbolMap<Timestamp>,
    initialized: bool,
    trades: TradeManager,
}

/// Market data as models.
pub open spec fn market_models(m: Map<Seq<char>, MarketData>) -> Map<Seq<char>, Market> {
    m.map_values(|d: MarketData| market_of(d))
}

/// Prices as models.
pub open spec fn price_models(m: Map<Seq<char>, Decimal>) -> Map<Seq<char>, Dec> {
    m.map_values(|d: Decimal| d@)
}

/// Times as models.
pub open spec fn time_models(m: Map<Seq<char>, Timestamp>) -> Map<Seq<char>, Moment> {
    m.map_values(|t: Timestamp| t@)
}

/// Whether one of the traded symbols has 15-minute candles.
fn has_candles(market: &SymbolMap<MarketData>) -> (r: bool)
    ensures
        r == universe_ready(market_models(market@)),
{
    let symbols = trade_symbols();
    let ghost m = market_models(market@);
    let mut i: usize = 0;
    while i < symbols.len()
        invariant
            views(symbols@) == universe(),
            m == market_models(market@),
            forall|k: int|
                0 <= k < i ==> market_at(m, #[trigger] universe()[k]).m15.len() == 0,
        decreases symbols.len() - i,
    {
        assert(universe()[i as int] == symbols@[i as int]@);
        match market.get(symbols[i].as_str()) {
            Some(md) => {
                if md.candles_15m.len() > 0 {
                    assert(market_at(m, universe()[i as int]).m15.len() > 0);
                    return true;
                }
            },
            None => {},
        }
        i = i + 1;
    }
    assert(symbols@.len() == universe().len());
    false
}

/// How many trades are of a symbol.
fn count_trades(trades: &Vec<TradeRecord>, symbol: &str) -> (r: usize)
    ensures
        r as int == trades_of(record_views(trades@), symbol@, trades@.len()),
{
    let ghost all = record_views(trades@);
    let mut n: usize = 0;
    let mut i: usize = 0;
    while i < trades.len()
        invariant
            i <= trades.len(),
            n <= i,
            all == record_views(trades@),
            n as int == trades_of(all, symbol@, i as nat),
        decreases trades.len() - i,
    {
        assert(all[i as int] == trades@[i as int]@);
        if same_text(trades[i].symbol.as_str(), symbol) {
            n = n + 1;
        }
        i = i + 1;
    }
    n
}

fn candle_time_of(md: &MarketData) -> (r: u64)
    ensures
        r as int == if market_of(*md).m15.len() == 0 {
            0
        } else {
            unsigned_millis(market_of(*md).m15.last().timestamp)
        },
{
    let n: usize = md.candles_15m.len();
    if n == 0 {
        0
    } else {
        assert(market_of(*md).m15.last() == md.candles_15m@[n - 1]@);
        crate::data::backfill::unsigned_time(&md.candles_15m[n - 1].timestamp)
    }
}

/// A trade of a symbol with an identifier can be entered in the log of a book at `now`: the texts
/// fit a line, the moment has a four-digit year, and the identifier is new.
pub open spec fn enters_log(b: Book, symbol: Seq<char>, id: Seq<char>, now: Moment) -> bool {
    &&& lacks(symbol, ',') && unbroken(symbol)
    &&& lacks(id, ',') && unbroken(id)
    &&& now.plain()
    &&& line_with_id(b.lines, id, 1) is None
}

impl Session {
    /// The model of the session.
    pub closed spec fn desk(&self) -> Desk {
        Desk {
            markets: market_models(self.market@),
            prices: price_models(self.last_prices@),
            traded: self.last_traded@,
            entered: time_models(self.last_entries@),
            ready: self.initialized,
        }
    }

    /// The market data by symbol.
    pub closed spec fn markets(&self) -> Map<Seq<char>, MarketData> {
        self.market@
    }

    /// The market data in the model is that which is held.
    pub proof fn lemma_desk_markets(&self)
        ensures
            self.desk().markets == market_models(self.markets()),
    {
    }

    /// The trades.
    pub closed spec fn manager(&self) -> TradeManager {
        self.trades
    }

    /// Starts a session with the trades of a log, without market data.
    pub fn new(trades: TradeManager) -> (r: Session)
        ensures
            r.markets() == Map::<Seq<char>, MarketData>::empty(),
            r.desk() == (Desk {
                markets: Map::empty(),
                prices: Map::empty(),
                traded: Map::empty(),
                entered: Map::empty(),
                ready: false,
            }),
            r.manager() == trades,
    {
        let r = Session {
            market: SymbolMap::new(),
            last_prices: SymbolMap::new(),
            last_traded: SymbolMap::new(),
            last_entries: SymbolMap::new(),
            initialized: false,
            trades,
        };
        assert(r.desk().markets =~= Map::<Seq<char>, Market>::empty());
        assert(r.desk().prices =~= Map::<Seq<char>, Dec>::empty());
        assert(r.desk().entered =~= Map::<Seq<char>, Moment>::empty());
        r
    }

    /// The trades.
    pub fn trades(&self) -> (r: &TradeManager)
        ensures
            *r == self.manager(),
    {
        &self.trades
    }

    /// Market data of a symbol.
    pub fn market_data(&self, symbol: &str) -> (r: Option<&MarketData>)
        ensures
            match r {
                Some(md) => self.markets().dom().contains(symbol@) && *md == self.markets()[symbol@]
                    && self.desk().markets.dom().contains(symbol@) && market_of(*md)
                    == self.desk().markets[symbol@],
                None => !self.markets().dom().contains(symbol@)
                    && !self.desk().markets.dom().contains(symbol@),
            },
    {
        self.market.get(symbol)
    }

    /// Whether some traded symbol has candles to trade on.
    pub fn is_ready(&self) -> (r: bool)
        ensures
            r == self.desk().ready,
    {
        self.initialized
    }

    /// Gives a symbol market data, in place of any that it had.
    pub fn set_market_data(&mut self, md: MarketData)
        ensures
            final(self).desk() == (Desk {
                markets: old(self).desk().markets.insert(md.symbol@, market_of(md)),
                ..old(self).desk()
            }),
            final(self).markets() == old(self).markets().insert(md.symbol@, md),
            final(self).manager() == old(self).manager(),
    {
        let symbol = md.symbol.clone();
        let ghost before = self.market@;
        self.market.insert(symbol.as_str(), md);
        assert(market_models(before.insert(symbol@, md)) =~= market_models(before).insert(
            symbol@,
            market_of(md),
        ));
    }

    /// Takes a price of a symbol.
    pub fn on_price(&mut self, symbol: &str, price: Decimal)
        ensures
            final(self).desk() == (Desk {
                prices: old(self).desk().prices.insert(symbol@, price@),
                ..old(self).desk()
            }),
            final(self).markets() == old(self).markets(),
            final(self).manager() == old(self).manager(),
    {
        let ghost before = self.last_prices@;
        self.last_prices.insert(symbol, price);
        assert(price_models(before.insert(symbol@, price)) =~= price_models(before).insert(
            symbol@,
            price@,
        ));
    }

    /// Takes a candle event.
    pub fn on_kline(&mut self, event: &KlineEvent)
        ensures
            final(self).desk() == old(self).desk().after_kline(*event),
            final(self).desk().markets == market_models(final(self).markets()),
            final(self).manager() == old(self).manager(),
    {
        let ghost start = self.market@;
        match (
            kline_event_to_candle(event),
            interval_from_name(event.kline.interval.as_str()),
        ) {
            (Some(candle), Some(interval)) => {
                let symbol = event.symbol.as_str();
                let mut md = match self.market.remove(symbol) {
                    Some(md) => md,
                    None => {
                        let md = MarketData::new(symbol);
                        assert(md.of_interval(Interval::M15).len() == 0);
                        assert(md.of_interval(Interval::H1).len() == 0);
                        assert(md.of_interval(Interval::H4).len() == 0);
                        assert(md.symbol@ == symbol@);
                        assert(market_of(md).m15 =~= Seq::<Bar>::empty());
                        assert(market_of(md).h1 =~= Seq::<Bar>::empty());
                        assert(market_of(md).h4 =~= Seq::<Bar>::empty());
                        md
                    },
                };
                assert(market_of(md) == market_at(market_models(start), symbol@));
                add_to_market(&mut md, interval, candle, event.kline.is_closed);
                self.market.insert(symbol, md);
                assert(market_models(self.market@) =~= market_models(start).insert(
                    symbol@,
                    market_of(md),
                ));
            },
            _ => {},
        }
        if !self.initialized && has_candles(&self.market) {
            self.initialized = true;
        }
    }

    fn price_for(&self, symbol: &str, md: &MarketData) -> (r: Decimal)
        requires
            self.desk().markets.dom().contains(symbol@),
            market_of(*md) == self.desk().markets[symbol@],
        ensures
            r@ == self.desk().entry_price(symbol@),
    {
        match self.last_prices.get(symbol) {
            Some(p) => *p,
            None => {
                let n: usize = md.candles_15m.len();
                if n > 0 {
                    assert(market_of(*md).m15.last() == md.candles_15m@[n - 1]@);
                    md.candles_15m[n - 1].close
                } else {
                    Decimal::zero()
                }
            },
        }
    }

    /// Opens a trade at `now` and keeps when and on which candle that was. Nothing and no change where
    /// the risk cannot be held.
    fn enter(
        &mut self,
        symbol: &str,
        time: u64,
        entry: Decimal,
        stop: Decimal,
        target: Decimal,
        size: Decimal,
        figures: Figures,
        trade_id: &str,
        now: Timestamp,
    ) -> (r: Option<TradeRecord>)
        ensures
            final(self).markets() == old(self).markets(),
            kept(old(self).manager().book()) && enters_log(
                old(self).manager().book(),
                symbol@,
                trade_id@,
                now@,
            ) ==> kept(final(self).manager().book()),
            match entry_risk(entry@, stop@) {
                Some(risk) => {
                    &&& r is Some
                    &&& r->0@ == fresh_record(
                        trade_id@,
                        symbol@,
                        TradeDirection::Long,
                        entry@,
                        stop@,
                        target@,
                        size@,
                        figures.atr@,
                        figures.rsi@,
                        figures.adx@,
                        "LiveSignal"@,
                        risk,
                        now@,
                    )
                    &&& final(self).manager().book().trades
                        == old(self).manager().book().trades.push(r->0@)
                    &&& final(self).manager().book().lines
                        == old(self).manager().book().lines.push(join(r->0@.columns(), ','))
                    &&& final(self).desk() == (Desk {
                        traded: old(self).desk().traded.insert(symbol@, time),
                        entered: old(self).desk().entered.insert(symbol@, now@),
                        ..old(self).desk()
                    })
                },
                None => r is None && *final(self) == *old(self),
            },
    {
        proof {
            reveal_strlit("LiveSignal");
        }
        let trade = self.trades.open_trade_at(
            trade_id,
            symbol,
            TradeDirection::Long,
            entry,
            stop,
            target,
            size,
            figures.atr,
            figures.rsi,
            figures.adx,
            "LiveSignal".to_owned(),
            now,
        )?;
        let ghost entries = self.last_entries@;
        self.last_traded.insert(symbol, time);
        self.last_entries.insert(symbol, now);
        assert(time_models(entries.insert(symbol@, now)) =~= time_models(entries).insert(
            symbol@,
            now@,
        ));
        Some(trade)
    }

    /// Acts on a signal for a symbol at `now`: where nothing speaks against it, a trade with the given
    /// identifier is opened. Where a figure cannot be held, nothing changes and the result is
    /// nothing.
    pub fn on_signal(
        &mut self,
        symbol: &str,
        risk: &RiskManager,
        figures: Figures,
        trade_id: &str,
        now: Timestamp,
    ) -> (r: Option<EntryOutcome>)
        ensures
            final(self).markets() == old(self).markets(),
            kept(old(self).manager().book()) && enters_log(
                old(self).manager().book(),
                symbol@,
                trade_id@,
                now@,
            ) ==> kept(final(self).manager().book()),
            signal_outcome(
                old(self).desk(),
                final(self).desk(),
                old(self).manager().book(),
                final(self).manager().book(),
                old(self).desk().entry(
                    old(self).manager().trades(),
                    risk@,
                    symbol@,
                    figures.atr@,
                    now@,
                ),
                symbol@,
                figures,
                trade_id@,
                now@,
                r,
            ),
    {
        let md = match self.market.get(symbol) {
            Some(md) => md,
            None => {
                return Some(EntryOutcome::NoData);
            },
        };
        let time: u64 = candle_time_of(md);
        match self.last_traded.get(symbol) {
            Some(t) => {
                if *t == time {
                    return Some(EntryOutcome::Duplicate);
                }
            },
            None => {},
        }
        let price = self.price_for(symbol, md);
        if price.is_zero() {
            return Some(EntryOutcome::NoPrice);
        }
        let entry = mul_opt(
            Some(price),
            Decimal::one().checked_add(&config::mock_slippage_pct()),
        )?;
        if risk.is_trading_halted() {
            return Some(EntryOutcome::Halted);
        }
        if count_trades(self.trades.active_trades(), symbol) >= config::MAX_OPEN_POSITIONS {
            return Some(EntryOutcome::Full);
        }
        match self.last_entries.get(symbol) {
            Some(last) => {
                let cooldown: i128 = config::TRADE_COOLDOWN_MINUTES as i128 * 60000000000;
                if now.nanos_since(last) < cooldown {
                    return Some(EntryOutcome::Cooling);
                }
            },
            None => {},
        }
        if figures.atr.is_zero() {
            return Some(EntryOutcome::NoRange);
        }
        let stop = sub_opt(Some(entry), Decimal::new(2, 0).checked_mul(&figures.atr))?;
        let target = add_opt(Some(entry), Decimal::new(3, 0).checked_mul(&figures.atr))?;
        let sizing = match risk.checked_position_size(
            entry,
            stop,
            figures.atr,
            figures.atr,
            None,
        )? {
            Ok(s) => s,
            Err(e) => {
                return Some(EntryOutcome::Rejected(e));
            },
        };
        let trade = self.enter(symbol, time, entry, stop, target, sizing.size, figures, trade_id, now)?;
        Some(EntryOutcome::Opened(trade))
    }
}

/// What considering a symbol comes to.
#[derive(Debug)]
pub enum Considered {
    /// There is no market data of the symbol.
    NoData,
    /// The rules could not be evaluated.
    NotEvaluated(EvaluatorError),
    /// The rules are not met.
    NoSignal,
    /// The rules are met, and this came of it.
    Signal(EntryOutcome),
}

impl Session {
    /// Evaluates the strategy for a symbol at `now`, and acts on its signal if there is one. The readings
    /// and the figures are those of the symbol's market data. Where a figure of the entry cannot be
    /// held, nothing changes and the result is nothing.
    pub fn consider(
        &mut self,
        symbol: &str,
        strategy: &UserStrategyConfig,
        readings: &Vec<Option<Reading>>,
        risk: &RiskManager,
        figures: Figures,
        trade_id: &str,
        now: Timestamp,
    ) -> (r: Option<Considered>)
        requires
            old(self).markets().dom().contains(symbol@) && strategy.faults().len() == 0
                ==> evaluation_fits(old(self).markets()[symbol@], *strategy, readings@),
        ensures
            kept(old(self).manager().book()) && enters_log(
                old(self).manager().book(),
                symbol@,
                trade_id@,
                now@,
            ) ==> kept(final(self).manager().book()),
            consider_outcome(
                *old(self),
                *final(self),
                symbol@,
                *strategy,
                readings@,
                risk@,
                figures,
                trade_id@,
                now@,
                r,
            ),
    {
        let evaluated = match self.market.get(symbol) {
            None => {
                return Some(Considered::NoData);
            },
            Some(md) => RuleEvaluator::new().evaluate(md, strategy, readings),
        };
        match evaluated {
            Ok(true) => {
                let outcome = self.on_signal(symbol, risk, figures, trade_id, now)?;
                Some(Considered::Signal(outcome))
            },
            Ok(false) => Some(Considered::NoSignal),
            Err(e) => Some(Considered::NotEvaluated(e)),
        }
    }
}

/// What considering a symbol does to the session, and what it is answered: only a signal changes
/// anything.
pub open spec fn consider_outcome(
    before: Session,
    after: Session,
    symbol: Seq<char>,
    strategy: UserStrategyConfig,
    readings: Seq<Option<Reading>>,
    account: Account,
    f: Figures,
    id: Seq<char>,
    now: Moment,
    r: Option<Considered>,
) -> bool {
    if !before.markets().dom().contains(symbol) {
        after == before && r == Some(Considered::NoData)
    } else {
        match config_verdict(before.markets()[symbol], strategy, readings) {
            Verdict::Signal(true) => {
                &&& r is Some ==> r->0 is Signal
                &&& signal_outcome(
                    before.desk(),
                    after.desk(),
                    before.manager().book(),
                    after.manager().book(),
                    before.desk().entry(before.manager().trades(), account, symbol, f.atr@, now),
                    symbol,
                    f,
                    id,
                    now,
                    match r {
                        Some(Considered::Signal(o)) => Some(o),
                        _ => None,
                    },
                )
            },
            Verdict::Signal(false) => after == before && r == Some(Considered::NoSignal),
            other => after == before && match r {
                Some(Considered::NotEvaluated(e)) => verdict(Err(e)) == other,
                _ => false,
            },
        }
    }
}

/// What a signal does to the session, its trades and their log, and what it is answered.
pub open spec fn signal_outcome(
    before: Desk,
    after: Desk,
    book_before: Book,
    book_after: Book,
    entry: Option<Entry>,
    symbol: Seq<char>,
    f: Figures,
    id: Seq<char>,
    now: Moment,
    r: Option<EntryOutcome>,
) -> bool {
    match entry {
        Some(Entry::Open(o)) => match r {
            Some(EntryOutcome::Opened(t)) => {
                &&& t@ == fresh_record(
                    id,
                    symbol,
                    TradeDirection::Long,
                    o.entry,
                    o.stop,
                    o.target,
                    o.size,
                    f.atr@,
                    f.rsi@,
                    f.adx@,
                    "LiveSignal"@,
                    entry_risk(o.entry, o.stop)->0,
                    now,
                )
                &&& book_after.trades == book_before.trades.push(t@)
                &&& book_after.lines == book_before.lines.push(join(t@.columns(), ','))
                &&& after == (Desk {
                    traded: before.traded.insert(symbol, before.candle_time(symbol) as u64),
                    entered: before.entered.insert(symbol, now),
                    ..before
                })
            },
            _ => false,
        },
        other => {
            &&& after == before
            &&& book_after == book_before
            &&& match other {
                None => r is None,
                Some(Entry::NoData) => r == Some(EntryOutcome::NoData),
                Some(Entry::Duplicate) => r == Some(EntryOutcome::Duplicate),
                Some(Entry::NoPrice) => r == Some(EntryOutcome::NoPrice),
                Some(Entry::Halted) => r == Some(EntryOutcome::Halted),
                Some(Entry::Full) => r == Some(EntryOutcome::Full),
                Some(Entry::Cooling) => r == Some(EntryOutcome::Cooling),
                Some(Entry::NoRange) => r == Some(EntryOutcome::NoRange),
                Some(Entry::Rejected(e)) => match r {
                    Some(EntryOutcome::Rejected(x)) => x@ == e,
                    _ => false,
                },
                Some(Entry::Open(_)) => true,
            }
        },
    }
}

/// A trade that a signal opens, by value: it is entered a thousandth above the last price that came in,
/// or the last close where none did; its stop lies twice the average true range below the entry and its
/// target three times above; and its size is the one that the account gives for that entry and stop. It
/// is opened only for a symbol with market data whose last candle was not traded yet, on an account that
/// is not halted, with fewer than three open trades of the symbol, a quarter of an hour after its last
/// entry, and with a range to measure by.
pub proof fn law_entry_by_value(
    d: Desk,
    trades: Seq<Record>,
    account: Account,
    symbol: Seq<char>,
    atr: Dec,
    now: Moment,
    o: Order,
)
    requires
        d.entry(trades, account, symbol, atr, now) == Some(Entry::Open(o)),
        d.entry_price(symbol).valid(),
        atr.valid(),
        o.entry.valid(),
        (Dec { m: atr.m * 2, s: atr.s }).valid(),
        (Dec { m: atr.m * 3, s: atr.s }).valid(),
        aligned_sum(o.entry, (Dec { m: -(atr.m * 2), s: atr.s })).valid(),
        aligned_sum(o.entry, (Dec { m: atr.m * 3, s: atr.s })).valid(),
    ensures
        d.markets.dom().contains(symbol),
        d.traded.dom().contains(symbol) ==> d.traded[symbol] as int != d.candle_time(symbol),
        !account.halted,
        trades_of(trades, symbol, trades.len()) < 3,
        d.entered.dom().contains(symbol) ==> now.nanos_since(d.entered[symbol]) >= 15 * 60
            * 1000000000,
        atr.m != 0,
        d.prices.dom().contains(symbol) ==> rounds_to(
            1001 * d.prices[symbol].units(),
            1000,
            o.entry.units(),
        ),
        !d.prices.dom().contains(symbol) ==> d.markets[symbol].m15.len() > 0 && rounds_to(
            1001 * d.markets[symbol].m15.last().close.units(),
            1000,
            o.entry.units(),
        ),
        o.stop.units() == o.entry.units() - 2 * atr.units(),
        o.target.units() == o.entry.units() + 3 * atr.units(),
        account.sizing(o.entry, o.stop, atr, atr, None) matches Some(Ok(s)) && s.size == o.size,
{
    let price = d.entry_price(symbol);
    lemma_slipped(price);
    lemma_times(atr, 2);
    lemma_times(atr, 3);
    let two = product(whole(2), atr)->0;
    let three = product(whole(3), atr)->0;
    law_difference_is_exact(o.entry, two);
    law_sum_is_exact(o.entry, three);
    lemma_units_sign(zero());
}

proof fn lemma_times(d: Dec, k: int)
    requires
        d.valid(),
        d.m != 0,
        0 < k <= 10,
        (Dec { m: d.m * k, s: d.s }).valid(),
    ensures
        product(whole(k), d) == Some(Dec { m: d.m * k, s: d.s }),
        (Dec { m: d.m * k, s: d.s }).units() == k * d.units(),
{
    let m = d.m;
    let w = pow10((28 - d.s) as nat);
    assert(k * m == m * k) by (nonlinear_arith);
    assert(m * k != 0) by (nonlinear_arith)
        requires
            m != 0,
            k > 0,
    ;
    assert((m * k) * w == k * (m * w)) by (nonlinear_arith);
}

proof fn lemma_slipped(price: Dec)
    requires
        price.valid(),
        product_of(Some(price), sum(whole(1), config::mock_slippage())) is Some,
    ensures
        rounds_to(
            1001 * price.units(),
            1000,
            product_of(Some(price), sum(whole(1), config::mock_slippage()))->0.units(),
        ),
{
    crate::exchange::engine::lemma_slipped(price, crate::types::position::Position::Long);
}

/// Where nothing speaks against an entry it is made: market data, a candle that was not traded yet, a
/// price, an account that is not halted, room for another trade of the symbol, a last entry that is
/// long enough ago, a range, and a size that the account gives.
pub proof fn law_nothing_else_refuses(
    d: Desk,
    trades: Seq<Record>,
    account: Account,
    symbol: Seq<char>,
    atr: Dec,
    now: Moment,
)
    requires
        d.entry(trades, account, symbol, atr, now) is Some,
        d.markets.dom().contains(symbol),
        d.traded.dom().contains(symbol) ==> d.traded[symbol] as int != d.candle_time(symbol),
        d.entry_price(symbol).m != 0,
        !account.halted,
        trades_of(trades, symbol, trades.len()) < 3,
        d.entered.dom().contains(symbol) ==> now.nanos_since(d.entered[symbol]) >= 15 * 60
            * 1000000000,
        atr.m != 0,
    ensures
        d.entry(trades, account, symbol, atr, now)->0 is Open || d.entry(
            trades,
            account,
            symbol,
            atr,
            now,
        )->0 is Rejected,
{
}

/// How candles come in: a closed one is always added, and one that is still open takes the place of the
/// last where that began at the same time; the candles before stay as they are.
pub proof fn law_candles_come_in(c: Seq<Bar>, b: Bar, closed: bool)
    ensures
        ({
            let after = with_candle(c, b, closed);
            &&& after.len() > 0 && after.last() == b
            &&& closed || c.len() == 0 || c.last().timestamp != b.timestamp ==> after.drop_last() == c
            &&& !closed && c.len() > 0 && c.last().timestamp == b.timestamp ==> after.drop_last()
                == c.drop_last()
        }),
{
    let after = with_candle(c, b, closed);
    if !closed && c.len() > 0 && c.last().timestamp == b.timestamp {
        assert(after.drop_last() =~= c.drop_last());
    } else {
        assert(after.drop_last() =~= c);
    }
}

/// A candle goes to the series of its own interval and to no other.
pub proof fn law_candles_by_interval(m: Market, b: Bar, closed: bool)
    ensures
        m.with_bar(Interval::M15, b, closed).m15.last() == b,
        m.with_bar(Interval::M15, b, closed).h1 == m.h1,
        m.with_bar(Interval::M15, b, closed).h4 == m.h4,
        m.with_bar(Interval::H1, b, closed).h1.last() == b,
        m.with_bar(Interval::H1, b, closed).m15 == m.m15,
        m.with_bar(Interval::H1, b, closed).h4 == m.h4,
        m.with_bar(Interval::H4, b, closed).h4.last() == b,
        m.with_bar(Interval::H4, b, closed).m15 == m.m15,
        m.with_bar(Interval::H4, b, closed).h1 == m.h1,
        named_interval("15m"@) == Some(Interval::M15),
        named_interval("1h"@) == Some(Interval::H1),
        named_interval("4h"@) == Some(Interval::H4),
{
    reveal_strlit("15m");
    reveal_strlit("1h");
    reveal_strlit("4h");
    assert("15m"@.len() != "1h"@.len());
    assert("15m"@.len() != "4h"@.len());
    assert("1h"@[0] != "4h"@[0]);
    law_candles_come_in(m.m15, b, closed);
    law_candles_come_in(m.h1, b, closed);
    law_candles_come_in(m.h4, b, closed);
}

/// A trade counts for its own symbol and for no other.
pub proof fn law_trades_count_for_their_symbol(trades: Seq<Record>, t: Record, symbol: Seq<char>)
    ensures
        trades_of(trades.push(t), symbol, trades.len() + 1) == trades_of(
            trades,
            symbol,
            trades.len(),
        ) + if t.symbol == symbol {
            1int
        } else {
            0
        },
        trades_of(Seq::empty(), symbol, 0) == 0,
{
    lemma_same_count(trades, t, symbol, trades.len());
}

proof fn lemma_same_count(trades: Seq<Record>, t: Record, symbol: Seq<char>, n: nat)
    requires
        n <= trades.len(),
    ensures
        trades_of(trades.push(t), symbol, n) == trades_of(trades, symbol, n),
    decreases n,
{
    if n > 0 {
        lemma_same_count(trades, t, symbol, (n - 1) as nat);
        assert(trades.push(t)[n - 1] == trades[n - 1]);
    }
}

/// The candle that an entry counts for is the last of the quarters of an hour, by its time.
pub proof fn law_candle_of_an_entry(d: Desk, symbol: Seq<char>)
    requires
        d.markets.dom().contains(symbol),
    ensures
        d.markets[symbol].m15.len() > 0 && d.markets[symbol].m15.last().timestamp.millis() >= 0
            ==> d.candle_time(symbol) == d.markets[symbol].m15.last().timestamp.millis(),
        d.markets[symbol].m15.len() == 0 ==> d.candle_time(symbol) == 0,
{
}

/// A session becomes ready as soon as one of the three traded symbols has a quarter of an hour's candle.
pub proof fn law_ready_with_the_first_candle(d: Desk, e: KlineEvent)
    requires
        e.symbol@ == "BTCUSDT"@ || e.symbol@ == "ETHUSDT"@ || e.symbol@ == "SOLUSDT"@,
        event_bar(e) is Some,
        e.kline.interval@ == "15m"@,
    ensures
        d.after_kline(e).ready,
        market_at(d.after_kline(e).markets, e.symbol@).m15.last() == event_bar(e)->0,
{
    let m = d.markets_after(e);
    let b = event_bar(e)->0;
    law_candles_come_in(market_at(d.markets, e.symbol@).m15, b, e.kline.is_closed);
    assert(market_at(m, e.symbol@).m15.len() > 0);
    assert(universe()[0] == "BTCUSDT"@);
    assert(universe()[1] == "ETHUSDT"@);
    assert(universe()[2] == "SOLUSDT"@);
}

/// What a signal does to the trades and their log: where it opens a trade, that is a long one of the
/// symbol with the prices and the size of the entry, to eight places, which is added behind the others
/// and has a line of its own behind the others; whatever else comes of it, nothing changes.
pub proof fn law_signals_by_value(
    before: Desk,
    after: Desk,
    book_before: Book,
    book_after: Book,
    entry: Option<Entry>,
    symbol: Seq<char>,
    f: Figures,
    id: Seq<char>,
    now: Moment,
    r: Option<EntryOutcome>,
)
    requires
        signal_outcome(
            before,
            after,
            book_before,
            book_after,
            entry,
            symbol,
            f,
            id,
            now,
            r,
        ),
    ensures
        r matches Some(EntryOutcome::Opened(_)) <==> entry matches Some(Entry::Open(_)),
        entry matches Some(Entry::Open(o)) ==> {
            let t = book_after.trades.last();
            &&& book_after.trades.len() == book_before.trades.len() + 1
            &&& book_after.trades.drop_last() == book_before.trades
            &&& book_after.lines.len() == book_before.lines.len() + 1
            &&& book_after.lines.drop_last() == book_before.lines
            &&& t.id == id && t.symbol == symbol && t.direction == TradeDirection::Long
            &&& t.entry_price == o.entry.rounded(8) && t.stop_loss == o.stop.rounded(8)
            &&& t.take_profit == o.target.rounded(8) && t.position_size == o.size.rounded(8)
            &&& t.entry_time == now && t.is_new()
            &&& after.entered.dom().contains(symbol) && after.entered[symbol] == now
            &&& after.traded.dom().contains(symbol)
            &&& after.markets == before.markets && after.prices == before.prices
        },
        !(entry matches Some(Entry::Open(_))) ==> after == before && book_after == book_before,
{
    if let Some(Entry::Open(o)) = entry {
        assert(book_after.trades.drop_last() =~= book_before.trades);
        assert(book_after.lines.drop_last() =~= book_before.lines);
    }
}

/// A session starts exactly where none is running and the strategy has no fault.
pub proof fn law_start_is_refused_for_a_reason(
    active: bool,
    config: UserStrategyConfig,
    number: Seq<char>,
)
    ensures
        start_refusal(active, config, number) is None <==> !active && config.faults().len() == 0,
        active ==> start_refusal(active, config, number) == Some(
            "A session is already running. Call stop_session first."@,
        ),
{
}

/// A signal is answered wherever its figures fit: the price with the slippage in it, the stop and the
/// target, the account's answer, and the risk of the record.
pub proof fn law_signal_is_owed(
    d: Desk,
    trades: Seq<Record>,
    account: Account,
    symbol: Seq<char>,
    atr: Dec,
    now: Moment,
)
    requires
        ({
            let entry = product_of(
                Some(d.entry_price(symbol)),
                sum(whole(1), config::mock_slippage()),
            );
            let stop = difference_of(entry, product(whole(2), atr));
            let target = sum_of(entry, product(whole(3), atr));
            &&& entry is Some && stop is Some && target is Some
            &&& account.sizing(entry->0, stop->0, atr, atr, None) is Some
            &&& entry_risk(entry->0, stop->0) is Some
        }),
    ensures
        d.entry(trades, account, symbol, atr, now) is Some,
{
}

} // verus!
