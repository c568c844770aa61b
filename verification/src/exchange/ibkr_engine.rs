//! Execution engine for instruments whose market closes at the weekend.
//!
//! Positions are kept in memory only. Outside market hours no position is opened, and every
//! position that is looked at is closed, so that none is held over the weekend.
use crate::decimal::{
    aligned_sum, difference, law_difference_is_exact, zero, Dec, Decimal, Price, Volume,
};
use crate::exchange::engine::{copy_position, models, no_position, Positions};
use crate::exchange::orders::{ExecutionError, ExecutionFault};
use crate::exchange::trade_manager::{
    checked_evaluate_position, fresh_position, Managed, ManagedPosition, Management,
    ManagementAction, TradeState,
};
use crate::symbol_map::{has_key_at, map_of, SymbolMap};
use crate::time::{law_week_by_seconds, Moment, Timestamp};
use crate::types::position::Position;
use vstd::prelude::*;

verus! {

/// Configuration for the engine.
#[derive(Clone, Debug)]
pub struct IbkrEngineConfig {
    /// Gateway host (e.g., "127.0.0.1").
    pub host: String,
    /// Gateway port (7497 = paper, 7496 = live).
    pub port: u16,
    /// Client ID used to tag the connection.
    pub client_id: i32,
    /// Whether to operate in paper-trading mode.
    pub paper_trading: bool,
    /// Instruments this engine is permitted to trade.
    pub symbols: Vec<String>,
    /// Maximum slippage tolerated on entry/exit.
    pub max_slippage: Decimal,
    /// UTC hour from which the market counts as closed on a Friday.
    pub friday_close_utc_hour: u32,
}

impl Default for IbkrEngineConfig {
    fn default() -> (r: IbkrEngineConfig)
        ensures
            r.host@ == "127.0.0.1"@,
            r.port == 7497,
            r.client_id == 1,
            r.paper_trading,
            r.symbols@.len() == 1,
            r.symbols@[0]@ == "CL"@,
            r.max_slippage@ == (Dec { m: 1, s: 3 }),
            r.friday_close_utc_hour == 22,
    {
        let mut symbols: Vec<String> = Vec::new();
        symbols.push("CL".to_owned());
        IbkrEngineConfig {
            host: "127.0.0.1".to_owned(),
            port: 7497,
            client_id: 1,
            paper_trading: true,
            symbols,
            max_slippage: Decimal::new(1, 3),
            friday_close_utc_hour: 22,
        }
    }
}

/// The market is open at a moment: not on a Saturday, on a Sunday from 23:00 UTC on, and on a
/// Friday before the closing hour.
pub open spec fn market_open(now: Moment, friday_close: int) -> bool {
    if now.weekday() == 6 {
        false
    } else if now.weekday() == 0 {
        now.hour() >= 23
    } else if now.weekday() == 5 {
        now.hour() < friday_close
    } else {
        true
    }
}

/// The name of a direction in messages.
pub open spec fn direction_name(d: Position) -> Seq<char> {
    match d {
        Position::Long => "LONG"@,
        Position::Short => "SHORT"@,
        Position::Flat => "NONE"@,
    }
}

/// What a request outside market hours is answered.
pub open spec fn market_closed(symbol: Seq<char>, d: Position) -> ExecutionFault {
    ExecutionFault::ExchangeError {
        message: "[IBKR] Refused to open "@ + symbol + " position on "@ + direction_name(d)
            + " — market is closed or in Friday pre-close window."@,
    }
}

/// The position that is opened at `now`, or the refusal outside market hours. Nothing where the risk
/// cannot be held.
pub open spec fn opening(
    symbol: Seq<char>,
    direction: Position,
    entry: Dec,
    stop: Dec,
    target: Dec,
    quantity: Dec,
    atr: Dec,
    now: Moment,
    friday_close: int,
) -> Option<Result<Managed, ExecutionFault>> {
    if !market_open(now, friday_close) {
        Some(Err(market_closed(symbol, direction)))
    } else {
        match difference(entry, stop) {
            Some(d) => Some(
                Ok(
                    fresh_position(
                        symbol,
                        direction,
                        entry,
                        stop,
                        target,
                        quantity,
                        atr,
                        d.magnitude(),
                        now,
                    ),
                ),
            ),
            None => None,
        }
    }
}

/// The positions after the first take profit; there is no realized profit to keep.
pub open spec fn first_tp_kept(book: Positions, symbol: Seq<char>, quantity: Dec, stop: Dec) -> Option<
    Positions,
> {
    if book[symbol].state != TradeState::Open {
        Some(book)
    } else {
        match book[symbol].after_first_tp(quantity, zero()) {
            Some(p) => Some(book.insert(symbol, Managed { current_stop_loss: stop, ..p })),
            None => None,
        }
    }
}

/// The positions after one was closed at `now`.
pub open spec fn close_kept(book: Positions, symbol: Seq<char>, now: Moment) -> Option<Positions> {
    match book[symbol].closed(zero(), now) {
        Some(p) => Some(book.insert(symbol, p)),
        None => None,
    }
}

/// The reason for closing outside market hours.
pub open spec fn weekend_reason() -> Seq<char> {
    "Friday pre-close: weekend gap risk mitigation"@
}

/// The positions after one was looked at, and what was done. Outside market hours it is closed,
/// whatever the price. Nothing where a figure cannot be held.
pub open spec fn watched(
    book: Positions,
    symbol: Seq<char>,
    price: Dec,
    now: Moment,
    friday_close: int,
) -> Option<Result<(Positions, Management), ExecutionFault>> {
    if !book.dom().contains(symbol) {
        Some(Err(no_position(symbol)))
    } else if !market_open(now, friday_close) {
        match close_kept(book, symbol, now) {
            Some(b) => Some(Ok((b, Management::Close { reason: weekend_reason() }))),
            None => None,
        }
    } else {
        match book[symbol].evaluated(price) {
            None => None,
            Some(action) => {
                let next = match action {
                    Management::FirstTp { quantity, new_stop_loss } => first_tp_kept(
                        book,
                        symbol,
                        quantity,
                        new_stop_loss,
                    ),
                    Management::Trail { offset } => Some(
                        book.insert(symbol, book[symbol].trailing(0)),
                    ),
                    Management::Close { reason } => close_kept(book, symbol, now),
                    Management::Hold => Some(book),
                };
                match next {
                    Some(b) => Some(Ok((b, action))),
                    None => None,
                }
            },
        }
    }
}

/// No position that is looked at outside market hours stays active.
pub proof fn law_nothing_is_held_over_the_weekend(
    book: Positions,
    symbol: Seq<char>,
    price: Dec,
    now: Moment,
    friday_close: int,
)
    requires
        book.dom().contains(symbol),
        !market_open(now, friday_close),
        watched(book, symbol, price, now, friday_close) is Some,
    ensures
        ({
            let w = watched(book, symbol, price, now, friday_close)->0;
            w is Ok && !((w->Ok_0).0)[symbol].active()
        }),
{
}

/// The execution engine. Its positions are kept by symbol.
pub struct IbkrExecutionEngine {
    config: IbkrEngineConfig,
    positions: SymbolMap<ManagedPosition>,
    mock_mode: bool,
}

impl IbkrExecutionEngine {
    /// The positions.
    pub closed spec fn held(&self) -> Map<Seq<char>, ManagedPosition> {
        self.positions@
    }

    /// The positions as models.
    pub open spec fn book(&self) -> Positions {
        models(self.held())
    }

    /// The UTC hour from which the market counts as closed on a Friday.
    pub closed spec fn friday_close(&self) -> int {
        self.config.friday_close_utc_hour as int
    }

    /// The engine is a simulated one.
    pub closed spec fn mock(&self) -> bool {
        self.mock_mode
    }

    /// Creates an engine without positions.
    pub fn new(config: IbkrEngineConfig) -> (r: IbkrExecutionEngine)
        ensures
            r.book() == Map::<Seq<char>, Managed>::empty(),
            r.friday_close() == config.friday_close_utc_hour,
            !r.mock(),
    {
        let r = IbkrExecutionEngine { config, positions: SymbolMap::new(), mock_mode: false };
        assert(r.book() =~= Map::<Seq<char>, Managed>::empty());
        r
    }

    /// Creates a simulated engine without positions, with the default configuration.
    pub fn new_mock() -> (r: IbkrExecutionEngine)
        ensures
            r.book() == Map::<Seq<char>, Managed>::empty(),
            r.friday_close() == 22,
            r.mock(),
    {
        let r = IbkrExecutionEngine {
            config: IbkrEngineConfig::default(),
            positions: SymbolMap::new(),
            mock_mode: true,
        };
        assert(r.book() =~= Map::<Seq<char>, Managed>::empty());
        r
    }

    /// Whether the engine is a simulated one.
    pub fn is_mock(&self) -> (r: bool)
        ensures
            r == self.mock(),
    {
        self.mock_mode
    }

    /// Whether positions may be held at `now`.
    pub fn is_market_open_at(&self, now: Timestamp) -> (r: bool)
        ensures
            r == market_open(now@, self.friday_close()),
    {
        let weekday: u32 = now.weekday();
        let hour: u32 = now.hour();
        if weekday == 6 {
            return false;
        }
        if weekday == 0 && hour < 23 {
            return false;
        }
        if weekday == 5 && hour >= self.config.friday_close_utc_hour {
            return false;
        }
        true
    }

    /// Returns `true` if it is currently safe to hold or open new positions.
    pub fn check_market_hours(&self) -> (r: bool)
        ensures
            exists|now: Moment|
                now.valid() && r == #[trigger] market_open(now, self.friday_close()),
    {
        let now = Timestamp::now();
        self.is_market_open_at(now)
    }

    fn put(&mut self, symbol: &str, p: ManagedPosition)
        ensures
            final(self).book() == old(self).book().insert(symbol@, p@),
            final(self).friday_close() == old(self).friday_close(),
            final(self).mock() == old(self).mock(),
    {
        let ghost before = self.held();
        self.positions.insert(symbol, p);
        assert(self.book() =~= models(before).insert(symbol@, p@));
    }

    /// Opens a position at `now`, if the market is open. Nothing where the risk cannot be held.
    pub fn open_position(
        &mut self,
        symbol: &str,
        direction: Position,
        entry_price: Price,
        stop_loss: Price,
        take_profit: Price,
        quantity: Volume,
        atr_value: Decimal,
        now: Timestamp,
    ) -> (r: Option<Result<ManagedPosition, ExecutionError>>)
        ensures
            final(self).friday_close() == old(self).friday_close(),
            final(self).mock() == old(self).mock(),
            match opening(
                symbol@,
                direction,
                entry_price@,
                stop_loss@,
                take_profit@,
                quantity@,
                atr_value@,
                now@,
                old(self).friday_close(),
            ) {
                Some(Ok(p)) => r is Some && r->0 is Ok && (r->0->Ok_0)@ == p && final(self).book()
                    == old(self).book().insert(symbol@, p),
                Some(Err(e)) => r is Some && r->0 is Err && (r->0->Err_0)@ == e
                    && final(self).book() == old(self).book(),
                None => r is None && final(self).book() == old(self).book(),
            },
    {
        if !self.is_market_open_at(now) {
            let name = match direction {
                Position::Long => "LONG",
                Position::Short => "SHORT",
                Position::Flat => "NONE",
            };
            return Some(
                Err(
                    ExecutionError::ExchangeError {
                        message: "[IBKR] Refused to open ".to_owned().concat(symbol).concat(
                            " position on ",
                        ).concat(name).concat(
                            " — market is closed or in Friday pre-close window.",
                        ),
                    },
                ),
            );
        }
        let position = ManagedPosition::new_at(
            symbol,
            direction,
            entry_price,
            stop_loss,
            take_profit,
            quantity,
            atr_value,
            now,
        )?;
        self.put(symbol, copy_position(&position));
        Some(Ok(position))
    }

    /// Looks at a position at `now`: outside market hours it is closed, otherwise it is evaluated
    /// at the price and what comes of it is done.
    pub fn monitor_position(&mut self, symbol: &str, current_price: Price, now: Timestamp) -> (r:
        Option<Result<ManagementAction, ExecutionError>>)
        ensures
            final(self).friday_close() == old(self).friday_close(),
            final(self).mock() == old(self).mock(),
            match watched(
                old(self).book(),
                symbol@,
                current_price@,
                now@,
                old(self).friday_close(),
            ) {
                Some(Ok(done)) => r is Some && r->0 is Ok && (r->0->Ok_0)@ == done.1
                    && final(self).book() == done.0,
                Some(Err(e)) => r is Some && r->0 is Err && (r->0->Err_0)@ == e
                    && final(self).book() == old(self).book(),
                None => r is None && final(self).book() == old(self).book(),
            },
    {
        if !self.is_market_open_at(now) {
            return match self.close_position(symbol, now)? {
                Ok(()) => Some(
                    Ok(
                        ManagementAction::ClosePosition {
                            reason: "Friday pre-close: weekend gap risk mitigation".to_owned(),
                        },
                    ),
                ),
                Err(e) => Some(Err(e)),
            };
        }
        let mut p = match self.positions.get(symbol) {
            None => {
                return Some(
                    Err(ExecutionError::PositionNotFound { symbol: symbol.to_owned() }),
                );
            },
            Some(p) => copy_position(p),
        };
        let action = checked_evaluate_position(&p, current_price)?;
        match &action {
            ManagementAction::ExecuteFirstTp { quantity_to_close, new_stop_loss } => {
                if p.state == TradeState::Open {
                    if !p.checked_transition_to_first_tp(*quantity_to_close, Decimal::zero()) {
                        return None;
                    }
                    p.current_stop_loss = *new_stop_loss;
                    self.put(symbol, p);
                }
            },
            ManagementAction::ActivateTrailingStop { offset } => {
                p.transition_to_trailing(0);
                self.put(symbol, p);
            },
            ManagementAction::ClosePosition { reason } => {
                if p.realized_pnl.checked_add(&Decimal::zero()).is_none() {
                    return None;
                }
                p.close_at(Decimal::zero(), now);
                self.put(symbol, p);
            },
            ManagementAction::Hold => {},
        }
        Some(Ok(action))
    }

    /// Closes a position at `now`.
    pub fn close_position(&mut self, symbol: &str, now: Timestamp) -> (r: Option<
        Result<(), ExecutionError>,
    >)
        ensures
            final(self).friday_close() == old(self).friday_close(),
            final(self).mock() == old(self).mock(),
            if !old(self).book().dom().contains(symbol@) {
                r is Some && r->0 is Err && (r->0->Err_0)@ == no_position(symbol@)
                    && final(self).book() == old(self).book()
            } else {
                match close_kept(old(self).book(), symbol@, now@) {
                    Some(b) => r is Some && r->0 is Ok && final(self).book() == b,
                    None => r is None && final(self).book() == old(self).book(),
                }
            },
    {
        let mut p = match self.positions.get(symbol) {
            None => {
                return Some(
                    Err(ExecutionError::PositionNotFound { symbol: symbol.to_owned() }),
                );
            },
            Some(p) => copy_position(p),
        };
        if p.realized_pnl.checked_add(&Decimal::zero()).is_none() {
            return None;
        }
        p.close_at(Decimal::zero(), now);
        self.put(symbol, p);
        Some(Ok(()))
    }

    /// Returns all currently active positions by symbol.
    pub fn active_positions(&self) -> (r: SymbolMap<ManagedPosition>)
        ensures
            forall|k: Seq<char>|
                #![trigger r@.dom().contains(k)]
                r@.dom().contains(k) == (self.book().dom().contains(k) && self.book()[k].active()),
            forall|k: Seq<char>|
                r@.dom().contains(k) ==> (#[trigger] r@[k])@ == self.book()[k],
    {
        let n: usize = self.positions.len();
        let ghost entries = self.positions.entry_seq();
        let ghost held = self.held();
        let mut found: SymbolMap<ManagedPosition> = SymbolMap::new();
        let mut i: usize = 0;
        while i < n
            invariant
                i <= n,
                n as int == entries.len(),
                entries == self.positions.entry_seq(),
                held == self.held(),
                forall|k: Seq<char>|
                    #![trigger found@.dom().contains(k)]
                    found@.dom().contains(k) ==> held.dom().contains(k) && held[k]@.active()
                        && found@[k]@ == held[k]@,
                forall|j: int|
                    0 <= j < i && (#[trigger] entries[j]).value@.active() ==> found@.dom().contains(
                        entries[j].key@,
                    ),
            decreases n - i,
        {
            let e = self.positions.entry(i);
            if e.value.is_active() {
                found.insert(e.key.as_str(), copy_position(&e.value));
            }
            i = i + 1;
        }
        proof {
            assert forall|k: Seq<char>|
                #![trigger found@.dom().contains(k)]
                self.book().dom().contains(k) && self.book()[k].active() implies
                found@.dom().contains(k) by {
                assert(map_of(entries).dom().contains(k));
                let j = choose|j: int| has_key_at(entries, k, j);
                assert(has_key_at(entries, k, j));
                assert(entries[j].value == map_of(entries)[k]);
                assert(entries[j].key@ == k);
            }
        }
        found
    }

    /// Returns `true` if there is an active position for the given symbol.
    pub fn has_position(&self, symbol: &str) -> (r: bool)
        ensures
            r == (self.book().dom().contains(symbol@) && self.book()[symbol@].active()),
    {
        match self.positions.get(symbol) {
            Some(p) => p.is_active(),
            None => false,
        }
    }
}

/// The market is closed from the closing hour of a Friday until 23:00 of the Sunday after it, and open
/// all the rest of the week, by the seconds since the last Monday at midnight.
pub proof fn law_market_hours_by_week(now: Moment, friday_close: int)
    requires
        0 <= friday_close <= 24,
    ensures
        ({
            let since_monday = (now.secs + 3 * 86400) % 604800;
            market_open(now, friday_close) == (since_monday < 4 * 86400 + friday_close * 3600
                || since_monday >= 6 * 86400 + 23 * 3600)
        }),
{
    law_week_by_seconds(now);
}

/// What looking at a position does while the market is open: what is due at the price, and nothing
/// else; outside market hours the position is closed at that moment, whatever the price, and the
/// reason is named.
pub proof fn law_watching_by_value(
    book: Positions,
    symbol: Seq<char>,
    price: Dec,
    now: Moment,
    friday_close: int,
)
    requires
        book.dom().contains(symbol),
        watched(book, symbol, price, now, friday_close) is Some,
    ensures
        ({
            let p = book[symbol];
            let w = watched(book, symbol, price, now, friday_close)->0;
            let (after, action) = w->Ok_0;
            let next = after[symbol];
            &&& w is Ok
            &&& !market_open(now, friday_close) ==> {
                &&& action == (Management::Close {
                    reason: "Friday pre-close: weekend gap risk mitigation"@,
                })
                &&& next.state == TradeState::Closed && next.current_quantity.m == 0
                &&& next.closed_at == Some(now)
            }
            &&& market_open(now, friday_close) ==> {
                &&& p.evaluated(price) == Some(action)
                &&& action is Hold ==> after == book
                &&& action is Trail ==> next.state == TradeState::TrailingActive
                    && next.current_quantity == p.current_quantity
                &&& action matches Management::FirstTp { quantity, new_stop_loss } ==> {
                    &&& next.state == TradeState::FirstTpHit
                    &&& next.current_stop_loss == p.entry_price
                    &&& p.current_quantity.valid() && quantity.valid() && aligned_sum(
                        p.current_quantity,
                        quantity.negated(),
                    ).valid() ==> next.current_quantity.units() == p.current_quantity.units()
                        - quantity.units()
                    &&& p.realized_pnl.m != 0 ==> next.realized_pnl == p.realized_pnl
                }
            }
        }),
{
    let p = book[symbol];
    match p.evaluated(price) {
        Some(Management::FirstTp { quantity, new_stop_loss }) => {
            if p.current_quantity.valid() && quantity.valid() && aligned_sum(
                p.current_quantity,
                quantity.negated(),
            ).valid() {
                law_difference_is_exact(p.current_quantity, quantity);
            }
        },
        _ => {},
    }
}

/// Looking at the position of one symbol leaves every other alone.
pub proof fn law_watching_is_local(
    book: Positions,
    symbol: Seq<char>,
    price: Dec,
    now: Moment,
    friday_close: int,
    other: Seq<char>,
)
    requires
        other != symbol,
        watched(book, symbol, price, now, friday_close) is Some,
        watched(book, symbol, price, now, friday_close)->0 is Ok,
    ensures
        ({
            let after = (watched(book, symbol, price, now, friday_close)->0->Ok_0).0;
            &&& after.dom().contains(other) == book.dom().contains(other)
            &&& book.dom().contains(other) ==> after[other] == book[other]
        }),
{
}

/// A position is opened during market hours and refused outside them, whatever is asked: what is opened
/// has the prices, the quantity and the range that were asked for, and its risk is the distance from the
/// entry to the stop.
pub proof fn law_opening_by_hours(
    symbol: Seq<char>,
    direction: Position,
    entry: Dec,
    stop: Dec,
    target: Dec,
    quantity: Dec,
    atr: Dec,
    now: Moment,
    friday_close: int,
)
    requires
        0 <= friday_close <= 24,
        entry.valid(),
        stop.valid(),
        aligned_sum(entry, stop.negated()).valid(),
    ensures
        ({
            let since_monday = (now.secs + 3 * 86400) % 604800;
            let open = since_monday < 4 * 86400 + friday_close * 3600 || since_monday >= 6 * 86400
                + 23 * 3600;
            let o = opening(
                symbol,
                direction,
                entry,
                stop,
                target,
                quantity,
                atr,
                now,
                friday_close,
            );
            &&& o is Some
            &&& !open ==> o->0 is Err
            &&& open ==> (o->0 matches Ok(p) && {
                &&& p.symbol == symbol && p.direction == direction && p.entry_price == entry
                &&& p.current_stop_loss == stop && p.take_profit == target
                &&& p.current_quantity == quantity && p.atr_value == atr && p.opened_at == now
                &&& p.state == TradeState::Open
                &&& p.risk_per_unit.units() == if entry.units() >= stop.units() {
                    entry.units() - stop.units()
                } else {
                    stop.units() - entry.units()
                }
            })
        }),
{
    law_market_hours_by_week(now, friday_close);
    law_difference_is_exact(entry, stop);
    crate::exchange::engine::lemma_magnitude(difference(entry, stop)->0);
}

} // verus!
