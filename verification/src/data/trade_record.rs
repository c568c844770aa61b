//! The record of one trade, from its entry to its exit, and its line in the trade log.
use crate::decimal::{
    abs_opt, add_opt, aligned_sum, difference, difference_of, div_opt, law_difference_is_exact,
    law_product_is_exact, law_product_is_rounded, law_quotient_is_rounded, law_quotient_reaches,
    law_rounding_is_nearest, law_sum_is_exact, lemma_pow10_add, lemma_pow10_positive,
    lemma_text_chars, lemma_units_sign, magnitude_of, mul_opt, opt_view, parsed, pow10, product,
    product_of, quotient, quotient_of, round_opt, rounded_of, rounds_to, sub_opt, sum, sum_of, zero,
    Dec, Decimal,
};
use crate::text::{
    join, join_texts, lacks, lemma_join_lacks, lemma_split_join, lowercase, replace_char, replaced,
    same_text, split_on, to_lowercase, unbroken, views,
};
use crate::time::{opt_moment, rfc3339_moment, rfc3339_text, Moment, Timestamp};
use vstd::prelude::*;

verus! {

/// Number of decimal places that prices and sizes are kept at.
pub const DECIMAL_PLACES: u32 = 8;

/// Trade direction.
#[derive(Clone, Copy, Debug, PartialEq, Eq, Structural)]
pub enum TradeDirection {
    Long,
    Short,
}

/// The direction that a lower-case word stands for.
pub open spec fn direction_word(s: Seq<char>) -> Option<TradeDirection> {
    if s == "long"@ {
        Some(TradeDirection::Long)
    } else if s == "short"@ {
        Some(TradeDirection::Short)
    } else {
        None
    }
}

impl TradeDirection {
    /// The word that the log holds.
    pub open spec fn word(self) -> Seq<char> {
        match self {
            TradeDirection::Long => "Long"@,
            TradeDirection::Short => "Short"@,
        }
    }

    /// The other direction.
    pub open spec fn other(self) -> TradeDirection {
        match self {
            TradeDirection::Long => TradeDirection::Short,
            TradeDirection::Short => TradeDirection::Long,
        }
    }

    /// Returns the opposite direction.
    pub fn opposite(&self) -> (r: TradeDirection)
        ensures
            r == self.other(),
            r.other() == *self,
            r != *self,
    {
        match self {
            TradeDirection::Long => TradeDirection::Short,
            TradeDirection::Short => TradeDirection::Long,
        }
    }

    /// Parses a direction, whatever the case of its letters.
    pub fn from_str(s: &str) -> (r: Option<TradeDirection>)
        ensures
            r == direction_word(lowercase(s@)),
    {
        let low = to_lowercase(s);
        proof {
            reveal_strlit("long");
            reveal_strlit("short");
        }
        if same_text(low.as_str(), "long") {
            Some(TradeDirection::Long)
        } else if same_text(low.as_str(), "short") {
            Some(TradeDirection::Short)
        } else {
            None
        }
    }

    /// The name of the direction.
    pub fn to_string(&self) -> (r: String)
        ensures
            r@ == self.word(),
            direction_word(lowercase(r@)) == Some(*self),
            lacks(r@, ','),
    {
        proof {
            lemma_words();
        }
        match self {
            TradeDirection::Long => "Long".to_owned(),
            TradeDirection::Short => "Short".to_owned(),
        }
    }
}

/// Trade status.
#[derive(Clone, Copy, Debug, PartialEq, Eq, Structural)]
pub enum TradeStatus {
    Open,
    Closed,
}

/// The status that a lower-case word stands for.
pub open spec fn status_word(s: Seq<char>) -> Option<TradeStatus> {
    if s == "open"@ {
        Some(TradeStatus::Open)
    } else if s == "closed"@ {
        Some(TradeStatus::Closed)
    } else {
        None
    }
}

impl TradeStatus {
    /// The word that the log holds.
    pub open spec fn word(self) -> Seq<char> {
        match self {
            TradeStatus::Open => "Open"@,
            TradeStatus::Closed => "Closed"@,
        }
    }

    /// Parses a status, whatever the case of its letters.
    pub fn from_str(s: &str) -> (r: Option<TradeStatus>)
        ensures
            r == status_word(lowercase(s@)),
    {
        let low = to_lowercase(s);
        proof {
            reveal_strlit("open");
            reveal_strlit("closed");
        }
        if same_text(low.as_str(), "open") {
            Some(TradeStatus::Open)
        } else if same_text(low.as_str(), "closed") {
            Some(TradeStatus::Closed)
        } else {
            None
        }
    }

    /// The name of the status.
    pub fn to_string(&self) -> (r: String)
        ensures
            r@ == self.word(),
            status_word(lowercase(r@)) == Some(*self),
            lacks(r@, ','),
    {
        proof {
            lemma_words();
        }
        match self {
            TradeStatus::Open => "Open".to_owned(),
            TradeStatus::Closed => "Closed".to_owned(),
        }
    }
}

/// Phase of the trade for in-trade management.
#[derive(Clone, Copy, Debug, PartialEq, Eq, Structural)]
pub enum TradePhase {
    /// Initial phase after entry.
    Phase1,
    /// After 1.5R: the stop is at breakeven and a third is closed.
    Phase2,
    /// After 2.5R: the stop trails the price.
    Phase3,
}

/// The phase that a lower-case word stands for.
pub open spec fn phase_word(s: Seq<char>) -> Option<TradePhase> {
    if s == "phase1"@ {
        Some(TradePhase::Phase1)
    } else if s == "phase2"@ {
        Some(TradePhase::Phase2)
    } else if s == "phase3"@ {
        Some(TradePhase::Phase3)
    } else {
        None
    }
}

impl TradePhase {
    /// The word that the log holds.
    pub open spec fn word(self) -> Seq<char> {
        match self {
            TradePhase::Phase1 => "Phase1"@,
            TradePhase::Phase2 => "Phase2"@,
            TradePhase::Phase3 => "Phase3"@,
        }
    }

    /// The place of the phase in the course of a trade.
    pub open spec fn rank(self) -> int {
        match self {
            TradePhase::Phase1 => 1,
            TradePhase::Phase2 => 2,
            TradePhase::Phase3 => 3,
        }
    }

    /// Parses a phase, whatever the case of its letters.
    pub fn from_str(s: &str) -> (r: Option<TradePhase>)
        ensures
            r == phase_word(lowercase(s@)),
    {
        let low = to_lowercase(s);
        proof {
            reveal_strlit("phase1");
            reveal_strlit("phase2");
            reveal_strlit("phase3");
        }
        if same_text(low.as_str(), "phase1") {
            Some(TradePhase::Phase1)
        } else if same_text(low.as_str(), "phase2") {
            Some(TradePhase::Phase2)
        } else if same_text(low.as_str(), "phase3") {
            Some(TradePhase::Phase3)
        } else {
            None
        }
    }

    /// The name of the phase.
    pub fn to_string(&self) -> (r: String)
        ensures
            r@ == self.word(),
            phase_word(lowercase(r@)) == Some(*self),
            lacks(r@, ','),
    {
        proof {
            lemma_words();
        }
        match self {
            TradePhase::Phase1 => "Phase1".to_owned(),
            TradePhase::Phase2 => "Phase2".to_owned(),
            TradePhase::Phase3 => "Phase3".to_owned(),
        }
    }
}

/// Every name that the log holds for a direction, a status or a phase stands for it when it is
/// read again, and holds no comma and no line end.
pub proof fn lemma_words()
    ensures
        forall|d: TradeDirection|
            #![trigger d.word()]
            direction_word(lowercase(d.word())) == Some(d) && lacks(d.word(), ',') && unbroken(d.word()),
        forall|d: TradeStatus|
            #![trigger d.word()]
            status_word(lowercase(d.word())) == Some(d) && lacks(d.word(), ',') && unbroken(d.word()),
        forall|d: TradePhase|
            #![trigger d.word()]
            phase_word(lowercase(d.word())) == Some(d) && lacks(d.word(), ',') && unbroken(d.word()),
{
    reveal_strlit("Long");
    reveal_strlit("long");
    reveal_strlit("Short");
    reveal_strlit("short");
    reveal_strlit("Open");
    reveal_strlit("open");
    reveal_strlit("Closed");
    reveal_strlit("closed");
    reveal_strlit("Phase1");
    reveal_strlit("phase1");
    reveal_strlit("Phase2");
    reveal_strlit("phase2");
    reveal_strlit("Phase3");
    reveal_strlit("phase3");
    assert(lowercase("Long"@) =~= "long"@);
    assert(lowercase("Short"@) =~= "short"@);
    assert(lowercase("Open"@) =~= "open"@);
    assert(lowercase("Closed"@) =~= "closed"@);
    assert(lowercase("Phase1"@) =~= "phase1"@);
    assert(lowercase("Phase2"@) =~= "phase2"@);
    assert(lowercase("Phase3"@) =~= "phase3"@);
    assert("long"@.len() != "short"@.len());
    assert("open"@.len() != "closed"@.len());
    assert("phase1"@[5] != "phase2"@[5]);
    assert("phase1"@[5] != "phase3"@[5]);
    assert("phase2"@[5] != "phase3"@[5]);
}

/// The model of a trade record.
pub struct Record {
    pub id: Seq<char>,
    pub symbol: Seq<char>,
    pub direction: TradeDirection,
    pub entry_time: Moment,
    pub entry_price: Dec,
    pub stop_loss: Dec,
    pub take_profit: Dec,
    pub position_size: Dec,
    pub status: TradeStatus,
    pub exit_time: Option<Moment>,
    pub exit_price: Option<Dec>,
    pub realized_pnl: Dec,
    pub phase: TradePhase,
    pub atr_value: Dec,
    pub risk_per_unit: Dec,
    pub entry_rsi: Dec,
    pub entry_adx: Dec,
    pub trend_condition: Seq<char>,
}

impl Record {
    /// Profit of one unit at a price.
    pub open spec fn pnl_per_unit(self, price: Dec) -> Option<Dec> {
        match self.direction {
            TradeDirection::Long => difference(price, self.entry_price),
            TradeDirection::Short => difference(self.entry_price, price),
        }
    }

    /// Profit in multiples of the initial risk; zero where there was no risk.
    pub open spec fn r_multiple(self, price: Dec) -> Option<Dec> {
        if self.risk_per_unit.m == 0 {
            Some(zero())
        } else {
            rounded_of(
                quotient_of(self.pnl_per_unit(price), Some(self.risk_per_unit)),
                DECIMAL_PLACES as nat,
            )
        }
    }

    /// Profit of the whole position at a price.
    pub open spec fn pnl(self, price: Dec) -> Option<Dec> {
        rounded_of(
            product_of(self.pnl_per_unit(price), Some(self.position_size)),
            DECIMAL_PLACES as nat,
        )
    }

    /// The stop that trails a price by a multiple of the average true range.
    pub open spec fn trailing_stop(self, price: Dec, multiplier: Dec) -> Option<Dec> {
        let offset = rounded_of(product(self.atr_value, multiplier), DECIMAL_PLACES as nat);
        match self.direction {
            TradeDirection::Long => rounded_of(
                difference_of(Some(price), offset),
                DECIMAL_PLACES as nat,
            ),
            TradeDirection::Short => rounded_of(sum_of(Some(price), offset), DECIMAL_PLACES as nat),
        }
    }

    /// The record after the trade was closed, or nothing where its profit cannot be held.
    pub open spec fn closed(self, exit_price: Dec, now: Moment) -> Option<Record> {
        let price = exit_price.rounded(DECIMAL_PLACES as nat);
        match self.pnl(price) {
            Some(pnl) => Some(
                Record {
                    exit_time: Some(now),
                    exit_price: Some(price),
                    status: TradeStatus::Closed,
                    realized_pnl: pnl,
                    ..self
                },
            ),
            None => None,
        }
    }

    /// The record after a part of the position was closed, or nothing where a figure cannot be
    /// held.
    pub open spec fn reduced(self, amount: Dec, realized: Dec) -> Option<Record> {
        match (
            difference(self.position_size, amount),
            sum(self.realized_pnl, realized.rounded(DECIMAL_PLACES as nat)),
        ) {
            (Some(size), Some(pnl)) => Some(
                Record {
                    position_size: size.rounded(DECIMAL_PLACES as nat),
                    realized_pnl: pnl,
                    ..self
                },
            ),
            _ => None,
        }
    }

    /// The record as the log keeps it: the commas of the trend condition become spaces.
    pub open spec fn logged(self) -> Record {
        Record { trend_condition: replaced(self.trend_condition, ',', ' '), ..self }
    }

    /// The columns of the record's line in the log.
    pub open spec fn columns(self) -> Seq<Seq<char>> {
        seq![
            self.id,
            self.symbol,
            self.direction.word(),
            rfc3339_text(self.entry_time.secs, self.entry_time.nanos),
            self.entry_price.text(),
            self.stop_loss.text(),
            self.take_profit.text(),
            self.position_size.text(),
            self.status.word(),
            opt_time_text(self.exit_time),
            opt_dec_text(self.exit_price),
            self.realized_pnl.text(),
            self.phase.word(),
            self.atr_value.text(),
            self.risk_per_unit.text(),
            self.entry_rsi.text(),
            self.entry_adx.text(),
            replaced(self.trend_condition, ',', ' '),
        ]
    }

    /// The trade is open, in its first phase, and has made nothing yet.
    pub open spec fn is_new(self) -> bool {
        &&& self.status == TradeStatus::Open && self.phase == TradePhase::Phase1
        &&& self.realized_pnl.m == 0
        &&& self.exit_time is None && self.exit_price is None
    }

    /// The texts of the record hold no line end.
    pub open spec fn unbroken_texts(self) -> bool {
        unbroken(self.id) && unbroken(self.symbol) && unbroken(self.trend_condition)
    }

    /// What may stand in a line without breaking its columns: an identifier and a symbol without
    /// commas, and moments whose year has four digits.
    pub open spec fn fits_log(self) -> bool {
        &&& lacks(self.id, ',')
        &&& lacks(self.symbol, ',')
        &&& self.entry_time.plain()
        &&& self.exit_time is Some ==> self.exit_time->0.plain()
    }
}

/// The text of a moment, empty where there is none.
pub open spec fn opt_time_text(t: Option<Moment>) -> Seq<char> {
    match t {
        Some(x) => rfc3339_text(x.secs, x.nanos),
        None => Seq::empty(),
    }
}

/// The text of a number, empty where there is none.
pub open spec fn opt_dec_text(d: Option<Dec>) -> Seq<char> {
    match d {
        Some(x) => x.text(),
        None => Seq::empty(),
    }
}

/// Reads an optional column: an empty one stands for nothing.
pub open spec fn column_or_none<T>(c: Seq<char>, v: Option<T>) -> Option<Option<T>> {
    if c.len() == 0 {
        Some(None)
    } else if v is Some {
        Some(v)
    } else {
        None
    }
}

/// The record that the columns of a line stand for, or nothing where one is missing or cannot be
/// read.
pub open spec fn record_of(c: Seq<Seq<char>>) -> Option<Record> {
    if c.len() < 18 {
        None
    } else {
        match (
            direction_word(lowercase(c[2])),
            rfc3339_moment(c[3]),
            parsed(c[4]),
            parsed(c[5]),
            parsed(c[6]),
            parsed(c[7]),
            status_word(lowercase(c[8])),
            column_or_none(c[9], rfc3339_moment(c[9])),
            column_or_none(c[10], parsed(c[10])),
            parsed(c[11]),
            phase_word(lowercase(c[12])),
            parsed(c[13]),
            parsed(c[14]),
            parsed(c[15]),
            parsed(c[16]),
        ) {
            (
                Some(direction),
                Some(entry_time),
                Some(entry_price),
                Some(stop_loss),
                Some(take_profit),
                Some(position_size),
                Some(status),
                Some(exit_time),
                Some(exit_price),
                Some(realized_pnl),
                Some(phase),
                Some(atr_value),
                Some(risk_per_unit),
                Some(entry_rsi),
                Some(entry_adx),
            ) => Some(
                Record {
                    id: c[0],
                    symbol: c[1],
                    direction,
                    entry_time,
                    entry_price,
                    stop_loss,
                    take_profit,
                    position_size,
                    status,
                    exit_time,
                    exit_price,
                    realized_pnl,
                    phase,
                    atr_value,
                    risk_per_unit,
                    entry_rsi,
                    entry_adx,
                    trend_condition: c[17],
                },
            ),
            _ => None,
        }
    }
}

/// The record that a line of the log stands for.
pub open spec fn record_of_line(line: Seq<char>) -> Option<Record> {
    record_of(split_on(line, ','))
}

/// A complete trade record for logging and tracking.
#[derive(Clone, Debug)]
pub struct TradeRecord {
    /// Unique trade identifier.
    pub id: String,
    /// Trading symbol (e.g., "BTCUSDT").
    pub symbol: String,
    /// Trade direction.
    pub direction: TradeDirection,
    /// Entry timestamp.
    pub entry_time: Timestamp,
    /// Entry price.
    pub entry_price: Decimal,
    /// Stop loss price.
    pub stop_loss: Decimal,
    /// Take profit price.
    pub take_profit: Decimal,
    /// Position size in base currency.
    pub position_size: Decimal,
    /// Current trade status.
    pub status: TradeStatus,
    /// Exit timestamp (when closed).
    pub exit_time: Option<Timestamp>,
    /// Exit price (when closed).
    pub exit_price: Option<Decimal>,
    /// Realized profit/loss.
    pub realized_pnl: Decimal,
    /// Current trade phase.
    pub phase: TradePhase,
    /// ATR value for trailing stop calculation.
    pub atr_value: Decimal,
    /// Risk per unit (|entry - stop loss|).
    pub risk_per_unit: Decimal,
    /// RSI value at entry.
    pub entry_rsi: Decimal,
    /// ADX value at entry.
    pub entry_adx: Decimal,
    /// Trend condition at entry.
    pub trend_condition: String,
}

impl View for TradeRecord {
    type V = Record;

    open spec fn view(&self) -> Record {
        Record {
            id: self.id@,
            symbol: self.symbol@,
            direction: self.direction,
            entry_time: self.entry_time@,
            entry_price: self.entry_price@,
            stop_loss: self.stop_loss@,
            take_profit: self.take_profit@,
            position_size: self.position_size@,
            status: self.status,
            exit_time: opt_moment(self.exit_time),
            exit_price: opt_view(self.exit_price),
            realized_pnl: self.realized_pnl@,
            phase: self.phase,
            atr_value: self.atr_value@,
            risk_per_unit: self.risk_per_unit@,
            entry_rsi: self.entry_rsi@,
            entry_adx: self.entry_adx@,
            trend_condition: self.trend_condition@,
        }
    }
}

/// The risk of one unit: the distance from the entry to the stop, both rounded.
pub open spec fn entry_risk(entry: Dec, stop: Dec) -> Option<Dec> {
    let dp = DECIMAL_PLACES as nat;
    rounded_of(magnitude_of(difference(entry.rounded(dp), stop.rounded(dp))), dp)
}

/// The record of a trade that has just been entered at `now`.
pub open spec fn fresh_record(
    id: Seq<char>,
    symbol: Seq<char>,
    direction: TradeDirection,
    entry_price: Dec,
    stop_loss: Dec,
    take_profit: Dec,
    position_size: Dec,
    atr_value: Dec,
    entry_rsi: Dec,
    entry_adx: Dec,
    trend_condition: Seq<char>,
    risk_per_unit: Dec,
    now: Moment,
) -> Record {
    let dp = DECIMAL_PLACES as nat;
    Record {
        id,
        symbol,
        direction,
        entry_time: now,
        entry_price: entry_price.rounded(dp),
        stop_loss: stop_loss.rounded(dp),
        take_profit: take_profit.rounded(dp),
        position_size: position_size.rounded(dp),
        status: TradeStatus::Open,
        exit_time: None,
        exit_price: None,
        realized_pnl: zero(),
        phase: TradePhase::Phase1,
        atr_value: atr_value.rounded(dp),
        risk_per_unit,
        entry_rsi: entry_rsi.rounded(dp),
        entry_adx: entry_adx.rounded(dp),
        trend_condition,
    }
}

/// The distance from the entry to the stop, both rounded, if it can be held.
fn risk_between(entry: Decimal, stop: Decimal) -> (r: Option<Decimal>)
    ensures
        opt_view(r) == entry_risk(entry@, stop@),
{
    round_opt(
        abs_opt(
            entry.round_dp(DECIMAL_PLACES).checked_sub(&stop.round_dp(DECIMAL_PLACES)),
        ),
        DECIMAL_PLACES,
    )
}

/// The text of a moment, empty where there is none.
fn time_column(t: &Option<Timestamp>) -> (r: String)
    ensures
        r@ == opt_time_text(opt_moment(*t)),
        lacks(r@, ','),
        unbroken(r@),
        t is Some ==> r@.len() >= 1,
        t is Some && t->0@.plain() ==> rfc3339_moment(r@) == Some(t->0@),
{
    match t {
        Some(x) => x.to_rfc3339(),
        None => String::new(),
    }
}

/// The text of a number, empty where there is none.
fn price_column(d: &Option<Decimal>) -> (r: String)
    ensures
        r@ == opt_dec_text(opt_view(*d)),
        lacks(r@, ','),
        unbroken(r@),
        d is Some ==> r@.len() >= 1 && parsed(r@) == Some(d->0@),
{
    match d {
        Some(x) => {
            proof {
                lemma_text_chars(x@);
            }
            x.to_string()
        },
        None => String::new(),
    }
}

/// The text of a number.
fn number_column(d: &Decimal) -> (r: String)
    ensures
        r@ == d@.text(),
        lacks(r@, ','),
        unbroken(r@),
        parsed(r@) == Some(d@),
{
    proof {
        lemma_text_chars(d@);
    }
    d.to_string()
}

impl TradeRecord {
    /// Creates the record of a trade that is entered at `now`.
    pub fn new_at(
        id: &str,
        symbol: &str,
        direction: TradeDirection,
        entry_price: Decimal,
        stop_loss: Decimal,
        take_profit: Decimal,
        position_size: Decimal,
        atr_value: Decimal,
        entry_rsi: Decimal,
        entry_adx: Decimal,
        trend_condition: String,
        now: Timestamp,
    ) -> (r: Option<TradeRecord>)
        ensures
            match entry_risk(entry_price@, stop_loss@) {
                Some(risk) => r is Some && r->0@ == fresh_record(
                    id@,
                    symbol@,
                    direction,
                    entry_price@,
                    stop_loss@,
                    take_profit@,
                    position_size@,
                    atr_value@,
                    entry_rsi@,
                    entry_adx@,
                    trend_condition@,
                    risk,
                    now@,
                ),
                None => r is None,
            },
    {
        match risk_between(entry_price, stop_loss) {
            Some(risk) => Some(
                TradeRecord {
                    id: id.to_owned(),
                    symbol: symbol.to_owned(),
                    direction,
                    entry_time: now,
                    entry_price: entry_price.round_dp(DECIMAL_PLACES),
                    stop_loss: stop_loss.round_dp(DECIMAL_PLACES),
                    take_profit: take_profit.round_dp(DECIMAL_PLACES),
                    position_size: position_size.round_dp(DECIMAL_PLACES),
                    status: TradeStatus::Open,
                    exit_time: None,
                    exit_price: None,
                    realized_pnl: Decimal::zero(),
                    phase: TradePhase::Phase1,
                    atr_value: atr_value.round_dp(DECIMAL_PLACES),
                    risk_per_unit: risk,
                    entry_rsi: entry_rsi.round_dp(DECIMAL_PLACES),
                    entry_adx: entry_adx.round_dp(DECIMAL_PLACES),
                    trend_condition,
                },
            ),
            None => None,
        }
    }

    /// Creates a new open trade record, entered at the present moment.
    pub fn new(
        id: &str,
        symbol: &str,
        direction: TradeDirection,
        entry_price: Decimal,
        stop_loss: Decimal,
        take_profit: Decimal,
        position_size: Decimal,
        atr_value: Decimal,
        entry_rsi: Decimal,
        entry_adx: Decimal,
        trend_condition: String,
    ) -> (r: TradeRecord)
        requires
            entry_risk(entry_price@, stop_loss@) is Some,
        ensures
            r@ == fresh_record(
                id@,
                symbol@,
                direction,
                entry_price@,
                stop_loss@,
                take_profit@,
                position_size@,
                atr_value@,
                entry_rsi@,
                entry_adx@,
                trend_condition@,
                entry_risk(entry_price@, stop_loss@)->0,
                r@.entry_time,
            ),
            r@.entry_time.valid(),
    {
        let now = Timestamp::now();
        let made = TradeRecord::new_at(
            id,
            symbol,
            direction,
            entry_price,
            stop_loss,
            take_profit,
            position_size,
            atr_value,
            entry_rsi,
            entry_adx,
            trend_condition,
            now,
        );
        made.unwrap()
    }

    /// [`TradeRecord::new`], or nothing where the risk per unit cannot be held.
    pub fn checked_new(
        id: &str,
        symbol: &str,
        direction: TradeDirection,
        entry_price: Decimal,
        stop_loss: Decimal,
        take_profit: Decimal,
        position_size: Decimal,
        atr_value: Decimal,
        entry_rsi: Decimal,
        entry_adx: Decimal,
        trend_condition: String,
    ) -> (r: Option<TradeRecord>)
        ensures
            r is Some == entry_risk(entry_price@, stop_loss@) is Some,
            r is Some ==> r->0@ == fresh_record(
                id@,
                symbol@,
                direction,
                entry_price@,
                stop_loss@,
                take_profit@,
                position_size@,
                atr_value@,
                entry_rsi@,
                entry_adx@,
                trend_condition@,
                entry_risk(entry_price@, stop_loss@)->0,
                r->0@.entry_time,
            ) && r->0@.entry_time.valid(),
    {
        if risk_between(entry_price, stop_loss).is_none() {
            return None;
        }
        Some(
            TradeRecord::new(
                id,
                symbol,
                direction,
                entry_price,
                stop_loss,
                take_profit,
                position_size,
                atr_value,
                entry_rsi,
                entry_adx,
                trend_condition,
            ),
        )
    }

    fn pnl_per_unit(&self, price: Decimal) -> (r: Option<Decimal>)
        ensures
            opt_view(r) == self@.pnl_per_unit(price@),
    {
        match self.direction {
            TradeDirection::Long => price.checked_sub(&self.entry_price),
            TradeDirection::Short => self.entry_price.checked_sub(&price),
        }
    }

    /// [`TradeRecord::current_r_multiple`], or nothing where it cannot be held.
    pub fn checked_r_multiple(&self, current_price: Decimal) -> (r: Option<Decimal>)
        ensures
            opt_view(r) == self@.r_multiple(current_price@),
    {
        if self.risk_per_unit.is_zero() {
            return Some(Decimal::zero());
        }
        if self.r_multiple_of(current_price).is_some() {
            Some(self.current_r_multiple(current_price))
        } else {
            None
        }
    }

    fn r_multiple_of(&self, price: Decimal) -> (r: Option<Decimal>)
        ensures
            self@.risk_per_unit.m != 0 ==> opt_view(r) == self@.r_multiple(price@),
    {
        round_opt(
            div_opt(self.pnl_per_unit(price), Some(self.risk_per_unit)),
            DECIMAL_PLACES,
        )
    }

    /// Calculates current profit in R-multiples.
    pub fn current_r_multiple(&self, current_price: Decimal) -> (r: Decimal)
        requires
            self@.r_multiple(current_price@) is Some,
        ensures
            Some(r@) == self@.r_multiple(current_price@),
    {
        if self.risk_per_unit.is_zero() {
            return Decimal::zero();
        }
        self.r_multiple_of(current_price).unwrap()
    }

    fn pnl_of(&self, price: Decimal) -> (r: Option<Decimal>)
        ensures
            opt_view(r) == self@.pnl(price@),
    {
        round_opt(
            mul_opt(self.pnl_per_unit(price), Some(self.position_size)),
            DECIMAL_PLACES,
        )
    }

    /// Calculates unrealized P&L at current price.
    pub fn unrealized_pnl(&self, current_price: Decimal) -> (r: Decimal)
        requires
            self@.pnl(current_price@) is Some,
        ensures
            Some(r@) == self@.pnl(current_price@),
    {
        self.pnl_of(current_price).unwrap()
    }

    /// [`TradeRecord::unrealized_pnl`], or nothing where it cannot be held.
    pub fn checked_unrealized_pnl(&self, current_price: Decimal) -> (r: Option<Decimal>)
        ensures
            opt_view(r) == self@.pnl(current_price@),
    {
        if self.pnl_of(current_price).is_some() {
            Some(self.unrealized_pnl(current_price))
        } else {
            None
        }
    }

    /// Closes the trade with the given exit price at `now`. Where the profit cannot be held,
    /// nothing is changed and the result is `false`.
    pub fn close_at(&mut self, exit_price: Decimal, now: Timestamp) -> (r: bool)
        ensures
            match old(self)@.closed(exit_price@, now@) {
                Some(next) => r && final(self)@ == next,
                None => !r && *final(self) == *old(self),
            },
    {
        let exit_price = exit_price.round_dp(DECIMAL_PLACES);
        match self.pnl_of(exit_price) {
            Some(pnl) => {
                self.exit_time = Some(now);
                self.exit_price = Some(exit_price);
                self.status = TradeStatus::Closed;
                self.realized_pnl = pnl;
                true
            },
            None => false,
        }
    }

    /// Closes the trade with the given exit price at the present moment.
    pub fn close(&mut self, exit_price: Decimal)
        requires
            old(self)@.pnl(exit_price@.rounded(DECIMAL_PLACES as nat)) is Some,
        ensures
            final(self)@.exit_time is Some,
            Some(final(self)@) == old(self)@.closed(exit_price@, final(self)@.exit_time->0),
    {
        let now = Timestamp::now();
        self.close_at(exit_price, now);
    }

    /// [`TradeRecord::close`], or `false` and no change where the profit cannot be held.
    pub fn checked_close(&mut self, exit_price: Decimal) -> (r: bool)
        ensures
            r == old(self)@.pnl(exit_price@.rounded(DECIMAL_PLACES as nat)) is Some,
            r ==> final(self)@.exit_time is Some && Some(final(self)@) == old(self)@.closed(
                exit_price@,
                final(self)@.exit_time->0,
            ),
            !r ==> *final(self) == *old(self),
    {
        if self.pnl_of(exit_price.round_dp(DECIMAL_PLACES)).is_none() {
            return false;
        }
        self.close(exit_price);
        true
    }

    /// Updates to Phase 2: moves the stop to a new price.
    pub fn transition_to_phase2(&mut self, new_stop_loss: Decimal)
        ensures
            final(self)@ == (Record {
                phase: TradePhase::Phase2,
                stop_loss: new_stop_loss@.rounded(DECIMAL_PLACES as nat),
                ..old(self)@
            }),
    {
        self.phase = TradePhase::Phase2;
        self.stop_loss = new_stop_loss.round_dp(DECIMAL_PLACES);
    }

    /// Updates to Phase 3: trailing stop activated.
    pub fn transition_to_phase3(&mut self)
        ensures
            final(self)@ == (Record { phase: TradePhase::Phase3, ..old(self)@ }),
    {
        self.phase = TradePhase::Phase3;
    }

    /// Reduces the position (for the partial close at 1.5R).
    pub fn reduce_position(&mut self, amount: Decimal, realized_pnl: Decimal)
        requires
            old(self)@.reduced(amount@, realized_pnl@) is Some,
        ensures
            Some(final(self)@) == old(self)@.reduced(amount@, realized_pnl@),
    {
        let size = self.position_size.checked_sub(&amount).unwrap();
        let pnl = self.realized_pnl.checked_add(&realized_pnl.round_dp(DECIMAL_PLACES)).unwrap();
        self.position_size = size.round_dp(DECIMAL_PLACES);
        self.realized_pnl = pnl;
    }

    /// [`TradeRecord::reduce_position`], or `false` and no change where a figure cannot be held.
    pub fn checked_reduce_position(&mut self, amount: Decimal, realized_pnl: Decimal) -> (r: bool)
        ensures
            r == old(self)@.reduced(amount@, realized_pnl@) is Some,
            r ==> Some(final(self)@) == old(self)@.reduced(amount@, realized_pnl@),
            !r ==> *final(self) == *old(self),
    {
        let size = self.position_size.checked_sub(&amount);
        let pnl = self.realized_pnl.checked_add(&realized_pnl.round_dp(DECIMAL_PLACES));
        if size.is_some() && pnl.is_some() {
            self.reduce_position(amount, realized_pnl);
            true
        } else {
            false
        }
    }

    /// Returns true if trade is still open.
    pub fn is_open(&self) -> (r: bool)
        ensures
            r == (self@.status == TradeStatus::Open),
    {
        self.status == TradeStatus::Open
    }

    fn trailing_stop_of(&self, price: Decimal, multiplier: Decimal) -> (r: Option<Decimal>)
        ensures
            opt_view(r) == self@.trailing_stop(price@, multiplier@),
    {
        let offset = round_opt(self.atr_value.checked_mul(&multiplier), DECIMAL_PLACES);
        match self.direction {
            TradeDirection::Long => round_opt(sub_opt(Some(price), offset), DECIMAL_PLACES),
            TradeDirection::Short => round_opt(add_opt(Some(price), offset), DECIMAL_PLACES),
        }
    }

    /// Calculates trailing stop price based on ATR.
    pub fn trailing_stop_price(&self, current_price: Decimal, atr_multiplier: Decimal) -> (r:
        Decimal)
        requires
            self@.trailing_stop(current_price@, atr_multiplier@) is Some,
        ensures
            Some(r@) == self@.trailing_stop(current_price@, atr_multiplier@),
    {
        self.trailing_stop_of(current_price, atr_multiplier).unwrap()
    }

    /// [`TradeRecord::trailing_stop_price`], or nothing where it cannot be held.
    pub fn checked_trailing_stop_price(&self, current_price: Decimal, atr_multiplier: Decimal) -> (r:
        Option<Decimal>)
        ensures
            opt_view(r) == self@.trailing_stop(current_price@, atr_multiplier@),
    {
        if self.trailing_stop_of(current_price, atr_multiplier).is_some() {
            Some(self.trailing_stop_price(current_price, atr_multiplier))
        } else {
            None
        }
    }

    /// The header row of the log.
    pub fn csv_header() -> (r: String)
        ensures
            r@
                == "id,symbol,direction,entry_time,entry_price,stop_loss,take_profit,position_size,status,exit_time,exit_price,realized_pnl,phase,atr_value,risk_per_unit,entry_rsi,entry_adx,trend_condition"@,
    {
        "id,symbol,direction,entry_time,entry_price,stop_loss,take_profit,position_size,status,exit_time,exit_price,realized_pnl,phase,atr_value,risk_per_unit,entry_rsi,entry_adx,trend_condition".to_owned()
    }

    /// The record's line in the log. A record that fits the log is read back from its line, with
    /// the commas of the trend condition turned into spaces.
    pub fn to_csv_row(&self) -> (r: String)
        ensures
            r@ == join(self@.columns(), ','),
            self@.fits_log() ==> record_of_line(r@) == Some(self@.logged()),
            self@.fits_log() ==> split_on(r@, ',') == self@.columns(),
            self@.unbroken_texts() ==> unbroken(r@),
    {
        let mut c: Vec<String> = Vec::new();
        c.push(self.id.clone());
        c.push(self.symbol.clone());
        c.push(self.direction.to_string());
        c.push(self.entry_time.to_rfc3339());
        c.push(number_column(&self.entry_price));
        c.push(number_column(&self.stop_loss));
        c.push(number_column(&self.take_profit));
        c.push(number_column(&self.position_size));
        c.push(self.status.to_string());
        c.push(time_column(&self.exit_time));
        c.push(price_column(&self.exit_price));
        c.push(number_column(&self.realized_pnl));
        c.push(self.phase.to_string());
        c.push(number_column(&self.atr_value));
        c.push(number_column(&self.risk_per_unit));
        c.push(number_column(&self.entry_rsi));
        c.push(number_column(&self.entry_adx));
        c.push(replace_char(self.trend_condition.as_str(), ',', ' '));
        assert(views(c@) =~= self@.columns());
        proof {
            if self@.fits_log() {
                let cols = self@.columns();
                assert(lacks(cols[17], ','));
                assert(lacks(cols[3], ','));
                assert forall|i: int| 0 <= i < cols.len() implies lacks(#[trigger] cols[i], ',') by {
                    assert(cols[i] == c@[i]@);
                }
                lemma_split_join(cols, ',');
            }
            if self@.unbroken_texts() {
                let cols = self@.columns();
                lemma_words();
                assert forall|i: int| 0 <= i < cols.len() implies unbroken(#[trigger] cols[i]) by {
                    assert(cols[i] == c@[i]@);
                }
                lemma_join_lacks(cols, ',', '\n');
                lemma_join_lacks(cols, ',', '\r');
            }
        }
        join_texts(&c, ',')
    }
}

/// The number has no more places than the log keeps.
pub open spec fn short(d: Dec) -> bool {
    d.valid() && d.s <= 8
}

/// The gain of one unit from the entry to a price, by value: how far the price is above the entry of
/// a long trade, or below that of a short one.
pub open spec fn gain(r: Record, price: Dec) -> int {
    if r.direction == TradeDirection::Long {
        price.units() - r.entry_price.units()
    } else {
        r.entry_price.units() - price.units()
    }
}

/// The entry and a price can be subtracted without loss.
pub open spec fn comparable(r: Record, price: Dec) -> bool {
    &&& r.entry_price.valid() && price.valid()
    &&& aligned_sum(price, r.entry_price.negated()).valid()
    &&& aligned_sum(r.entry_price, price.negated()).valid()
}

/// The profit of one unit is what the price has gained on the entry; of a short trade, what it has
/// lost.
pub proof fn law_unit_profit_by_value(r: Record, price: Dec)
    requires
        comparable(r, price),
    ensures
        r.pnl_per_unit(price) is Some,
        r.pnl_per_unit(price)->0.valid(),
        r.pnl_per_unit(price)->0.units() == gain(r, price),
{
    law_difference_is_exact(price, r.entry_price);
    law_difference_is_exact(r.entry_price, price);
}

/// The profit of a position is the gain times the size, rounded, and kept to eight places.
pub proof fn law_profit_by_value(r: Record, price: Dec)
    requires
        comparable(r, price),
        r.position_size.valid(),
        r.pnl(price) is Some,
    ensures
        exists|x: int|
            {
                &&& #[trigger] rounds_to(gain(r, price) * r.position_size.units(), pow10(28), x)
                &&& 2 * (r.pnl(price)->0.units() - x) <= pow10(20)
                &&& 2 * (x - r.pnl(price)->0.units()) <= pow10(20)
            },
        r.pnl(price)->0.units() % pow10(20) == 0,
{
    law_unit_profit_by_value(r, price);
    let a = r.pnl_per_unit(price)->0;
    law_product_is_rounded(a, r.position_size);
    let x = product(a, r.position_size)->0;
    law_rounding_is_nearest(x, 8);
    assert(rounds_to(gain(r, price) * r.position_size.units(), pow10(28), x.units()));
}

/// The multiple of the risk by value: the gain divided by the risk of one unit, to eight places. A
/// gain of a number of risks gives at least that number, and a multiple of a number comes of no less
/// than that many risks, but for the last place.
pub proof fn law_multiple_by_value(r: Record, price: Dec, k: int)
    requires
        comparable(r, price),
        r.risk_per_unit.valid(),
        r.risk_per_unit.units() > 0,
        r.r_multiple(price) is Some,
        pow10(20) <= k <= 10 * pow10(28),
        k % pow10(20) == 0,
    ensures
        gain(r, price) * pow10(28) >= r.risk_per_unit.units() * k ==> r.r_multiple(price)->0.units()
            >= k,
        r.r_multiple(price)->0.units() >= k ==> gain(r, price) * pow10(28) >= r.risk_per_unit.units()
            * (k - pow10(20)),
{
    law_unit_profit_by_value(r, price);
    lemma_units_sign(r.risk_per_unit);
    let a = r.pnl_per_unit(price)->0;
    let b = r.risk_per_unit;
    law_quotient_is_rounded(a, b);
    let q = quotient(a, b)->0;
    law_rounding_is_nearest(q, 8);
    let m = r.r_multiple(price)->0.units();
    let p = pow10(20);
    let d = b.units();
    let n = gain(r, price) * pow10(28);
    lemma_pow10_positive(28);
    assert(pow10(29) == 10 * pow10(28));
    assert(p >= 1000) by {
        lemma_pow10_add(3, 17);
        lemma_pow10_positive(17);
        reveal_with_fuel(pow10, 4);
    }
    law_quotient_reaches(a, b, k - 102);
    assert(k - 102 + 102 == k);
    assert(m == q.rounded(8).units());
    if n >= d * k {
        assert(q.units() >= k - 102);
        let i = m / p;
        let j = k / p;
        assert(m == i * p && k == j * p) by (nonlinear_arith)
            requires
                m % p == 0,
                k % p == 0,
                i == m / p,
                j == k / p,
                p >= 1,
        ;
        assert(2 * m >= 2 * k - 204 - p);
        assert(i >= j) by (nonlinear_arith)
            requires
                m == i * p,
                k == j * p,
                2 * m >= 2 * k - 204 - p,
                p >= 1000,
        ;
        assert(m >= k) by (nonlinear_arith)
            requires
                m == i * p,
                k == j * p,
                i >= j,
                p >= 1,
        ;
    }
    if m >= k {
        let g = k - p + 102;
        assert(2 * q.units() >= 2 * k - p);
        assert(q.units() >= g);
        law_quotient_reaches(a, b, g);
        assert(d * (g - 102) == d * (k - p));
    }
}

/// The stop that trails a price by twice the average true range lies exactly so far below it for a
/// long trade, and above it for a short one, wherever the figures have no more places than the log
/// and fit.
pub proof fn law_trailing_stop_by_value(r: Record, price: Dec)
    requires
        short(r.atr_value),
        short(price),
        (Dec { m: r.atr_value.m * 20, s: r.atr_value.s + 1 }).valid(),
        ({
            let offset = product(r.atr_value, Dec { m: 20, s: 1 })->0.rounded(8);
            aligned_sum(price, offset).valid() && aligned_sum(price, offset.negated()).valid()
                && offset.valid()
        }),
    ensures
        r.trailing_stop(price, Dec { m: 20, s: 1 }) is Some,
        r.trailing_stop(price, Dec { m: 20, s: 1 })->0.units() == if r.direction
            == TradeDirection::Long {
            price.units() - 2 * r.atr_value.units()
        } else {
            price.units() + 2 * r.atr_value.units()
        },
{
    let f = Dec { m: 20, s: 1 };
    let a = r.atr_value;
    let t = pow10(27);
    lemma_pow10_positive(27);
    assert(pow10(28) == 10 * t);
    assert(f.units() == 20 * t);
    law_product_is_exact(a, f);
    law_product_is_rounded(a, f);
    let x = product(a, f)->0;
    assert(x.units() == 2 * a.units()) by (nonlinear_arith)
        requires
            x.units() * (10 * t) == a.units() * (20 * t),
            t >= 1,
    ;
    lemma_short_units(a);
    lemma_short_units(price);
    let p = pow10(20);
    lemma_pow10_positive(20);
    lemma_multiples(a.units(), a.units(), p);
    law_rounding_is_nearest(x, 8);
    let offset = x.rounded(8);
    assert(offset.units() == 2 * a.units());
    law_sum_is_exact(price, offset);
    law_difference_is_exact(price, offset);
    let up = sum(price, offset)->0;
    let down = difference(price, offset)->0;
    lemma_multiples(price.units(), offset.units(), p);
    law_rounding_is_nearest(up, 8);
    law_rounding_is_nearest(down, 8);
}

/// The value of a number of at most eight places is a whole number of hundred-millionths.
pub proof fn lemma_short_units(d: Dec)
    requires
        d.s <= 8,
    ensures
        d.units() % pow10(20) == 0,
{
    let p = pow10(20);
    let e = pow10((8 - d.s) as nat);
    lemma_pow10_positive(20);
    lemma_pow10_add((8 - d.s) as nat, 20);
    assert((8 - d.s) + 20 == 28 - d.s);
    let m = d.m;
    let k = m * e;
    assert(m * (e * p) == k * p) by (nonlinear_arith)
        requires
            k == m * e,
    ;
    assert(k * p % p == 0) by (nonlinear_arith)
        requires
            p >= 1,
    ;
}

proof fn lemma_multiples(a: int, b: int, p: int)
    requires
        p >= 1,
        a % p == 0,
        b % p == 0,
    ensures
        (a + b) % p == 0,
        (a - b) % p == 0,
{
    let i = a / p;
    let j = b / p;
    assert(a == i * p && b == j * p) by (nonlinear_arith)
        requires
            a % p == 0,
            b % p == 0,
            i == a / p,
            j == b / p,
            p >= 1,
    ;
    let x = i + j;
    let y = i - j;
    assert(a + b == x * p && a - b == y * p) by (nonlinear_arith)
        requires
            a == i * p,
            b == j * p,
            x == i + j,
            y == i - j,
    ;
    assert(x * p % p == 0 && y * p % p == 0) by (nonlinear_arith)
        requires
            p >= 1,
    ;
}

/// The risk of one unit is the distance from the entry to the stop, on whichever side the stop is,
/// wherever both have no more places than the log.
pub proof fn law_entry_risk_by_value(entry: Dec, stop: Dec)
    requires
        short(entry),
        short(stop),
        aligned_sum(entry, stop.negated()).valid(),
    ensures
        entry_risk(entry, stop) is Some,
        entry_risk(entry, stop)->0.units() == if entry.units() >= stop.units() {
            entry.units() - stop.units()
        } else {
            stop.units() - entry.units()
        },
{
    law_difference_is_exact(entry, stop);
    let d = difference(entry, stop)->0;
    let m = d.m;
    let w = pow10((28 - d.s) as nat);
    lemma_pow10_positive((28 - d.s) as nat);
    assert((-m) * w == -(m * w)) by (nonlinear_arith);
    lemma_units_sign(d);
}

/// A new record keeps what it was given, its figures to the nearest eighth place: the trade is open,
/// in its first phase, has made nothing yet, and was entered at the given moment.
pub proof fn law_fresh_record_by_value(
    id: Seq<char>,
    symbol: Seq<char>,
    direction: TradeDirection,
    entry: Dec,
    stop: Dec,
    target: Dec,
    size: Dec,
    atr: Dec,
    rsi: Dec,
    adx: Dec,
    trend: Seq<char>,
    risk: Dec,
    now: Moment,
)
    requires
        short(entry),
        short(stop),
        short(target),
        short(size),
        short(atr),
    ensures
        ({
            let r = fresh_record(
                id,
                symbol,
                direction,
                entry,
                stop,
                target,
                size,
                atr,
                rsi,
                adx,
                trend,
                risk,
                now,
            );
            &&& r.id == id && r.symbol == symbol && r.direction == direction
            &&& r.entry_price == entry && r.stop_loss == stop && r.take_profit == target
            &&& r.position_size == size && r.atr_value == atr && r.risk_per_unit == risk
            &&& rsi.s <= 8 ==> r.entry_rsi == rsi
            &&& adx.s <= 8 ==> r.entry_adx == adx
            &&& r.trend_condition == trend && r.entry_time == now
            &&& r.status == TradeStatus::Open && r.phase == TradePhase::Phase1
            &&& r.exit_time is None && r.exit_price is None && r.realized_pnl.m == 0
        }),
{
}

/// Closing part of a position takes the part off its size and adds the profit to what was made; all
/// else stays.
pub proof fn law_partial_close_by_value(r: Record, amount: Dec, realized: Dec)
    requires
        short(r.position_size),
        short(amount),
        short(realized),
        r.realized_pnl.valid(),
        aligned_sum(r.position_size, amount.negated()).valid(),
        aligned_sum(r.realized_pnl, realized).valid(),
    ensures
        r.reduced(amount, realized) is Some,
        ({
            let after = r.reduced(amount, realized)->0;
            &&& after.position_size.units() == r.position_size.units() - amount.units()
            &&& after.realized_pnl.units() == r.realized_pnl.units() + realized.units()
            &&& after == (Record {
                position_size: after.position_size,
                realized_pnl: after.realized_pnl,
                ..r
            })
        }),
{
    law_difference_is_exact(r.position_size, amount);
    law_sum_is_exact(r.realized_pnl, realized);
}

/// A trade that is closed has the moment and the price of its end and the profit at that price; what
/// it was entered with stays.
pub proof fn law_close_by_value(r: Record, exit: Dec, now: Moment)
    requires
        short(exit),
        r.closed(exit, now) is Some,
    ensures
        r.closed(exit, now)->0.status == TradeStatus::Closed,
        r.closed(exit, now)->0.exit_time == Some(now),
        r.closed(exit, now)->0.exit_price == Some(exit),
        Some(r.closed(exit, now)->0.realized_pnl) == r.pnl(exit),
        r.closed(exit, now)->0 == (Record {
            status: TradeStatus::Closed,
            exit_time: Some(now),
            exit_price: Some(exit),
            realized_pnl: r.closed(exit, now)->0.realized_pnl,
            ..r
        }),
{
}

/// What each column of a line is read as: the order of the columns is that of the header, and a
/// column that cannot be read spoils the line.
pub proof fn law_columns_are_read_in_order(c: Seq<Seq<char>>)
    ensures
        record_of(c) matches Some(r) ==> {
            &&& c.len() >= 18
            &&& r.id == c[0] && r.symbol == c[1]
            &&& direction_word(lowercase(c[2])) == Some(r.direction)
            &&& rfc3339_moment(c[3]) == Some(r.entry_time)
            &&& parsed(c[4]) == Some(r.entry_price)
            &&& parsed(c[5]) == Some(r.stop_loss)
            &&& parsed(c[6]) == Some(r.take_profit)
            &&& parsed(c[7]) == Some(r.position_size)
            &&& status_word(lowercase(c[8])) == Some(r.status)
            &&& r.exit_time is None == (c[9].len() == 0)
            &&& r.exit_time is Some ==> rfc3339_moment(c[9]) == r.exit_time
            &&& r.exit_price is None == (c[10].len() == 0)
            &&& r.exit_price is Some ==> parsed(c[10]) == r.exit_price
            &&& parsed(c[11]) == Some(r.realized_pnl)
            &&& phase_word(lowercase(c[12])) == Some(r.phase)
            &&& parsed(c[13]) == Some(r.atr_value)
            &&& parsed(c[14]) == Some(r.risk_per_unit)
            &&& parsed(c[15]) == Some(r.entry_rsi)
            &&& parsed(c[16]) == Some(r.entry_adx)
            &&& r.trend_condition == c[17]
        },
        c.len() < 18 ==> record_of(c) is None,
{
}

/// A trade that was entered without risk has made no multiple of it at any price.
pub proof fn law_no_risk_no_multiple(r: Record, price: Dec)
    requires
        r.risk_per_unit.m == 0,
    ensures
        r.r_multiple(price) is Some,
        r.r_multiple(price)->0.units() == 0,
{
    lemma_units_sign(zero());
}

} // verus!
