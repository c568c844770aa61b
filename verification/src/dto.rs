//! What the user interface is shown: plain texts and counts, and no credentials.
use crate::data::csv_logger::{record_views, CsvLogger};
use crate::data::trade_record::{Record, TradeRecord};
use crate::json::opt_text;
use crate::risk::manager::{DailyStats, RiskManager, Stats};
use crate::time::rfc3339_text;
use vstd::prelude::*;

verus! {

/// A trade record as texts.
#[derive(Clone, Debug)]
pub struct TradeRecordDto {
    pub id: String,
    pub symbol: String,
    pub direction: String,
    pub entry_time: String,
    pub entry_price: String,
    pub stop_loss: String,
    pub take_profit: String,
    pub position_size: String,
    pub status: String,
    pub exit_time: Option<String>,
    pub exit_price: Option<String>,
    pub realized_pnl: String,
    pub phase: String,
    pub risk_per_unit: String,
    pub atr_value: String,
    pub entry_rsi: String,
    pub entry_adx: String,
    pub trend_condition: String,
}

/// The model of a trade record as texts.
pub struct RecordTexts {
    pub id: Seq<char>,
    pub symbol: Seq<char>,
    pub direction: Seq<char>,
    pub entry_time: Seq<char>,
    pub entry_price: Seq<char>,
    pub stop_loss: Seq<char>,
    pub take_profit: Seq<char>,
    pub position_size: Seq<char>,
    pub status: Seq<char>,
    pub exit_time: Option<Seq<char>>,
    pub exit_price: Option<Seq<char>>,
    pub realized_pnl: Seq<char>,
    pub phase: Seq<char>,
    pub risk_per_unit: Seq<char>,
    pub atr_value: Seq<char>,
    pub entry_rsi: Seq<char>,
    pub entry_adx: Seq<char>,
    pub trend_condition: Seq<char>,
}

impl View for TradeRecordDto {
    type V = RecordTexts;

    open spec fn view(&self) -> RecordTexts {
        RecordTexts {
            id: self.id@,
            symbol: self.symbol@,
            direction: self.direction@,
            entry_time: self.entry_time@,
            entry_price: self.entry_price@,
            stop_loss: self.stop_loss@,
            take_profit: self.take_profit@,
            position_size: self.position_size@,
            status: self.status@,
            exit_time: opt_text(self.exit_time),
            exit_price: opt_text(self.exit_price),
            realized_pnl: self.realized_pnl@,
            phase: self.phase@,
            risk_per_unit: self.risk_per_unit@,
            atr_value: self.atr_value@,
            entry_rsi: self.entry_rsi@,
            entry_adx: self.entry_adx@,
            trend_condition: self.trend_condition@,
        }
    }
}

/// The texts of a record.
pub open spec fn texts_of(r: Record) -> RecordTexts {
    RecordTexts {
        id: r.id,
        symbol: r.symbol,
        direction: r.direction.word(),
        entry_time: rfc3339_text(r.entry_time.secs, r.entry_time.nanos),
        entry_price: r.entry_price.text(),
        stop_loss: r.stop_loss.text(),
        take_profit: r.take_profit.text(),
        position_size: r.position_size.text(),
        status: r.status.word(),
        exit_time: match r.exit_time {
            Some(t) => Some(rfc3339_text(t.secs, t.nanos)),
            None => None,
        },
        exit_price: match r.exit_price {
            Some(p) => Some(p.text()),
            None => None,
        },
        realized_pnl: r.realized_pnl.text(),
        phase: r.phase.word(),
        risk_per_unit: r.risk_per_unit.text(),
        atr_value: r.atr_value.text(),
        entry_rsi: r.entry_rsi.text(),
        entry_adx: r.entry_adx.text(),
        trend_condition: r.trend_condition,
    }
}

impl TradeRecordDto {
    /// The texts of a record.
    pub fn from_record(r: &TradeRecord) -> (d: TradeRecordDto)
        ensures
            d@ == texts_of(r@),
    {
        let exit_time = match r.exit_time {
            Some(t) => Some(t.to_rfc3339()),
            None => None,
        };
        let exit_price = match r.exit_price {
            Some(p) => Some(p.to_string()),
            None => None,
        };
        TradeRecordDto {
            id: r.id.clone(),
            symbol: r.symbol.clone(),
            direction: r.direction.to_string(),
            entry_time: r.entry_time.to_rfc3339(),
            entry_price: r.entry_price.to_string(),
            stop_loss: r.stop_loss.to_string(),
            take_profit: r.take_profit.to_string(),
            position_size: r.position_size.to_string(),
            status: r.status.to_string(),
            exit_time,
            exit_price,
            realized_pnl: r.realized_pnl.to_string(),
            phase: r.phase.to_string(),
            risk_per_unit: r.risk_per_unit.to_string(),
            atr_value: r.atr_value.to_string(),
            entry_rsi: r.entry_rsi.to_string(),
            entry_adx: r.entry_adx.to_string(),
            trend_condition: r.trend_condition.clone(),
        }
    }
}

/// The trade history that a log holds, as texts and in its order.
pub fn trade_history(log: &CsvLogger) -> (r: Vec<TradeRecordDto>)
    ensures
        r@.map_values(|d: TradeRecordDto| d@) == log.records().map_values(
            |m: Record| texts_of(m),
        ),
{
    let records = log.read_all_records();
    let ghost all = log.records().map_values(|m: Record| texts_of(m));
    let mut out: Vec<TradeRecordDto> = Vec::new();
    let mut i: usize = 0;
    while i < records.len()
        invariant
            i <= records.len(),
            record_views(records@) == log.records(),
            all == log.records().map_values(|m: Record| texts_of(m)),
            out@.map_values(|d: TradeRecordDto| d@) == all.take(i as int),
        decreases records.len() - i,
    {
        assert(log.records()[i as int] == records@[i as int]@);
        let ghost before = out@.map_values(|d: TradeRecordDto| d@);
        let d = TradeRecordDto::from_record(&records[i]);
        out.push(d);
        i = i + 1;
        assert(out@.map_values(|d: TradeRecordDto| d@) =~= before.push(d@));
        assert(before.push(d@) =~= all.take(i as int));
    }
    assert(all.take(i as int) =~= all);
    out
}

/// Daily statistics as texts and counts.
#[derive(Clone, Debug)]
pub struct DailyStatsDto {
    pub realized_pnl: String,
    pub trade_count: u32,
    pub wins: u32,
    pub losses: u32,
    pub win_rate: String,
}

/// `d` shows the statistics.
pub open spec fn shows_stats(d: DailyStatsDto, s: Stats) -> bool {
    &&& d.realized_pnl@ == s.realized_pnl.text()
    &&& d.trade_count as int == s.trade_count
    &&& d.wins as int == s.wins
    &&& d.losses as int == s.losses
    &&& s.win_share() is Some
    &&& d.win_rate@ == s.win_share()->0.text()
}

impl DailyStatsDto {
    /// The texts of daily statistics, or nothing where the win rate cannot be held.
    pub fn from_stats(s: &DailyStats) -> (r: Option<DailyStatsDto>)
        ensures
            r is Some == s@.win_share() is Some,
            r is Some ==> shows_stats(r->0, s@),
    {
        let win_rate = s.checked_win_rate()?;
        Some(
            DailyStatsDto {
                realized_pnl: s.realized_pnl.to_string(),
                trade_count: s.trade_count,
                wins: s.wins,
                losses: s.losses,
                win_rate: win_rate.to_string(),
            },
        )
    }
}

/// System health status.
#[derive(Clone, Debug)]
pub struct SystemStatus {
    /// Whether a trading session is active.
    pub session_active: bool,
    /// Whether the circuit breaker is active (all entries halted).
    pub circuit_breaker_active: bool,
    /// Daily loss as a fraction of starting equity.
    pub daily_loss_pct: String,
    /// Current account equity.
    pub current_equity: String,
    /// Daily statistics.
    pub daily_stats: DailyStatsDto,
}

impl SystemStatus {
    /// The status of an account, or nothing where a figure cannot be held.
    pub fn of_account(session_active: bool, risk: &RiskManager) -> (r: Option<SystemStatus>)
        ensures
            r is Some == (risk@.loss_share() is Some && risk@.stats.win_share() is Some),
            r is Some ==> {
                &&& r->0.session_active == session_active
                &&& r->0.circuit_breaker_active == risk@.halted
                &&& r->0.daily_loss_pct@ == risk@.loss_share()->0.text()
                &&& r->0.current_equity@ == risk@.current_equity.text()
                &&& shows_stats(r->0.daily_stats, risk@.stats)
            },
    {
        let loss = risk.checked_daily_loss()?;
        let daily_stats = DailyStatsDto::from_stats(risk.daily_stats())?;
        Some(
            SystemStatus {
                session_active,
                circuit_breaker_active: risk.is_trading_halted(),
                daily_loss_pct: loss.to_string(),
                current_equity: risk.current_equity().to_string(),
                daily_stats,
            },
        )
    }
}

/// What is shown of a record is what its line in the log says, column by column, but for the commas of
/// the trend condition; an empty column is shown as nothing.
pub proof fn law_shown_as_logged(r: Record)
    ensures
        ({
            let t = texts_of(r);
            let c = r.columns();
            &&& t.id == c[0] && t.symbol == c[1] && t.direction == c[2] && t.entry_time == c[3]
            &&& t.entry_price == c[4] && t.stop_loss == c[5] && t.take_profit == c[6]
            &&& t.position_size == c[7] && t.status == c[8]
            &&& t.exit_time is Some ==> t.exit_time->0 == c[9]
            &&& t.exit_time is None ==> c[9].len() == 0
            &&& t.exit_price is Some ==> t.exit_price->0 == c[10]
            &&& t.exit_price is None ==> c[10].len() == 0
            &&& t.realized_pnl == c[11] && t.phase == c[12] && t.atr_value == c[13]
            &&& t.risk_per_unit == c[14] && t.entry_rsi == c[15] && t.entry_adx == c[16]
            &&& t.trend_condition == r.trend_condition
        }),
{
}

} // verus!
