//! The trade log: a header line and one comma-separated line for each trade.
use crate::data::trade_manager::{lemma_trade_with_id, trade_with_id};
use crate::data::trade_record::{
    lemma_words, record_of, record_of_line, Record, TradeDirection, TradePhase, TradeRecord,
    TradeStatus,
};
use crate::decimal::{opt_view, parsed, Dec, Decimal};
use crate::text::{
    is_blank, join, join_texts, lacks, lemma_join_lacks, lemma_lines_round_trip, lemma_split_join,
    lemma_split_lacks, lemma_split_pieces, lines_of, plain_line, read_lines, same_text, split,
    split_on, text_of_lines, unbroken, views, write_lines,
};
use crate::time::{rfc3339_text, Moment, Timestamp};
use vstd::prelude::*;

verus! {

/// Errors that can occur during log operations.
#[derive(Debug)]
pub enum CsvError {
    /// Reading or writing the file failed.
    Io { message: String },
    /// No line of the log has the identifier.
    TradeNotFound { id: String },
    /// A line does not have the columns of a record.
    ParseError { message: String },
    /// The log is held by a thread that failed.
    LockError,
}

impl CsvError {
    /// The message of the error.
    pub open spec fn message(self) -> Seq<char> {
        match self {
            CsvError::Io { message } => "IO error: "@ + message@,
            CsvError::TradeNotFound { id } => "Trade not found: "@ + id@,
            CsvError::ParseError { message } => "Parse error: "@ + message@,
            CsvError::LockError => "Lock error: failed to acquire mutex"@,
        }
    }

    /// The message of the error.
    pub fn to_string(&self) -> (r: String)
        ensures
            r@ == self.message(),
    {
        match self {
            CsvError::Io { message } => "IO error: ".to_owned().concat(message.as_str()),
            CsvError::TradeNotFound { id } => "Trade not found: ".to_owned().concat(id.as_str()),
            CsvError::ParseError { message } => "Parse error: ".to_owned().concat(message.as_str()),
            CsvError::LockError => "Lock error: failed to acquire mutex".to_owned(),
        }
    }
}

/// What an update puts in place of the columns of a record; what is missing stays.
pub struct Update {
    pub exit_price: Option<Dec>,
    pub realized_pnl: Option<Dec>,
    pub status: Option<TradeStatus>,
    pub phase: Option<TradePhase>,
    pub stop_loss: Option<Dec>,
    pub position_size: Option<Dec>,
}

/// The model of an update that is given by its parts.
pub open spec fn update_of(
    exit_price: Option<Decimal>,
    realized_pnl: Option<Decimal>,
    status: Option<TradeStatus>,
    phase: Option<TradePhase>,
    stop_loss: Option<Decimal>,
    position_size: Option<Decimal>,
) -> Update {
    Update {
        exit_price: opt_view(exit_price),
        realized_pnl: opt_view(realized_pnl),
        status,
        phase,
        stop_loss: opt_view(stop_loss),
        position_size: opt_view(position_size),
    }
}

/// The new text of a column that holds a number.
pub open spec fn number_or(d: Option<Dec>, c: Seq<char>) -> Seq<char> {
    match d {
        Some(x) => x.text(),
        None => c,
    }
}

impl Update {
    /// The columns of a line after the update at `now`.
    pub open spec fn columns(self, c: Seq<Seq<char>>, now: Moment) -> Seq<Seq<char>> {
        seq![
            c[0],
            c[1],
            c[2],
            c[3],
            c[4],
            number_or(self.stop_loss, c[5]),
            c[6],
            number_or(self.position_size, c[7]),
            match self.status {
                Some(s) => s.word(),
                None => c[8],
            },
            if self.status == Some(TradeStatus::Closed) && c[9].len() == 0 {
                rfc3339_text(now.secs, now.nanos)
            } else {
                c[9]
            },
            number_or(self.exit_price, c[10]),
            number_or(self.realized_pnl, c[11]),
            match self.phase {
                Some(p) => p.word(),
                None => c[12],
            },
            c[13],
            c[14],
            c[15],
            c[16],
            c[17],
        ]
    }

    /// The moment `now` can be written, where the update writes it.
    pub open spec fn time_fits(self, now: Moment) -> bool {
        self.status != Some(TradeStatus::Closed) || now.plain()
    }

    /// The record after the update at `now`.
    pub open spec fn record(self, r: Record, now: Moment) -> Record {
        Record {
            stop_loss: if self.stop_loss is Some {
                self.stop_loss->0
            } else {
                r.stop_loss
            },
            position_size: if self.position_size is Some {
                self.position_size->0
            } else {
                r.position_size
            },
            status: if self.status is Some {
                self.status->0
            } else {
                r.status
            },
            exit_time: if self.status == Some(TradeStatus::Closed) && r.exit_time is None {
                Some(now)
            } else {
                r.exit_time
            },
            exit_price: if self.exit_price is Some {
                self.exit_price
            } else {
                r.exit_price
            },
            realized_pnl: if self.realized_pnl is Some {
                self.realized_pnl->0
            } else {
                r.realized_pnl
            },
            phase: if self.phase is Some {
                self.phase->0
            } else {
                r.phase
            },
            ..r
        }
    }
}

/// The first line from `from` on whose first column is `id`.
pub open spec fn line_with_id(lines: Seq<Seq<char>>, id: Seq<char>, from: int) -> Option<int>
    decreases lines.len() - from,
{
    if from < 0 || from >= lines.len() {
        None
    } else if split_on(lines[from], ',')[0] == id {
        Some(from)
    } else {
        line_with_id(lines, id, from + 1)
    }
}

/// The records that a list of lines holds, in their order; lines that are none are passed over.
pub open spec fn records_of(lines: Seq<Seq<char>>) -> Seq<Record>
    decreases lines.len(),
{
    if lines.len() == 0 {
        Seq::empty()
    } else {
        let before = records_of(lines.drop_last());
        match record_of_line(lines.last()) {
            Some(r) => before.push(r),
            None => before,
        }
    }
}

/// The records whose trade is open.
pub open spec fn open_records(records: Seq<Record>) -> Seq<Record> {
    records.filter(|r: Record| r.status == TradeStatus::Open)
}

/// The models of a list of records.
pub open spec fn record_views(v: Seq<TradeRecord>) -> Seq<Record> {
    v.map_values(|r: TradeRecord| r@)
}

/// The records of two lists of lines are those of the first and then those of the second.
pub proof fn lemma_records_of_concat(a: Seq<Seq<char>>, b: Seq<Seq<char>>)
    ensures
        records_of(a + b) == records_of(a) + records_of(b),
    decreases b.len(),
{
    if b.len() == 0 {
        assert(a + b =~= a);
        assert(records_of(a) + records_of(b) =~= records_of(a));
    } else {
        lemma_records_of_concat(a, b.drop_last());
        assert((a + b).drop_last() =~= a + b.drop_last());
        assert((a + b).last() == b.last());
        match record_of_line(b.last()) {
            Some(r) => {
                assert(records_of(a) + records_of(b) =~= (records_of(a) + records_of(
                    b.drop_last(),
                )).push(r));
            },
            None => {},
        }
    }
}

/// When a line that holds the record `r` is put in the place of another that holds `s`, then `r`
/// stands in the place of `s` among the records, and every other record stays where it was.
pub proof fn lemma_replaced_record(
    lines: Seq<Seq<char>>,
    i: int,
    line: Seq<char>,
    s: Record,
    r: Record,
)
    requires
        0 <= i < lines.len(),
        record_of_line(lines[i]) == Some(s),
        record_of_line(line) == Some(r),
    ensures
        records_of(lines) == records_of(lines.take(i)).push(s) + records_of(lines.skip(i + 1)),
        records_of(lines.update(i, line)) == records_of(lines.take(i)).push(r) + records_of(
            lines.skip(i + 1),
        ),
{
    let front = lines.take(i);
    let back = lines.skip(i + 1);
    assert(lines =~= front.push(lines[i]) + back);
    assert(lines.update(i, line) =~= front.push(line) + back);
    lemma_records_of_concat(front.push(lines[i]), back);
    lemma_records_of_concat(front.push(line), back);
    assert(front.push(lines[i]).drop_last() =~= front);
    assert(front.push(line).drop_last() =~= front);
}

/// The text of a column that holds a number, if it changes.
fn number_or_column(d: Option<Decimal>, column: &String) -> (r: String)
    ensures
        r@ == number_or(opt_view(d), column@),
        d is Some ==> parsed(r@) == Some(d->0@) && r@.len() >= 1,
        lacks(column@, ',') ==> lacks(r@, ','),
        unbroken(column@) ==> unbroken(r@),
{
    match d {
        Some(x) => {
            proof {
                crate::decimal::lemma_text_chars(x@);
            }
            x.to_string()
        },
        None => column.clone(),
    }
}

/// The record that a line of the log stands for.
pub fn parse_csv_line(line: &str) -> (r: Option<TradeRecord>)
    ensures
        match record_of_line(line@) {
            Some(m) => r is Some && r->0@ == m,
            None => r is None,
        },
{
    let parts = split(line, ',');
    let ghost c = split_on(line@, ',');
    assert(parts@.len() == c.len());
    if parts.len() < 18 {
        return None;
    }
    assert forall|i: int| 0 <= i < parts@.len() implies #[trigger] parts@[i]@ == c[i] by {
        assert(views(parts@)[i] == c[i]);
    }
    let direction = TradeDirection::from_str(parts[2].as_str())?;
    let entry_time = Timestamp::parse_rfc3339(parts[3].as_str())?;
    let entry_price = Decimal::parse(parts[4].as_str())?;
    let stop_loss = Decimal::parse(parts[5].as_str())?;
    let take_profit = Decimal::parse(parts[6].as_str())?;
    let position_size = Decimal::parse(parts[7].as_str())?;
    let status = TradeStatus::from_str(parts[8].as_str())?;
    let exit_time = if is_blank(&parts[9]) {
        None
    } else {
        Some(Timestamp::parse_rfc3339(parts[9].as_str())?)
    };
    let exit_price = if is_blank(&parts[10]) {
        None
    } else {
        Some(Decimal::parse(parts[10].as_str())?)
    };
    let realized_pnl = Decimal::parse(parts[11].as_str())?;
    let phase = TradePhase::from_str(parts[12].as_str())?;
    let atr_value = Decimal::parse(parts[13].as_str())?;
    let risk_per_unit = Decimal::parse(parts[14].as_str())?;
    let entry_rsi = Decimal::parse(parts[15].as_str())?;
    let entry_adx = Decimal::parse(parts[16].as_str())?;
    Some(
        TradeRecord {
            id: parts[0].clone(),
            symbol: parts[1].clone(),
            direction,
            entry_time,
            entry_price,
            stop_loss,
            take_profit,
            position_size,
            status,
            exit_time,
            exit_price,
            realized_pnl,
            phase,
            atr_value,
            risk_per_unit,
            entry_rsi,
            entry_adx,
            trend_condition: parts[17].clone(),
        },
    )
}

/// The line after an update at `now`, or nothing where it does not have the columns of a record.
/// If the line held a record, then the new line holds the updated one.
pub fn update_csv_line(
    line: &str,
    exit_price: Option<Decimal>,
    realized_pnl: Option<Decimal>,
    new_status: Option<TradeStatus>,
    new_phase: Option<TradePhase>,
    new_stop_loss: Option<Decimal>,
    new_position_size: Option<Decimal>,
    now: Timestamp,
) -> (r: Option<String>)
    ensures
        split_on(line@, ',').len() < 18 ==> r is None,
        split_on(line@, ',').len() >= 18 ==> ({
            let u = update_of(
                exit_price,
                realized_pnl,
                new_status,
                new_phase,
                new_stop_loss,
                new_position_size,
            );
            &&& r is Some
            &&& r->0@ == join(u.columns(split_on(line@, ','), now@), ',')
            &&& split_on(r->0@, ',') == u.columns(split_on(line@, ','), now@)
            &&& record_of_line(line@) is Some && u.time_fits(now@) ==> record_of_line(r->0@) == Some(
                u.record(record_of_line(line@)->0, now@),
            )
            &&& unbroken(line@) ==> unbroken(r->0@)
        }),
{
    let parts = split(line, ',');
    let ghost c = split_on(line@, ',');
    assert(parts@.len() == c.len());
    if parts.len() < 18 {
        return None;
    }
    let ghost u = update_of(
        exit_price,
        realized_pnl,
        new_status,
        new_phase,
        new_stop_loss,
        new_position_size,
    );
    proof {
        lemma_split_pieces(line@, ',');
        lemma_words();
    }
    assert forall|i: int| 0 <= i < parts@.len() implies #[trigger] parts@[i]@ == c[i] && lacks(
        c[i],
        ',',
    ) by {
        assert(views(parts@)[i] == c[i]);
    }
    let closing = match new_status {
        Some(TradeStatus::Closed) => is_blank(&parts[9]),
        _ => false,
    };
    let mut n: Vec<String> = Vec::new();
    n.push(parts[0].clone());
    n.push(parts[1].clone());
    n.push(parts[2].clone());
    n.push(parts[3].clone());
    n.push(parts[4].clone());
    n.push(number_or_column(new_stop_loss, &parts[5]));
    n.push(parts[6].clone());
    n.push(number_or_column(new_position_size, &parts[7]));
    n.push(
        match new_status {
            Some(s) => s.to_string(),
            None => parts[8].clone(),
        },
    );
    n.push(
        if closing {
            now.to_rfc3339()
        } else {
            parts[9].clone()
        },
    );
    n.push(number_or_column(exit_price, &parts[10]));
    n.push(number_or_column(realized_pnl, &parts[11]));
    n.push(
        match new_phase {
            Some(p) => p.to_string(),
            None => parts[12].clone(),
        },
    );
    n.push(parts[13].clone());
    n.push(parts[14].clone());
    n.push(parts[15].clone());
    n.push(parts[16].clone());
    n.push(parts[17].clone());
    proof {
        let cols = u.columns(c, now@);
        assert(views(n@) =~= cols);
        assert(lacks(n@[9]@, ','));
        assert forall|i: int| 0 <= i < cols.len() implies lacks(#[trigger] cols[i], ',') by {
            assert(cols[i] == n@[i]@);
        }
        lemma_split_join(cols, ',');
        assert(n@[9]@ == cols[9]);
        if record_of_line(line@) is Some && u.time_fits(now@) {
            let old_r = record_of_line(line@)->0;
            assert(record_of(cols) == Some(u.record(old_r, now@)));
        }
        if unbroken(line@) {
            lemma_split_lacks(line@, ',', '\n');
            lemma_split_lacks(line@, ',', '\r');
            assert(unbroken(n@[9]@));
            assert forall|i: int| 0 <= i < cols.len() implies unbroken(#[trigger] cols[i]) by {
                assert(cols[i] == n@[i]@);
                assert(lacks(c[i], '\n') && lacks(c[i], '\r'));
            }
            lemma_join_lacks(cols, ',', '\n');
            lemma_join_lacks(cols, ',', '\r');
        }
    }
    Some(join_texts(&n, ','))
}

/// The trade log.
pub struct CsvLogger {
    path: String,
    lines: Vec<String>,
}

impl CsvLogger {
    /// The lines of the log.
    pub closed spec fn lines(&self) -> Seq<Seq<char>> {
        views(self.lines@)
    }

    /// The path of the log's file.
    pub closed spec fn path_text(&self) -> Seq<char> {
        self.path@
    }

    /// The records that the log holds: the first line is the header.
    pub open spec fn records(&self) -> Seq<Record> {
        if self.lines().len() == 0 {
            Seq::empty()
        } else {
            records_of(self.lines().skip(1))
        }
    }

    /// Creates a log for a file that does not exist yet: it holds the header only.
    pub fn new(path: &str) -> (r: CsvLogger)
        ensures
            r.path_text() == path@,
            r.lines() == seq![
                "id,symbol,direction,entry_time,entry_price,stop_loss,take_profit,position_size,status,exit_time,exit_price,realized_pnl,phase,atr_value,risk_per_unit,entry_rsi,entry_adx,trend_condition"@,
            ],
            r.records() == Seq::<Record>::empty(),
            unbroken(r.lines()[0]),
    {
        proof {
            reveal_strlit(
                "id,symbol,direction,entry_time,entry_price,stop_loss,take_profit,position_size,status,exit_time,exit_price,realized_pnl,phase,atr_value,risk_per_unit,entry_rsi,entry_adx,trend_condition",
            );
        }
        let mut lines: Vec<String> = Vec::new();
        lines.push(TradeRecord::csv_header());
        assert(views(lines@) =~= seq![lines@[0]@]);
        let r = CsvLogger { path: path.to_owned(), lines };
        assert(r.lines().skip(1) =~= Seq::<Seq<char>>::empty());
        r
    }

    /// The log that a file with the given content holds.
    pub fn open(path: &str, content: &str) -> (r: CsvLogger)
        ensures
            r.path_text() == path@,
            r.lines() == lines_of(content@),
    {
        CsvLogger { path: path.to_owned(), lines: read_lines(content) }
    }

    /// Creates a log at the default path.
    pub fn default_path() -> (r: CsvLogger)
        ensures
            r.path_text() == "trades_log.csv"@,
            r.lines() == seq![
                "id,symbol,direction,entry_time,entry_price,stop_loss,take_profit,position_size,status,exit_time,exit_price,realized_pnl,phase,atr_value,risk_per_unit,entry_rsi,entry_adx,trend_condition"@,
            ],
    {
        CsvLogger::new("trades_log.csv")
    }

    /// Returns the path to the log's file.
    pub fn path(&self) -> (r: &str)
        ensures
            r@ == self.path_text(),
    {
        self.path.as_str()
    }

    /// The content of the log's file. If every line is plain, [`CsvLogger::open`] gets the same
    /// lines from it.
    pub fn content(&self) -> (r: String)
        ensures
            r@ == text_of_lines(self.lines()),
            (forall|i: int| 0 <= i < self.lines().len() ==> plain_line(#[trigger] self.lines()[i]))
                ==> lines_of(r@) == self.lines(),
    {
        proof {
            if forall|i: int|
                0 <= i < self.lines().len() ==> plain_line(#[trigger] self.lines()[i]) {
                lemma_lines_round_trip(self.lines());
            }
        }
        write_lines(&self.lines)
    }

    /// Appends a trade record. A record that fits the log is then the last of its records.
    pub fn append_record(&mut self, record: &TradeRecord)
        ensures
            final(self).path_text() == old(self).path_text(),
            final(self).lines() == old(self).lines().push(join(record@.columns(), ',')),
            old(self).lines().len() >= 1 && record@.fits_log() ==> final(self).records() == old(
                self,
            ).records().push(record@.logged()),
            record@.fits_log() ==> record_of_line(final(self).lines().last()) == Some(
                record@.logged(),
            ),
            record@.unbroken_texts() ==> unbroken(final(self).lines().last()),
    {
        let row = record.to_csv_row();
        let ghost before = self.lines();
        self.lines.push(row);
        assert(self.lines() =~= before.push(row@));
        proof {
            if before.len() >= 1 {
                let rest = self.lines().skip(1);
                assert(rest.drop_last() =~= before.skip(1));
                assert(rest.last() == row@);
            }
        }
    }

    fn find(&self, id: &str) -> (r: Option<usize>)
        ensures
            match line_with_id(self.lines(), id@, 1) {
                Some(i) => r is Some && r->0 as int == i && 1 <= i < self.lines().len(),
                None => r is None,
            },
    {
        let mut i: usize = 1;
        while i < self.lines.len()
            invariant
                1 <= i,
                line_with_id(self.lines(), id@, 1) == line_with_id(self.lines(), id@, i as int),
            decreases self.lines.len() - i,
        {
            let columns = split(self.lines[i].as_str(), ',');
            assert(self.lines()[i as int] == self.lines@[i as int]@);
            assert(views(columns@)[0] == columns@[0]@);
            if same_text(columns[0].as_str(), id) {
                return Some(i);
            }
            i = i + 1;
        }
        None
    }

    /// Updates the record with the given identifier at `now`. Only its own line changes. If the
    /// identifier is not in the log, or its line is no record's line, the log stays as it is.
    pub fn update_record_at(
        &mut self,
        trade_id: &str,
        exit_price: Option<Decimal>,
        realized_pnl: Option<Decimal>,
        new_status: Option<TradeStatus>,
        new_phase: Option<TradePhase>,
        new_stop_loss: Option<Decimal>,
        new_position_size: Option<Decimal>,
        now: Timestamp,
    ) -> (r: Result<(), CsvError>)
        ensures
            final(self).path_text() == old(self).path_text(),
            update_outcome(
                old(self).lines(),
                final(self).lines(),
                trade_id@,
                update_of(
                    exit_price,
                    realized_pnl,
                    new_status,
                    new_phase,
                    new_stop_loss,
                    new_position_size,
                ),
                now@,
                r,
            ),
    {
        let i: usize = match self.find(trade_id) {
            Some(i) => i,
            None => {
                return Err(CsvError::TradeNotFound { id: trade_id.to_owned() });
            },
        };
        assert(self.lines()[i as int] == self.lines@[i as int]@);
        match update_csv_line(
            self.lines[i].as_str(),
            exit_price,
            realized_pnl,
            new_status,
            new_phase,
            new_stop_loss,
            new_position_size,
            now,
        ) {
            Some(line) => {
                let ghost before = self.lines();
                self.lines.set(i, line);
                assert(self.lines() =~= before.update(i as int, line@));
                Ok(())
            },
            None => Err(
                CsvError::ParseError {
                    message: "Invalid CSV line format: missing columns".to_owned(),
                },
            ),
        }
    }

    /// Updates the record with the given identifier: exit price, P&L, status, phase, stop and
    /// size. A trade that becomes closed gets the present moment as its exit time, if it has none.
    pub fn update_record(
        &mut self,
        trade_id: &str,
        exit_price: Option<Decimal>,
        realized_pnl: Option<Decimal>,
        new_status: Option<TradeStatus>,
        new_phase: Option<TradePhase>,
        new_stop_loss: Option<Decimal>,
        new_position_size: Option<Decimal>,
    ) -> (r: Result<(), CsvError>)
        ensures
            final(self).path_text() == old(self).path_text(),
            exists|now: Moment|
                now.valid() && #[trigger] update_outcome(
                    old(self).lines(),
                    final(self).lines(),
                    trade_id@,
                    update_of(
                        exit_price,
                        realized_pnl,
                        new_status,
                        new_phase,
                        new_stop_loss,
                        new_position_size,
                    ),
                    now,
                    r,
                ),
            new_status != Some(TradeStatus::Closed) ==> forall|now: Moment|
                #[trigger] update_outcome(
                    old(self).lines(),
                    final(self).lines(),
                    trade_id@,
                    update_of(
                        exit_price,
                        realized_pnl,
                        new_status,
                        new_phase,
                        new_stop_loss,
                        new_position_size,
                    ),
                    now,
                    r,
                ),
    {
        let ghost u = update_of(
            exit_price,
            realized_pnl,
            new_status,
            new_phase,
            new_stop_loss,
            new_position_size,
        );
        let now = Timestamp::now();
        let r = self.update_record_at(
            trade_id,
            exit_price,
            realized_pnl,
            new_status,
            new_phase,
            new_stop_loss,
            new_position_size,
            now,
        );
        proof {
            if new_status != Some(TradeStatus::Closed) {
                assert forall|any: Moment|
                    #[trigger] update_outcome(
                        old(self).lines(),
                        self.lines(),
                        trade_id@,
                        u,
                        any,
                        r,
                    ) by {
                    lemma_time_is_free(
                        old(self).lines(),
                        self.lines(),
                        trade_id@,
                        u,
                        now@,
                        any,
                        r,
                    );
                }
            }
        }
        r
    }

    /// Reads all trade records of the log.
    pub fn read_all_records(&self) -> (r: Vec<TradeRecord>)
        ensures
            record_views(r@) == self.records(),
    {
        let mut records: Vec<TradeRecord> = Vec::new();
        if self.lines.len() == 0 {
            assert(record_views(records@) =~= self.records());
            return records;
        }
        let mut i: usize = 1;
        let ghost rest = self.lines().skip(1);
        assert(rest.take(0) =~= Seq::<Seq<char>>::empty());
        assert(record_views(records@) =~= Seq::<Record>::empty());
        while i < self.lines.len()
            invariant
                1 <= i <= self.lines.len(),
                rest == self.lines().skip(1),
                record_views(records@) == records_of(rest.take(i - 1)),
            decreases self.lines.len() - i,
        {
            assert(self.lines()[i as int] == self.lines@[i as int]@);
            assert(rest.take(i as int).drop_last() =~= rest.take(i - 1));
            assert(rest.take(i as int).last() == self.lines@[i as int]@);
            match parse_csv_line(self.lines[i].as_str()) {
                Some(record) => {
                    let ghost before = records@;
                    records.push(record);
                    assert(record_views(records@) =~= record_views(before).push(record@));
                },
                None => {},
            }
            i = i + 1;
        }
        assert(rest.take(i - 1) =~= rest);
        records
    }

    /// Finds all open trades.
    pub fn find_open_trades(&self) -> (r: Vec<TradeRecord>)
        ensures
            record_views(r@) == open_records(self.records()),
    {
        let all = self.read_all_records();
        let mut found: Vec<TradeRecord> = Vec::new();
        let mut i: usize = 0;
        let ghost is_open = |m: Record| m.status == TradeStatus::Open;
        assert(record_views(all@).take(0).filter(is_open) =~= Seq::<Record>::empty()) by {
            reveal(Seq::filter);
        }
        assert(record_views(found@) =~= Seq::<Record>::empty());
        while i < all.len()
            invariant
                i <= all.len(),
                is_open == (|m: Record| m.status == TradeStatus::Open),
                record_views(found@) == record_views(all@).take(i as int).filter(is_open),
            decreases all.len() - i,
        {
            let ghost next = record_views(all@).take(i + 1);
            assert(next.drop_last() =~= record_views(all@).take(i as int));
            assert(next.last() == all@[i as int]@);
            assert(next.filter(is_open) == if is_open(next.last()) {
                next.drop_last().filter(is_open).push(next.last())
            } else {
                next.drop_last().filter(is_open)
            }) by {
                reveal(Seq::filter);
            }
            if all[i].is_open() {
                let ghost before = found@;
                let copy = copy_record(&all[i]);
                found.push(copy);
                assert(record_views(found@) =~= record_views(before).push(copy@));
            }
            i = i + 1;
        }
        assert(record_views(all@).take(i as int) =~= record_views(all@));
        found
    }
}

/// A second record with the same content.
pub fn copy_record(r: &TradeRecord) -> (c: TradeRecord)
    ensures
        c@ == r@,
{
    TradeRecord {
        id: r.id.clone(),
        symbol: r.symbol.clone(),
        direction: r.direction,
        entry_time: r.entry_time,
        entry_price: r.entry_price,
        stop_loss: r.stop_loss,
        take_profit: r.take_profit,
        position_size: r.position_size,
        status: r.status,
        exit_time: r.exit_time,
        exit_price: r.exit_price,
        realized_pnl: r.realized_pnl,
        phase: r.phase,
        atr_value: r.atr_value,
        risk_per_unit: r.risk_per_unit,
        entry_rsi: r.entry_rsi,
        entry_adx: r.entry_adx,
        trend_condition: r.trend_condition.clone(),
    }
}

/// What an update at `now` does to the lines of a log, and what it answers. Where the line held a
/// record, the new line holds the updated record.
pub open spec fn update_outcome(
    before: Seq<Seq<char>>,
    after: Seq<Seq<char>>,
    id: Seq<char>,
    u: Update,
    now: Moment,
    r: Result<(), CsvError>,
) -> bool {
    match line_with_id(before, id, 1) {
        None => after == before && r is Err && r->Err_0 is TradeNotFound
            && r->Err_0->TradeNotFound_id@ == id,
        Some(i) => {
            let c = split_on(before[i], ',');
            if c.len() < 18 {
                after == before && r is Err && r->Err_0 is ParseError
                    && r->Err_0->ParseError_message@ == "Invalid CSV line format: missing columns"@
            } else {
                &&& r is Ok
                &&& after == before.update(i, join(u.columns(c, now), ','))
                &&& split_on(after[i], ',') == u.columns(c, now)
                &&& record_of_line(before[i]) is Some && u.time_fits(now) ==> record_of_line(after[i])
                    == Some(u.record(record_of_line(before[i])->0, now))
                &&& unbroken(before[i]) ==> unbroken(after[i])
            }
        },
    }
}

/// An update that does not close a trade writes no time: what it does is the same at every moment.
pub proof fn lemma_time_is_free(
    before: Seq<Seq<char>>,
    after: Seq<Seq<char>>,
    id: Seq<char>,
    u: Update,
    now: Moment,
    other: Moment,
    r: Result<(), CsvError>,
)
    requires
        u.status != Some(TradeStatus::Closed),
        update_outcome(before, after, id, u, now, r),
    ensures
        update_outcome(before, after, id, u, other, r),
{
    match line_with_id(before, id, 1) {
        Some(i) => {
            let c = split_on(before[i], ',');
            assert(u.columns(c, now) =~= u.columns(c, other));
        },
        None => {},
    }
}

/// Every line after the header holds a record.
pub open spec fn rows_read(lines: Seq<Seq<char>>) -> bool {
    forall|i: int| 1 <= i < lines.len() ==> record_of_line(#[trigger] lines[i]) is Some
}

proof fn lemma_records_of_rows(rows: Seq<Seq<char>>)
    requires
        forall|i: int| 0 <= i < rows.len() ==> record_of_line(#[trigger] rows[i]) is Some,
    ensures
        records_of(rows).len() == rows.len(),
        forall|i: int|
            0 <= i < rows.len() ==> Some(#[trigger] records_of(rows)[i]) == record_of_line(rows[i]),
    decreases rows.len(),
{
    if rows.len() > 0 {
        let front = rows.drop_last();
        assert forall|i: int| 0 <= i < front.len() implies record_of_line(#[trigger] front[i])
            is Some by {
            assert(front[i] == rows[i]);
        }
        lemma_records_of_rows(front);
        assert(record_of_line(rows[rows.len() - 1]) is Some);
        assert forall|i: int| 0 <= i < rows.len() implies Some(#[trigger] records_of(rows)[i])
            == record_of_line(rows[i]) by {
            if i < front.len() {
                assert(records_of(rows)[i] == records_of(front)[i]);
                assert(front[i] == rows[i]);
            }
        }
    }
}

/// Where every line holds a record, each record is that of its line.
pub proof fn lemma_rows(lines: Seq<Seq<char>>)
    requires
        lines.len() >= 1,
        rows_read(lines),
    ensures
        records_of(lines.skip(1)).len() == lines.len() - 1,
        forall|k: int|
            0 <= k < lines.len() - 1 ==> Some(#[trigger] records_of(lines.skip(1))[k])
                == record_of_line(lines[k + 1]),
        forall|k: int|
            0 <= k < lines.len() - 1 ==> (#[trigger] records_of(lines.skip(1))[k]).id == split_on(
                lines[k + 1],
                ',',
            )[0],
{
    let rows = lines.skip(1);
    assert forall|i: int| 0 <= i < rows.len() implies record_of_line(#[trigger] rows[i])
        is Some by {
        assert(rows[i] == lines[i + 1]);
    }
    lemma_records_of_rows(rows);
    assert forall|k: int| 0 <= k < lines.len() - 1 implies Some(
        #[trigger] records_of(lines.skip(1))[k],
    ) == record_of_line(lines[k + 1]) by {
        assert(rows[k] == lines[k + 1]);
    }
    assert forall|k: int| 0 <= k < lines.len() - 1 implies (#[trigger] records_of(
        lines.skip(1),
    )[k]).id == split_on(lines[k + 1], ',')[0] by {
        assert(record_of_line(lines[k + 1]) is Some);
    }
}

/// The line with an identifier is that of the first record that has it.
pub proof fn lemma_row_of_id(lines: Seq<Seq<char>>, id: Seq<char>, from: int)
    requires
        1 <= from,
        1 <= lines.len(),
        rows_read(lines),
    ensures
        line_with_id(lines, id, from) == match trade_with_id(
            records_of(lines.skip(1)),
            id,
            from - 1,
        ) {
            Some(k) => Some(k + 1),
            None => None,
        },
    decreases lines.len() - from,
{
    lemma_rows(lines);
    if from < lines.len() {
        assert(records_of(lines.skip(1))[from - 1].id == split_on(lines[from], ',')[0]);
        if split_on(lines[from], ',')[0] != id {
            lemma_row_of_id(lines, id, from + 1);
        }
    }
}

/// An update is seen in the records that are read back: that with the identifier has the new
/// figures, each missing one as it was, every other record is unchanged and in its place; where no
/// record has the identifier, the update is refused and nothing changes.
pub proof fn law_update_changes_its_own_record(
    before: Seq<Seq<char>>,
    after: Seq<Seq<char>>,
    id: Seq<char>,
    u: Update,
    now: Moment,
    r: Result<(), CsvError>,
)
    requires
        before.len() >= 1,
        rows_read(before),
        u.time_fits(now),
        update_outcome(before, after, id, u, now, r),
    ensures
        ({
            let old_records = records_of(before.skip(1));
            let new_records = records_of(after.skip(1));
            match trade_with_id(old_records, id, 0) {
                Some(k) => {
                    &&& r is Ok
                    &&& 0 <= k < old_records.len()
                    &&& new_records == old_records.update(k, u.record(old_records[k], now))
                    &&& after.len() == before.len()
                    &&& rows_read(after)
                },
                None => after == before && r is Err && r->Err_0 is TradeNotFound
                    && r->Err_0->TradeNotFound_id@ == id,
            }
        }),
{
    let old_records = records_of(before.skip(1));
    lemma_rows(before);
    lemma_row_of_id(before, id, 1);
    lemma_trade_with_id(old_records, id, 0);
    match trade_with_id(old_records, id, 0) {
        Some(k) => {
            let i = k + 1;
            assert(Some(old_records[k]) == record_of_line(before[i]));
            assert(record_of_line(after[i]) == Some(u.record(old_records[k], now)));
            assert forall|j: int| 1 <= j < after.len() implies record_of_line(#[trigger] after[j])
                is Some by {
                if j != i {
                    assert(after[j] == before[j]);
                }
            }
            lemma_rows(after);
            let new_records = records_of(after.skip(1));
            assert forall|j: int| 0 <= j < new_records.len() implies #[trigger] new_records[j]
                == old_records.update(k, u.record(old_records[k], now))[j] by {
                assert(Some(new_records[j]) == record_of_line(after[j + 1]));
                if j != k {
                    assert(after[j + 1] == before[j + 1]);
                    assert(Some(old_records[j]) == record_of_line(before[j + 1]));
                }
            }
            assert(new_records =~= old_records.update(k, u.record(old_records[k], now)));
        },
        None => {},
    }
}

/// What an update does to a record, figure by figure: each that is given takes the place of the old one
/// and each that is not leaves it; a trade that becomes closed ends at that moment, unless it has an end
/// already; what a trade was entered with never changes.
pub proof fn law_update_by_field(u: Update, r: Record, now: Moment)
    ensures
        ({
            let n = u.record(r, now);
            &&& u.stop_loss is Some ==> n.stop_loss == u.stop_loss->0
            &&& u.stop_loss is None ==> n.stop_loss == r.stop_loss
            &&& u.position_size is Some ==> n.position_size == u.position_size->0
            &&& u.position_size is None ==> n.position_size == r.position_size
            &&& u.realized_pnl is Some ==> n.realized_pnl == u.realized_pnl->0
            &&& u.realized_pnl is None ==> n.realized_pnl == r.realized_pnl
            &&& u.status is Some ==> n.status == u.status->0
            &&& u.status is None ==> n.status == r.status
            &&& u.phase is Some ==> n.phase == u.phase->0
            &&& u.phase is None ==> n.phase == r.phase
            &&& u.exit_price is Some ==> n.exit_price == u.exit_price
            &&& u.exit_price is None ==> n.exit_price == r.exit_price
            &&& r.exit_time is Some ==> n.exit_time == r.exit_time
            &&& r.exit_time is None && u.status == Some(TradeStatus::Closed) ==> n.exit_time == Some(
                now,
            )
            &&& r.exit_time is None && u.status != Some(TradeStatus::Closed) ==> n.exit_time is None
            &&& n.id == r.id && n.symbol == r.symbol && n.direction == r.direction
            &&& n.entry_time == r.entry_time && n.entry_price == r.entry_price
            &&& n.take_profit == r.take_profit && n.atr_value == r.atr_value
            &&& n.risk_per_unit == r.risk_per_unit && n.entry_rsi == r.entry_rsi
            &&& n.entry_adx == r.entry_adx && n.trend_condition == r.trend_condition
        }),
{
}

/// The open records of a log are those whose trade is open, all of them and in their order.
pub proof fn law_open_records(records: Seq<Record>, r: Record)
    ensures
        forall|k: int|
            0 <= k < open_records(records).len() ==> (#[trigger] open_records(records)[k]).status
                == TradeStatus::Open,
        r.status == TradeStatus::Open ==> open_records(records.push(r)) == open_records(
            records,
        ).push(r),
        r.status == TradeStatus::Closed ==> open_records(records.push(r)) == open_records(records),
        open_records(Seq::empty()).len() == 0,
{
    let p = |m: Record| m.status == TradeStatus::Open;
    broadcast use vstd::seq_lib::group_filter_ensures;

    assert forall|k: int| 0 <= k < open_records(records).len() implies (#[trigger] open_records(
        records,
    )[k]).status == TradeStatus::Open by {
        assert(p(records.filter(p)[k]));
    }
    reveal(Seq::filter);
    assert(records.push(r).drop_last() =~= records);
}

} // verus!
