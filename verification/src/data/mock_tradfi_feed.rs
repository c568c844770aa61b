//! Replay of a CSV file of candles, for simulation.
//!
//! The file has a header row; its columns are found by their names, whatever their order and case.
use crate::decimal::{parsed, Dec, Decimal};
use crate::text::{
    contains_text, debug_list, debug_text, integer_value, lowercase, parse_i64, to_lowercase, trim,
    trim_end_char, trimmed, views, without_trailing,
};
use crate::time::{moment_of, naive_date, naive_time, opt_moment, zoned_time, Moment, Timestamp};
use crate::types::market::{Bar, Candle};
use vstd::prelude::*;

verus! {

/// Default delay between consecutive simulated candles, in milliseconds.
pub const DEFAULT_DRIP_DELAY_MS: u64 = 10;

/// How many candles may wait to be taken.
pub const CHANNEL_CAPACITY: usize = 1024;

/// The columns of the candle's figures.
#[derive(Clone, Copy, Debug, PartialEq, Eq, Structural)]
pub struct ColumnMap {
    pub timestamp: usize,
    pub open: usize,
    pub high: usize,
    pub low: usize,
    pub close: usize,
    pub volume: usize,
}

/// The first column, from a place on, whose name is one of those given.
pub open spec fn column_from(header: Seq<Seq<char>>, names: Seq<Seq<char>>, from: int) -> Option<int>
    decreases header.len() - from,
{
    if from < 0 || from >= header.len() {
        None
    } else if names.contains(lowercase(trimmed(header[from]))) {
        Some(from)
    } else {
        column_from(header, names, from + 1)
    }
}

/// The names of the time column.
pub open spec fn time_names() -> Seq<Seq<char>> {
    seq!["datetime"@, "date"@, "time"@, "timestamp"@, "open_time"@]
}

/// What is said of a column that is not there.
pub open spec fn missing_column(names: Seq<Seq<char>>, header: Seq<Seq<char>>) -> Seq<char> {
    "Could not find a column matching "@ + debug_list(names) + " in header: "@ + debug_list(header)
}

/// The column with one of the names, or what is said where there is none.
pub open spec fn column(header: Seq<Seq<char>>, names: Seq<Seq<char>>) -> Result<int, Seq<char>> {
    match column_from(header, names, 0) {
        Some(i) => Ok(i),
        None => Err(missing_column(names, header)),
    }
}

/// The model of a column map.
pub struct Columns {
    pub timestamp: int,
    pub open: int,
    pub high: int,
    pub low: int,
    pub close: int,
    pub volume: int,
}

impl View for ColumnMap {
    type V = Columns;

    open spec fn view(&self) -> Columns {
        Columns {
            timestamp: self.timestamp as int,
            open: self.open as int,
            high: self.high as int,
            low: self.low as int,
            close: self.close as int,
            volume: self.volume as int,
        }
    }
}

/// The columns of a header, or what is said of the first that is missing.
pub open spec fn columns_of(header: Seq<Seq<char>>) -> Result<Columns, Seq<char>> {
    match (
        column(header, time_names()),
        column(header, seq!["open"@, "o"@]),
        column(header, seq!["high"@, "h"@]),
        column(header, seq!["low"@, "l"@]),
        column(header, seq!["close"@, "c"@]),
        column(header, seq!["volume"@, "vol"@, "v"@]),
    ) {
        (Err(e), _, _, _, _, _) => Err(e),
        (_, Err(e), _, _, _, _) => Err(e),
        (_, _, Err(e), _, _, _) => Err(e),
        (_, _, _, Err(e), _, _) => Err(e),
        (_, _, _, _, Err(e), _) => Err(e),
        (_, _, _, _, _, Err(e)) => Err(e),
        (Ok(timestamp), Ok(open), Ok(high), Ok(low), Ok(close), Ok(volume)) => Ok(
            Columns { timestamp, open, high, low, close, volume },
        ),
    }
}

fn find_column(header: &Vec<String>, names: &Vec<String>) -> (r: Result<usize, String>)
    ensures
        match column(views(header@), views(names@)) {
            Ok(i) => r is Ok && r->Ok_0 as int == i,
            Err(e) => r is Err && (r->Err_0)@ == e,
        },
{
    let ghost h = views(header@);
    let ghost n = views(names@);
    let mut i: usize = 0;
    while i < header.len()
        invariant
            h == views(header@),
            n == views(names@),
            column_from(h, n, 0) == column_from(h, n, i as int),
        decreases header.len() - i,
    {
        let name = to_lowercase(trim(header[i].as_str()).as_str());
        assert(h[i as int] == header@[i as int]@);
        if contains_text(names, name.as_str()) {
            return Ok(i);
        }
        i = i + 1;
    }
    Err(
        "Could not find a column matching ".to_owned().concat(debug_text(names).as_str()).concat(
            " in header: ",
        ).concat(debug_text(header).as_str()),
    )
}

fn names2(a: &str, b: &str) -> (r: Vec<String>)
    ensures
        views(r@) == seq![a@, b@],
{
    let mut v: Vec<String> = Vec::new();
    v.push(a.to_owned());
    v.push(b.to_owned());
    assert(views(v@) =~= seq![a@, b@]);
    v
}

impl ColumnMap {
    /// Finds the columns by the names in the header, or says which is missing.
    pub fn from_header(header: &Vec<String>) -> (r: Result<ColumnMap, String>)
        ensures
            match columns_of(views(header@)) {
                Ok(c) => r is Ok && (r->Ok_0)@ == c,
                Err(e) => r is Err && (r->Err_0)@ == e,
            },
    {
        let mut times: Vec<String> = Vec::new();
        times.push("datetime".to_owned());
        times.push("date".to_owned());
        times.push("time".to_owned());
        times.push("timestamp".to_owned());
        times.push("open_time".to_owned());
        assert(views(times@) =~= time_names());
        let mut volumes: Vec<String> = Vec::new();
        volumes.push("volume".to_owned());
        volumes.push("vol".to_owned());
        volumes.push("v".to_owned());
        assert(views(volumes@) =~= seq!["volume"@, "vol"@, "v"@]);
        let timestamp: usize = find_column(header, &times)?;
        let open: usize = find_column(header, &names2("open", "o"))?;
        let high: usize = find_column(header, &names2("high", "h"))?;
        let low: usize = find_column(header, &names2("low", "l"))?;
        let close: usize = find_column(header, &names2("close", "c"))?;
        let volume: usize = find_column(header, &volumes)?;
        Ok(ColumnMap { timestamp, open, high, low, close, volume })
    }
}

/// The moment that a text stands for, in the first of these forms that it has: date and time with
/// a zone, date and time, date and time with a `T` between and any `Z` behind, a date alone, or
/// seconds since the Unix epoch.
pub open spec fn time_of(text: Seq<char>) -> Option<Moment> {
    let s = trimmed(text);
    if zoned_time(s, "%Y-%m-%d %H:%M:%S%:z"@) is Some {
        moment_of(zoned_time(s, "%Y-%m-%d %H:%M:%S%:z"@))
    } else if naive_time(s, "%Y-%m-%d %H:%M:%S"@) is Some {
        moment_of(naive_time(s, "%Y-%m-%d %H:%M:%S"@))
    } else if naive_time(without_trailing(s, 'Z'), "%Y-%m-%dT%H:%M:%S"@) is Some {
        moment_of(naive_time(without_trailing(s, 'Z'), "%Y-%m-%dT%H:%M:%S"@))
    } else if naive_date(s, "%Y-%m-%d"@) is Some {
        moment_of(naive_date(s, "%Y-%m-%d"@))
    } else {
        epoch_seconds(integer_value(s))
    }
}

/// The moment of a number of seconds since the Unix epoch, if it can be held.
pub open spec fn epoch_seconds(n: Option<int>) -> Option<Moment> {
    match n {
        Some(secs) => if (Moment { secs, nanos: 0 }).valid() {
            Some(Moment { secs, nanos: 0 })
        } else {
            None
        },
        None => None,
    }
}

/// Reads a timestamp in one of the common forms.
pub fn parse_timestamp(text: &str) -> (r: Option<Timestamp>)
    ensures
        opt_moment(r) == time_of(text@),
{
    let s = trim(text);
    let zoned = Timestamp::parse_zoned(s.as_str(), "%Y-%m-%d %H:%M:%S%:z");
    let spaced = Timestamp::parse_naive(s.as_str(), "%Y-%m-%d %H:%M:%S");
    let iso = trim_end_char(s.as_str(), 'Z');
    let joined = Timestamp::parse_naive(iso.as_str(), "%Y-%m-%dT%H:%M:%S");
    let date = Timestamp::parse_date(s.as_str(), "%Y-%m-%d");
    first_time(zoned, spaced, joined, date, parse_i64(s.as_str()))
}

/// The first reading that succeeded, or the moment of a number of seconds.
pub open spec fn first_moment(
    zoned: Option<Moment>,
    spaced: Option<Moment>,
    joined: Option<Moment>,
    date: Option<Moment>,
    secs: Option<int>,
) -> Option<Moment> {
    if zoned is Some {
        zoned
    } else if spaced is Some {
        spaced
    } else if joined is Some {
        joined
    } else if date is Some {
        date
    } else {
        epoch_seconds(secs)
    }
}

/// The first reading that succeeded, or the moment of a number of seconds.
pub fn first_time(
    zoned: Option<Timestamp>,
    spaced: Option<Timestamp>,
    joined: Option<Timestamp>,
    date: Option<Timestamp>,
    secs: Option<i64>,
) -> (r: Option<Timestamp>)
    ensures
        opt_moment(r) == first_moment(
            opt_moment(zoned),
            opt_moment(spaced),
            opt_moment(joined),
            opt_moment(date),
            match secs {
                Some(n) => Some(n as int),
                None => None,
            },
        ),
{
    if zoned.is_some() {
        return zoned;
    }
    if spaced.is_some() {
        return spaced;
    }
    if joined.is_some() {
        return joined;
    }
    if date.is_some() {
        return date;
    }
    match secs {
        Some(n) => Timestamp::from_timestamp(n, 0),
        None => None,
    }
}

/// The number in a column of a row.
pub open spec fn number_at(row: Seq<Seq<char>>, i: int) -> Option<Dec> {
    if 0 <= i < row.len() {
        parsed(trimmed(row[i]))
    } else {
        None
    }
}

/// The candle of a row, or nothing where a column is missing or cannot be read.
pub open spec fn bar_of_row(c: Columns, row: Seq<Seq<char>>) -> Option<Bar> {
    match (
        if 0 <= c.timestamp < row.len() {
            time_of(row[c.timestamp])
        } else {
            None
        },
        number_at(row, c.open),
        number_at(row, c.high),
        number_at(row, c.low),
        number_at(row, c.close),
        number_at(row, c.volume),
    ) {
        (Some(timestamp), Some(open), Some(high), Some(low), Some(close), Some(volume)) => Some(
            Bar { timestamp, open, high, low, close, volume },
        ),
        _ => None,
    }
}

fn read_number(row: &Vec<String>, i: usize) -> (r: Option<Decimal>)
    ensures
        crate::decimal::opt_view(r) == number_at(views(row@), i as int),
{
    if i >= row.len() {
        return None;
    }
    assert(views(row@)[i as int] == row@[i as int]@);
    Decimal::parse(trim(row[i].as_str()).as_str())
}

/// The candle of a row, or nothing where a column is missing or cannot be read.
pub fn candle_of_row(columns: &ColumnMap, row: &Vec<String>) -> (r: Option<Candle>)
    ensures
        match bar_of_row(columns@, views(row@)) {
            Some(b) => r is Some && r->0@ == b,
            None => r is None,
        },
{
    if columns.timestamp >= row.len() {
        return None;
    }
    assert(views(row@)[columns.timestamp as int] == row@[columns.timestamp as int]@);
    let timestamp = parse_timestamp(row[columns.timestamp].as_str())?;
    let open = read_number(row, columns.open)?;
    let high = read_number(row, columns.high)?;
    let low = read_number(row, columns.low)?;
    let close = read_number(row, columns.close)?;
    let volume = read_number(row, columns.volume)?;
    Some(Candle::new(timestamp, open, high, low, close, volume))
}

/// The header that the `csv` crate reads from a file's content, or its error's message.
pub uninterp spec fn csv_header(content: Seq<u8>) -> Result<Seq<Seq<char>>, Seq<char>>;

/// The rows that the `csv` crate reads behind the header; nothing for a row that it refuses.
pub uninterp spec fn csv_rows(content: Seq<u8>) -> Seq<Option<Seq<Seq<char>>>>;

/// `csv::Reader::headers`, of a reader with the default settings. What it reads is only named.
#[verifier::external_body]
fn read_header(content: &[u8]) -> (r: Result<Vec<String>, String>)
    ensures
        match r {
            Ok(h) => csv_header(content@) == Ok::<Seq<Seq<char>>, Seq<char>>(views(h@)),
            Err(e) => csv_header(content@) == Err::<Seq<Seq<char>>, Seq<char>>(e@),
        },
{
    let mut reader = csv::Reader::from_reader(content);
    match reader.headers() {
        Ok(h) => Ok(h.iter().map(|f| f.to_string()).collect()),
        Err(e) => Err(e.to_string()),
    }
}

/// The model of a list of rows.
pub open spec fn row_views(rows: Seq<Option<Vec<String>>>) -> Seq<Option<Seq<Seq<char>>>> {
    rows.map_values(
        |r: Option<Vec<String>>|
            match r {
                Some(v) => Some(views(v@)),
                None => None,
            },
    )
}

/// `csv::Reader::records`, of a reader with the default settings. What it reads is only named.
#[verifier::external_body]
fn read_rows(content: &[u8]) -> (r: Vec<Option<Vec<String>>>)
    ensures
        row_views(r@) == csv_rows(content@),
{
    let mut reader = csv::Reader::from_reader(content);
    reader
        .records()
        .map(|row| row.ok().map(|r| r.iter().map(|f| f.to_string()).collect()))
        .collect()
}

/// The candles of the first `n` rows; rows that cannot be read are left out.
pub open spec fn bars_of_rows(c: Columns, rows: Seq<Option<Seq<Seq<char>>>>, n: nat) -> Seq<Bar>
    decreases n,
{
    if n == 0 {
        Seq::empty()
    } else {
        let before = bars_of_rows(c, rows, (n - 1) as nat);
        match rows[n - 1] {
            Some(row) => match bar_of_row(c, row) {
                Some(b) => before.push(b),
                None => before,
            },
            None => before,
        }
    }
}

/// The candles of a replay, and how many rows were left out.
#[derive(Debug)]
pub struct Replay {
    pub candles: Vec<Candle>,
    pub skipped: usize,
}

/// The candles of a header and rows, or what is said of a missing column. Every row is either a
/// candle or counted as left out.
pub fn replay_rows(header: &Vec<String>, rows: &Vec<Option<Vec<String>>>) -> (r: Result<
    Replay,
    String,
>)
    ensures
        match columns_of(views(header@)) {
            Ok(c) => r is Ok && crate::data::backfill::bars((r->Ok_0).candles@) == bars_of_rows(
                c,
                row_views(rows@),
                rows@.len(),
            ) && (r->Ok_0).candles@.len() + (r->Ok_0).skipped == rows@.len(),
            Err(e) => r is Err && (r->Err_0)@ == e,
        },
{
    let columns = ColumnMap::from_header(header)?;
    let ghost all = row_views(rows@);
    let mut candles: Vec<Candle> = Vec::new();
    let mut skipped: usize = 0;
    let mut i: usize = 0;
    assert(crate::data::backfill::bars(candles@) =~= Seq::<Bar>::empty());
    while i < rows.len()
        invariant
            i <= rows.len(),
            all == row_views(rows@),
            candles@.len() + skipped == i,
            crate::data::backfill::bars(candles@) == bars_of_rows(columns@, all, i as nat),
        decreases rows.len() - i,
    {
        assert(all[i as int] == match rows@[i as int] {
            Some(v) => Some(views(v@)),
            None => None,
        });
        let candle = match &rows[i] {
            Some(row) => candle_of_row(&columns, row),
            None => None,
        };
        match candle {
            Some(c) => {
                let ghost before = candles@;
                candles.push(c);
                assert(crate::data::backfill::bars(candles@) =~= crate::data::backfill::bars(
                    before,
                ).push(c@));
            },
            None => {
                skipped = skipped + 1;
            },
        }
        i = i + 1;
    }
    Ok(Replay { candles, skipped })
}

/// What a replay of a file's content comes to.
pub open spec fn replay_outcome(content: Seq<u8>) -> Result<Seq<Bar>, Seq<char>> {
    match csv_header(content) {
        Err(e) => Err("Failed to read CSV headers: "@ + e),
        Ok(header) => match columns_of(header) {
            Err(e) => Err(e),
            Ok(c) => Ok(bars_of_rows(c, csv_rows(content), csv_rows(content).len())),
        },
    }
}

/// A file of candles to replay.
#[derive(Clone, Debug)]
pub struct MockCsvFeed {
    csv_path: String,
    symbol: String,
}

impl MockCsvFeed {
    /// The path of the file.
    pub closed spec fn path_text(&self) -> Seq<char> {
        self.csv_path@
    }

    /// The symbol's name.
    pub closed spec fn symbol_text(&self) -> Seq<char> {
        self.symbol@
    }

    /// Creates a feed of a file, for a symbol.
    pub fn new(csv_path: &str, symbol: &str) -> (r: MockCsvFeed)
        ensures
            r.path_text() == csv_path@,
            r.symbol_text() == symbol@,
    {
        MockCsvFeed { csv_path: csv_path.to_owned(), symbol: symbol.to_owned() }
    }

    /// The path of the file.
    pub fn csv_path(&self) -> (r: &str)
        ensures
            r@ == self.path_text(),
    {
        self.csv_path.as_str()
    }

    /// The symbol's name.
    pub fn symbol(&self) -> (r: &str)
        ensures
            r@ == self.symbol_text(),
    {
        self.symbol.as_str()
    }

    /// The candles of the file's content, in the order of its rows.
    pub fn replay(&self, content: &[u8]) -> (r: Result<Replay, String>)
        ensures
            match replay_outcome(content@) {
                Ok(b) => r is Ok && crate::data::backfill::bars((r->Ok_0).candles@) == b && (
                r->Ok_0).candles@.len() + (r->Ok_0).skipped == csv_rows(content@).len(),
                Err(e) => r is Err && (r->Err_0)@ == e,
            },
    {
        match read_header(content) {
            Err(e) => Err("Failed to read CSV headers: ".to_owned().concat(e.as_str())),
            Ok(header) => {
                let rows = read_rows(content);
                replay_rows(&header, &rows)
            },
        }
    }
}

/// The columns that are found are those whose names, in small letters and without space around them,
/// are among the names of the figure, and the first such each.
pub proof fn law_columns_by_name(header: Seq<Seq<char>>)
    ensures
        columns_of(header) matches Ok(c) ==> {
            &&& first_named(
                header,
                c.timestamp,
                seq!["datetime"@, "date"@, "time"@, "timestamp"@, "open_time"@],
            )
            &&& first_named(header, c.open, seq!["open"@, "o"@])
            &&& first_named(header, c.high, seq!["high"@, "h"@])
            &&& first_named(header, c.low, seq!["low"@, "l"@])
            &&& first_named(header, c.close, seq!["close"@, "c"@])
            &&& first_named(header, c.volume, seq!["volume"@, "vol"@, "v"@])
        },
{
    lemma_column_from(header, time_names(), 0);
    lemma_column_from(header, seq!["open"@, "o"@], 0);
    lemma_column_from(header, seq!["high"@, "h"@], 0);
    lemma_column_from(header, seq!["low"@, "l"@], 0);
    lemma_column_from(header, seq!["close"@, "c"@], 0);
    lemma_column_from(header, seq!["volume"@, "vol"@, "v"@], 0);
}

/// The column is the first with one of the names.
pub open spec fn first_named(header: Seq<Seq<char>>, i: int, names: Seq<Seq<char>>) -> bool {
    &&& 0 <= i < header.len()
    &&& names.contains(lowercase(trimmed(header[i])))
    &&& forall|k: int| 0 <= k < i ==> !names.contains(lowercase(trimmed(#[trigger] header[k])))
}

proof fn lemma_column_from(header: Seq<Seq<char>>, names: Seq<Seq<char>>, from: int)
    requires
        0 <= from,
    ensures
        match column_from(header, names, from) {
            Some(i) => from <= i < header.len() && names.contains(lowercase(trimmed(header[i])))
                && forall|k: int|
                from <= k < i ==> !names.contains(lowercase(trimmed(#[trigger] header[k]))),
            None => forall|k: int|
                from <= k < header.len() ==> !names.contains(
                    lowercase(trimmed(#[trigger] header[k])),
                ),
        },
    decreases header.len() - from,
{
    if from < header.len() && !names.contains(lowercase(trimmed(header[from]))) {
        lemma_column_from(header, names, from + 1);
    }
}

/// A header that lacks one of the figures is refused.
pub proof fn law_every_column_is_needed(header: Seq<Seq<char>>)
    ensures
        columns_of(header) is Ok <==> {
            &&& column_from(header, time_names(), 0) is Some
            &&& column_from(header, seq!["open"@, "o"@], 0) is Some
            &&& column_from(header, seq!["high"@, "h"@], 0) is Some
            &&& column_from(header, seq!["low"@, "l"@], 0) is Some
            &&& column_from(header, seq!["close"@, "c"@], 0) is Some
            &&& column_from(header, seq!["volume"@, "vol"@, "v"@], 0) is Some
        },
{
}

/// A row's candle takes each figure from its own column; a column that is missing or cannot be read
/// leaves the row out.
pub proof fn law_row_by_columns(c: Columns, row: Seq<Seq<char>>)
    ensures
        bar_of_row(c, row) matches Some(b) ==> {
            &&& 0 <= c.timestamp < row.len() && time_of(row[c.timestamp]) == Some(b.timestamp)
            &&& 0 <= c.open < row.len() && parsed(trimmed(row[c.open])) == Some(b.open)
            &&& 0 <= c.high < row.len() && parsed(trimmed(row[c.high])) == Some(b.high)
            &&& 0 <= c.low < row.len() && parsed(trimmed(row[c.low])) == Some(b.low)
            &&& 0 <= c.close < row.len() && parsed(trimmed(row[c.close])) == Some(b.close)
            &&& 0 <= c.volume < row.len() && parsed(trimmed(row[c.volume])) == Some(b.volume)
        },
        bar_of_row(c, row) is None ==> {
            ||| !(0 <= c.timestamp < row.len()) || time_of(row[c.timestamp]) is None
            ||| !(0 <= c.open < row.len()) || parsed(trimmed(row[c.open])) is None
            ||| !(0 <= c.high < row.len()) || parsed(trimmed(row[c.high])) is None
            ||| !(0 <= c.low < row.len()) || parsed(trimmed(row[c.low])) is None
            ||| !(0 <= c.close < row.len()) || parsed(trimmed(row[c.close])) is None
            ||| !(0 <= c.volume < row.len()) || parsed(trimmed(row[c.volume])) is None
        },
{
}

/// The candles of a file keep the order of its rows: one more row adds its candle behind those of the
/// rows before it, or none where it holds none.
pub proof fn law_rows_in_order(c: Columns, rows: Seq<Option<Seq<Seq<char>>>>, n: nat)
    requires
        n < rows.len(),
    ensures
        rows[n as int] is Some && bar_of_row(c, rows[n as int]->0) is Some ==> bars_of_rows(
            c,
            rows,
            n + 1,
        ) == bars_of_rows(c, rows, n).push(bar_of_row(c, rows[n as int]->0)->0),
        rows[n as int] is Some && bar_of_row(c, rows[n as int]->0) is None ==> bars_of_rows(
            c,
            rows,
            n + 1,
        ) == bars_of_rows(c, rows, n),
        rows[n as int] is None ==> bars_of_rows(c, rows, n + 1) == bars_of_rows(c, rows, n),
        bars_of_rows(c, rows, n).len() <= n,
        bars_of_rows(c, rows, 0).len() == 0,
    decreases n,
{
    if n > 0 {
        law_rows_in_order(c, rows, (n - 1) as nat);
    }
}

/// Which reading of a time counts: the earlier forms go before the later ones, and a plain number is
/// the seconds since the epoch.
pub proof fn law_time_forms_in_order(
    zoned: Option<Moment>,
    spaced: Option<Moment>,
    joined: Option<Moment>,
    date: Option<Moment>,
    secs: int,
)
    ensures
        zoned is Some ==> first_moment(zoned, spaced, joined, date, Some(secs)) == zoned,
        zoned is None && spaced is Some ==> first_moment(zoned, spaced, joined, date, Some(secs))
            == spaced,
        zoned is None && spaced is None && joined is Some ==> first_moment(
            zoned,
            spaced,
            joined,
            date,
            Some(secs),
        ) == joined,
        zoned is None && spaced is None && joined is None && date is Some ==> first_moment(
            zoned,
            spaced,
            joined,
            date,
            Some(secs),
        ) == date,
        0 <= secs <= 253402300799 ==> first_moment(None, None, None, None, Some(secs)) == Some(
            Moment { secs, nanos: 0 },
        ),
        first_moment(None, None, None, None, None) is None,
{
}

} // verus!
