//! Points in time, as `chrono`'s `DateTime<Utc>` holds them: whole seconds since the Unix epoch
//! and the nanoseconds after them.
use crate::text::is_digit;
use vstd::prelude::*;

verus! {

/// The model of a point in time.
pub struct Moment {
    pub secs: int,
    pub nanos: int,
}

impl Moment {
    /// The moment lies in the range of years that can be held, and only the last second of a
    /// minute may be a leap second.
    pub open spec fn valid(self) -> bool {
        &&& -8334601228800 <= self.secs <= 8210266876799
        &&& 0 <= self.nanos < 2000000000
        &&& self.nanos < 1000000000 || self.secs % 60 == 59
    }

    /// The moment has a four-digit year.
    pub open spec fn plain(self) -> bool {
        self.valid() && -62167219200 <= self.secs <= 253402300799
    }

    /// Nanoseconds from another moment to this one.
    pub open spec fn nanos_since(self, other: Moment) -> int {
        (self.secs - other.secs) * 1000000000 + self.nanos - other.nanos
    }

    /// Day of the week, from 0 for Sunday to 6 for Saturday. The Unix epoch was a Thursday.
    pub open spec fn weekday(self) -> int {
        (self.secs / 86400 + 4) % 7
    }

    /// Hour of the day.
    pub open spec fn hour(self) -> int {
        self.secs % 86400 / 3600
    }

    /// Milliseconds since the Unix epoch.
    pub open spec fn millis(self) -> int {
        self.secs * 1000 + self.nanos / 1000000
    }
}

/// What `chrono`'s `to_rfc3339` writes for a moment.
pub uninterp spec fn rfc3339_text(secs: int, nanos: int) -> Seq<char>;

/// What `chrono`'s `parse_from_rfc3339` reads from a text, taken to UTC.
pub uninterp spec fn rfc3339_parts(text: Seq<char>) -> Option<(int, int)>;

/// The moment that an RFC 3339 text stands for.
pub open spec fn rfc3339_moment(text: Seq<char>) -> Option<Moment> {
    match rfc3339_parts(text) {
        Some(p) => Some(Moment { secs: p.0, nanos: p.1 }),
        None => None,
    }
}

/// The characters that an RFC 3339 text is made of.
pub open spec fn is_time_char(c: char) -> bool {
    is_digit(c) || c == '-' || c == '+' || c == ':' || c == '.' || c == 'T'
}

/// A point in time.
#[derive(Clone, Copy, Debug, PartialEq, Eq)]
pub struct Timestamp {
    secs: i64,
    nanos: u32,
}

impl View for Timestamp {
    type V = Moment;

    closed spec fn view(&self) -> Moment {
        Moment { secs: self.secs as int, nanos: self.nanos as int }
    }
}

/// The model of an optional point in time.
pub open spec fn opt_moment(t: Option<Timestamp>) -> Option<Moment> {
    match t {
        Some(x) => Some(x@),
        None => None,
    }
}

impl Timestamp {
    #[verifier::type_invariant]
    pub closed spec fn inv(self) -> bool {
        self@.valid()
    }

    /// Nanoseconds from another moment to this one.
    pub fn nanos_since(&self, other: &Timestamp) -> (r: i128)
        ensures
            r as int == self@.nanos_since(other@),
    {
        proof {
            use_type_invariant(self);
            use_type_invariant(other);
        }
        (self.secs as i128 - other.secs as i128) * 1000000000 + self.nanos as i128
            - other.nanos as i128
    }

    /// The moment `nanos` nanoseconds after `secs` seconds since the Unix epoch, if it can be held.
    pub fn from_timestamp(secs: i64, nanos: u32) -> (r: Option<Timestamp>)
        ensures
            opt_moment(r) == ({
                let t = Moment { secs: secs as int, nanos: nanos as int };
                if t.valid() {
                    Some(t)
                } else {
                    None
                }
            }),
    {
        if secs < -8334601228800 || secs > 8210266876799 || nanos >= 2000000000 {
            None
        } else if nanos >= 1000000000 && !is_last_second(secs) {
            None
        } else {
            Some(Timestamp { secs, nanos })
        }
    }

    /// The moment `millis` milliseconds after the Unix epoch, if it can be held.
    pub fn from_timestamp_millis(millis: i64) -> (r: Option<Timestamp>)
        ensures
            opt_moment(r) == ({
                let t = Moment { secs: millis as int / 1000, nanos: (millis as int % 1000) * 1000000 };
                if t.valid() {
                    Some(t)
                } else {
                    None
                }
            }),
    {
        if millis < -8334601228800000 || millis > 8210266876799999 {
            return None;
        }
        let shifted: i64 = millis + 8334601228800000;
        let secs: i64 = shifted / 1000 - 8334601228800;
        let rest: u32 = (shifted % 1000) as u32;
        Timestamp::from_timestamp(secs, rest * 1000000)
    }

    pub fn timestamp(&self) -> (r: i64)
        ensures
            r as int == self@.secs,
    {
        self.secs
    }

    pub fn subsec_nanos(&self) -> (r: u32)
        ensures
            r as int == self@.nanos,
    {
        self.nanos
    }

    /// Milliseconds since the Unix epoch.
    pub fn timestamp_millis(&self) -> (r: i64)
        ensures
            r as int == self@.millis(),
    {
        proof {
            use_type_invariant(self);
        }
        self.secs * 1000 + (self.nanos / 1000000) as i64
    }

    /// Day of the week in UTC, from 0 for Sunday to 6 for Saturday.
    pub fn weekday(&self) -> (r: u32)
        ensures
            r as int == self@.weekday(),
            r < 7,
    {
        proof {
            use_type_invariant(self);
        }
        let days: i64 = (self.secs + 96465299 * 86400) / 86400;
        assert(days == self.secs as int / 86400 + 96465299);
        ((days + 4) % 7) as u32
    }

    /// Hour of the day in UTC.
    pub fn hour(&self) -> (r: u32)
        ensures
            r as int == self@.hour(),
            r < 24,
    {
        proof {
            use_type_invariant(self);
        }
        ((self.secs + 96465299 * 86400) % 86400 / 3600) as u32
    }

    /// The present moment. Which one it is cannot be said.
    pub fn now() -> (r: Timestamp)
        ensures
            r@.valid(),
    {
        let p = outside_now();
        Timestamp { secs: p.0, nanos: p.1 }
    }

    /// The RFC 3339 text of the moment. [`Timestamp::parse_rfc3339`] reads a moment with a
    /// four-digit year back as it was.
    pub fn to_rfc3339(&self) -> (r: String)
        ensures
            r@ == rfc3339_text(self@.secs, self@.nanos),
            self@.plain() ==> rfc3339_moment(r@) == Some(self@),
            r@.len() >= 1,
            forall|i: int| 0 <= i < r@.len() ==> is_time_char(#[trigger] r@[i]),
    {
        proof {
            use_type_invariant(self);
        }
        outside_to_rfc3339(self.secs, self.nanos)
    }

    /// The moment that an RFC 3339 text stands for, in UTC.
    pub fn parse_rfc3339(text: &str) -> (r: Option<Timestamp>)
        ensures
            opt_moment(r) == rfc3339_moment(text@),
    {
        match outside_parse_rfc3339(text) {
            Some(p) => Some(Timestamp { secs: p.0, nanos: p.1 }),
            None => None,
        }
    }
}

fn is_last_second(secs: i64) -> (r: bool)
    requires
        -8334601228800 <= secs <= 8210266876799,
    ensures
        r == (secs as int % 60 == 59),
{
    (secs + 8334601228800) % 60 == 59
}

/// `chrono::Utc::now`: a moment that the machine's clock gives. Nothing is said of which.
#[verifier::external_body]
fn outside_now() -> (r: (i64, u32))
    ensures
        (Moment { secs: r.0 as int, nanos: r.1 as int }).valid(),
{
    let t = chrono::Utc::now();
    (t.timestamp(), t.timestamp_subsec_nanos())
}

/// `chrono::DateTime::<Utc>::to_rfc3339`, of the moment that `from_timestamp` gives. Its text is
/// named; it is made of digits, signs, colons, a point and a `T`, and where the year has four
/// digits `parse_from_rfc3339` reads the same moment back, a leap second from its `:60` too.
#[verifier::external_body]
fn outside_to_rfc3339(secs: i64, nanos: u32) -> (r: String)
    requires
        (Moment { secs: secs as int, nanos: nanos as int }).valid(),
    ensures
        r@ == rfc3339_text(secs as int, nanos as int),
        (Moment { secs: secs as int, nanos: nanos as int }).plain() ==> rfc3339_parts(r@) == Some(
            (secs as int, nanos as int),
        ),
        r@.len() >= 1,
        forall|i: int| 0 <= i < r@.len() ==> is_time_char(#[trigger] r@[i]),
{
    chrono::DateTime::from_timestamp(secs, nanos).unwrap().to_rfc3339()
}

/// `chrono::DateTime::parse_from_rfc3339`, whose result is a function of the text and is named.
#[verifier::external_body]
fn outside_parse_rfc3339(text: &str) -> (r: Option<(i64, u32)>)
    ensures
        match r {
            Some(p) => rfc3339_parts(text@) == Some((p.0 as int, p.1 as int)) && (Moment {
                secs: p.0 as int,
                nanos: p.1 as int,
            }).valid(),
            None => rfc3339_parts(text@) is None,
        },
{
    let t = chrono::DateTime::parse_from_rfc3339(text).ok()?.with_timezone(&chrono::Utc);
    Some((t.timestamp(), t.timestamp_subsec_nanos()))
}

/// A span of time, in nanoseconds.
#[derive(Clone, Copy, Debug, PartialEq, Eq, PartialOrd, Ord)]
pub struct Duration {
    nanos: u128,
}

impl View for Duration {
    type V = int;

    closed spec fn view(&self) -> int {
        self.nanos as int
    }
}

impl Duration {
    #[verifier::type_invariant]
    pub closed spec fn inv(self) -> bool {
        self.nanos <= 18446744073709551615999999999
    }

    pub fn from_secs(secs: u64) -> (r: Duration)
        ensures
            r@ == secs * 1000000000,
    {
        Duration { nanos: secs as u128 * 1000000000 }
    }

    pub fn from_millis(millis: u64) -> (r: Duration)
        ensures
            r@ == millis * 1000000,
    {
        Duration { nanos: millis as u128 * 1000000 }
    }

    /// Whole seconds of the span.
    pub fn as_secs(&self) -> (r: u64)
        ensures
            r as int == self@ / 1000000000,
    {
        proof {
            use_type_invariant(self);
        }
        (self.nanos / 1000000000) as u64
    }

    /// Whole milliseconds of the span.
    pub fn as_millis(&self) -> (r: u128)
        ensures
            r as int == self@ / 1000000,
    {
        self.nanos / 1000000
    }

    /// The nanoseconds of the span.
    pub fn as_nanos(&self) -> (r: u128)
        ensures
            r as int == self@,
    {
        self.nanos
    }
}

/// `std::time::Instant`, a reading of the machine's monotonic clock.
#[verifier::external_type_specification]
#[verifier::external_body]
pub struct ExInstant(std::time::Instant);

/// A clock that counts from the moment it was started, and keeps the newest of the readings
/// that it is given. Its model is that reading, in nanoseconds.
#[derive(Clone, Copy, Debug)]
pub struct Clock {
    start: std::time::Instant,
    newest: u128,
}

impl View for Clock {
    type V = int;

    closed spec fn view(&self) -> int {
        self.newest as int
    }
}

impl Clock {
    /// Starts a clock.
    pub fn start() -> (r: Clock)
        ensures
            r@ == 0,
    {
        Clock { start: instant_now(), newest: 0 }
    }

    /// Keeps a reading, unless a later one is kept already.
    pub fn keep(&mut self, reading: u128)
        ensures
            final(self)@ == if reading as int > old(self)@ {
                reading as int
            } else {
                old(self)@
            },
    {
        if reading > self.newest {
            self.newest = reading;
        }
    }

    /// Nanoseconds since the clock was started: never fewer than the newest reading that was kept.
    /// How many they are beyond that rests on the machine.
    pub fn read(&self) -> (r: u128)
        ensures
            r as int >= self@,
    {
        let now: u128 = elapsed_nanos(&self.start);
        if now > self.newest {
            now
        } else {
            self.newest
        }
    }
}

/// `std::time::Instant::now`. Nothing is said of the reading.
#[verifier::external_body]
fn instant_now() -> std::time::Instant {
    std::time::Instant::now()
}

/// `std::time::Instant::elapsed`, in nanoseconds. Nothing is said of how many.
#[verifier::external_body]
fn elapsed_nanos(start: &std::time::Instant) -> u128 {
    start.elapsed().as_nanos()
}

/// What `chrono::DateTime::parse_from_str` reads from a text in a format, taken to UTC.
pub uninterp spec fn zoned_time(text: Seq<char>, format: Seq<char>) -> Option<(int, int)>;

/// What `chrono::NaiveDateTime::parse_from_str` reads from a text in a format, taken as UTC.
pub uninterp spec fn naive_time(text: Seq<char>, format: Seq<char>) -> Option<(int, int)>;

/// What `chrono::NaiveDate::parse_from_str` reads from a text in a format: midnight of that day.
pub uninterp spec fn naive_date(text: Seq<char>, format: Seq<char>) -> Option<(int, int)>;

/// The moment of seconds and nanoseconds.
pub open spec fn moment_of(p: Option<(int, int)>) -> Option<Moment> {
    match p {
        Some(q) => Some(Moment { secs: q.0, nanos: q.1 }),
        None => None,
    }
}

/// The seconds and nanoseconds are what was read, and can be held.
pub open spec fn reads_as(r: Option<(i64, u32)>, p: Option<(int, int)>) -> bool {
    match r {
        Some(q) => p == Some((q.0 as int, q.1 as int)) && (Moment {
            secs: q.0 as int,
            nanos: q.1 as int,
        }).valid(),
        None => p is None,
    }
}

/// `chrono::DateTime::parse_from_str`, whose result is a function of the text and the format and
/// is named.
#[verifier::external_body]
fn outside_zoned_time(text: &str, format: &str) -> (r: Option<(i64, u32)>)
    ensures
        reads_as(r, zoned_time(text@, format@)),
{
    let t = chrono::DateTime::parse_from_str(text, format).ok()?.with_timezone(&chrono::Utc);
    Some((t.timestamp(), t.timestamp_subsec_nanos()))
}

/// `chrono::NaiveDateTime::parse_from_str`, whose result is a function of the text and the format
/// and is named.
#[verifier::external_body]
fn outside_naive_time(text: &str, format: &str) -> (r: Option<(i64, u32)>)
    ensures
        reads_as(r, naive_time(text@, format@)),
{
    let t = chrono::NaiveDateTime::parse_from_str(text, format).ok()?.and_utc();
    Some((t.timestamp(), t.timestamp_subsec_nanos()))
}

/// `chrono::NaiveDate::parse_from_str`, whose result is a function of the text and the format and
/// is named.
#[verifier::external_body]
fn outside_naive_date(text: &str, format: &str) -> (r: Option<(i64, u32)>)
    ensures
        reads_as(r, naive_date(text@, format@)),
{
    let d = chrono::NaiveDate::parse_from_str(text, format).ok()?;
    let t = d.and_hms_opt(0, 0, 0)?.and_utc();
    Some((t.timestamp(), t.timestamp_subsec_nanos()))
}

impl Timestamp {
    /// The moment that a text with a time zone stands for in a format.
    pub fn parse_zoned(text: &str, format: &str) -> (r: Option<Timestamp>)
        ensures
            opt_moment(r) == moment_of(zoned_time(text@, format@)),
    {
        match outside_zoned_time(text, format) {
            Some(p) => Some(Timestamp { secs: p.0, nanos: p.1 }),
            None => None,
        }
    }

    /// The moment that a text without a time zone stands for in a format, taken as UTC.
    pub fn parse_naive(text: &str, format: &str) -> (r: Option<Timestamp>)
        ensures
            opt_moment(r) == moment_of(naive_time(text@, format@)),
    {
        match outside_naive_time(text, format) {
            Some(p) => Some(Timestamp { secs: p.0, nanos: p.1 }),
            None => None,
        }
    }

    /// Midnight, in UTC, of the day that a text stands for in a format.
    pub fn parse_date(text: &str, format: &str) -> (r: Option<Timestamp>)
        ensures
            opt_moment(r) == moment_of(naive_date(text@, format@)),
    {
        match outside_naive_date(text, format) {
            Some(p) => Some(Timestamp { secs: p.0, nanos: p.1 }),
            None => None,
        }
    }
}

/// The hour and the day of the week, by the seconds since a Monday at midnight: the Unix epoch was a
/// Thursday, three days after one. Sunday is day zero.
pub proof fn law_week_by_seconds(t: Moment)
    ensures
        ({
            let since_monday = (t.secs + 3 * 86400) % 604800;
            let day = since_monday / 86400;
            &&& 0 <= t.hour() < 24
            &&& t.hour() == since_monday % 86400 / 3600
            &&& t.weekday() == if day == 6 {
                0
            } else {
                day + 1
            }
        }),
{
}

} // verus!
