//! Collecting historical candles page by page, from the most recent page backwards in time.
use crate::time::{Moment, Timestamp};
use crate::types::market::{bar_of, kline_summary_to_candle, Bar, Candle, KlineSummary};
use vstd::prelude::*;

verus! {

/// Total number of historical candles to fetch per symbol and interval.
pub const BACKFILL_TARGET: usize = 10000;

/// Maximum candles of a single request.
pub const BINANCE_KLINES_LIMIT: u16 = 1500;

/// How often a request is tried.
pub const MAX_ATTEMPTS: u32 = 3;

/// Seconds to wait after a failed attempt, counted from zero; nothing after the last one.
pub open spec fn delay_after(attempt: int) -> Option<int> {
    if attempt == 0 {
        Some(2)
    } else if attempt == 1 {
        Some(4)
    } else {
        None
    }
}

/// Seconds to wait after a failed attempt, counted from zero: two, then four. After the last
/// attempt there is no further one.
pub fn retry_delay_secs(attempt: u32) -> (r: Option<u64>)
    ensures
        match delay_after(attempt as int) {
            Some(secs) => r is Some && r->0 as int == secs,
            None => r is None,
        },
{
    if attempt == 0 {
        Some(2)
    } else if attempt == 1 {
        Some(4)
    } else {
        None
    }
}

/// The models of a list of candles.
pub open spec fn bars(v: Seq<Candle>) -> Seq<Bar> {
    v.map_values(|c: Candle| c@)
}

/// The candle that a summary stands for.
pub open spec fn bar_of_summary(k: KlineSummary) -> Option<Bar> {
    bar_of(k.open_time as int, k.open@, k.high@, k.low@, k.close@, k.volume@)
}

/// The candles of a list of summaries; those that cannot be read are left out.
pub open spec fn bars_of(s: Seq<KlineSummary>) -> Seq<Bar>
    decreases s.len(),
{
    if s.len() == 0 {
        Seq::empty()
    } else {
        let before = bars_of(s.drop_last());
        match bar_of_summary(s.last()) {
            Some(b) => before.push(b),
            None => before,
        }
    }
}

/// The candles of a page; those that cannot be read are left out.
pub fn candles_of_page(summaries: &Vec<KlineSummary>) -> (r: Vec<Candle>)
    ensures
        bars(r@) == bars_of(summaries@),
{
    let mut candles: Vec<Candle> = Vec::new();
    let mut i: usize = 0;
    assert(bars(candles@) =~= bars_of(summaries@.take(0)));
    while i < summaries.len()
        invariant
            i <= summaries.len(),
            bars(candles@) == bars_of(summaries@.take(i as int)),
        decreases summaries.len() - i,
    {
        let ghost next = summaries@.take(i + 1);
        assert(next.drop_last() =~= summaries@.take(i as int));
        assert(next.last() == summaries@[i as int]);
        match kline_summary_to_candle(&summaries[i]) {
            Some(c) => {
                let ghost before = candles@;
                candles.push(c);
                assert(bars(candles@) =~= bars(before).push(c@));
            },
            None => {},
        }
        i = i + 1;
    }
    assert(summaries@.take(i as int) =~= summaries@);
    candles
}

/// The candles are in the order of time, each later than the one before it.
pub open spec fn chronological(c: Seq<Bar>) -> bool {
    forall|i: int, j: int|
        0 <= i < j < c.len() ==> (#[trigger] c[i]).timestamp.millis() < (
        #[trigger] c[j]).timestamp.millis()
}

/// The model of a collection in progress: what was collected, oldest first, up to when the next
/// page reaches, and whether there is no further one.
pub struct Collected {
    pub candles: Seq<Bar>,
    pub end_time: Option<int>,
    pub exhausted: bool,
}

/// A moment in unsigned milliseconds: what is before the epoch wraps around.
pub open spec fn unsigned_millis(t: Moment) -> int {
    if t.millis() >= 0 {
        t.millis()
    } else {
        t.millis() + 18446744073709551616
    }
}

/// The newest candles of a list, as many as the target.
pub open spec fn newest(c: Seq<Bar>) -> Seq<Bar> {
    if c.len() > BACKFILL_TARGET {
        c.skip(c.len() - BACKFILL_TARGET)
    } else {
        c
    }
}

impl Collected {
    /// The collection after an older page: it goes before what is there, the next one ends a
    /// millisecond before its oldest candle, and a short page is the last one.
    pub open spec fn with_page(self, page: Seq<Bar>) -> Collected {
        Collected {
            candles: page + self.candles,
            end_time: Some(
                if unsigned_millis(page[0].timestamp) > 0 {
                    unsigned_millis(page[0].timestamp) - 1
                } else {
                    0
                },
            ),
            exhausted: page.len() < BINANCE_KLINES_LIMIT,
        }
    }

    /// Another page is needed.
    pub open spec fn wants_more(self) -> bool {
        self.candles.len() < BACKFILL_TARGET && !self.exhausted
    }
}

/// Pages that are each in the order of time, and each older than those before, make a collection
/// in the order of time; its newest candles are so too.
pub proof fn law_backfill_is_chronological(c: Collected, page: Seq<Bar>)
    requires
        page.len() > 0,
        chronological(c.candles),
        chronological(page),
        forall|i: int|
            0 <= i < c.candles.len() ==> page.last().timestamp.millis() < (
            #[trigger] c.candles[i]).timestamp.millis(),
    ensures
        chronological(c.with_page(page).candles),
        chronological(newest(c.with_page(page).candles)),
{
    let all = c.with_page(page).candles;
    assert forall|i: int, j: int| 0 <= i < j < all.len() implies (
    #[trigger] all[i]).timestamp.millis() < (#[trigger] all[j]).timestamp.millis() by {
        if j < page.len() {
            assert(page[i].timestamp.millis() < page[j].timestamp.millis());
        } else if i >= page.len() {
            assert(c.candles[i - page.len()].timestamp.millis() < c.candles[j
                - page.len()].timestamp.millis());
        } else {
            if i < page.len() - 1 {
                assert(page[i].timestamp.millis() < page[page.len() - 1].timestamp.millis());
            }
            assert(all[j] == c.candles[j - page.len()]);
        }
    }
    let n = newest(all);
    let k = all.len() - n.len();
    assert forall|i: int, j: int| 0 <= i < j < n.len() implies (#[trigger] n[i]).timestamp.millis()
        < (#[trigger] n[j]).timestamp.millis() by {
        assert(n[i] == all[i + k]);
        assert(n[j] == all[j + k]);
    }
}

/// A collection of historical candles.
#[derive(Debug)]
pub struct Backfill {
    candles: Vec<Candle>,
    end_time_ms: Option<u64>,
    exhausted: bool,
}

impl View for Backfill {
    type V = Collected;

    closed spec fn view(&self) -> Collected {
        Collected {
            candles: bars(self.candles@),
            end_time: match self.end_time_ms {
                Some(t) => Some(t as int),
                None => None,
            },
            exhausted: self.exhausted,
        }
    }
}

impl Backfill {
    /// Starts with nothing; the first page is the most recent one.
    pub fn new() -> (r: Backfill)
        ensures
            r@ == (Collected { candles: Seq::empty(), end_time: None, exhausted: false }),
    {
        let r = Backfill { candles: Vec::new(), end_time_ms: None, exhausted: false };
        assert(r@.candles =~= Seq::<Bar>::empty());
        r
    }

    /// Whether another page is needed.
    pub fn wants_more(&self) -> (r: bool)
        ensures
            r == self@.wants_more(),
    {
        self.candles.len() < BACKFILL_TARGET && !self.exhausted
    }

    /// Up to when the next page reaches, in milliseconds; nothing for the most recent page.
    pub fn end_time(&self) -> (r: Option<u64>)
        ensures
            match r {
                Some(t) => self@.end_time == Some(t as int),
                None => self@.end_time is None,
            },
    {
        self.end_time_ms
    }

    /// Number of candles collected.
    pub fn len(&self) -> (r: usize)
        ensures
            r == self@.candles.len(),
    {
        self.candles.len()
    }

    /// Takes an older page, oldest candle first.
    pub fn add_page(&mut self, page: Vec<Candle>)
        requires
            page@.len() > 0,
        ensures
            final(self)@ == old(self)@.with_page(bars(page@)),
    {
        let oldest: u64 = unsigned_time(&page[0].timestamp);
        let fetched: usize = page.len();
        let ghost first = bars(page@);
        let mut all = page;
        let mut i: usize = 0;
        let ghost rest = bars(self.candles@);
        assert(first + rest.take(0) =~= first);
        while i < self.candles.len()
            invariant
                i <= self.candles.len(),
                *self == *old(self),
                rest == bars(self.candles@),
                bars(all@) == first + rest.take(i as int),
            decreases self.candles.len() - i,
        {
            let ghost before = all@;
            all.push(self.candles[i]);
            assert(bars(all@) =~= bars(before).push(rest[i as int]));
            assert(rest.take(i + 1) =~= rest.take(i as int).push(rest[i as int]));
            assert(bars(all@) =~= first + rest.take(i + 1));
            i = i + 1;
        }
        assert(rest.take(i as int) =~= rest);
        assert(first[0] == page@[0]@);
        self.candles = all;
        self.end_time_ms =
        Some(
            if oldest > 0 {
                oldest - 1
            } else {
                0
            },
        );
        self.exhausted = fetched < BINANCE_KLINES_LIMIT as usize;
    }

    /// The candles in the order of time; of more than the target, the newest.
    pub fn finish(self) -> (r: Vec<Candle>)
        ensures
            bars(r@) == newest(self@.candles),
            r@.len() <= BACKFILL_TARGET,
    {
        if self.candles.len() <= BACKFILL_TARGET {
            return self.candles;
        }
        let skip: usize = self.candles.len() - BACKFILL_TARGET;
        let mut kept: Vec<Candle> = Vec::new();
        let mut i: usize = skip;
        let ghost all = bars(self.candles@);
        while i < self.candles.len()
            invariant
                skip <= i <= self.candles.len(),
                all == bars(self.candles@),
                bars(kept@) == all.subrange(skip as int, i as int),
            decreases self.candles.len() - i,
        {
            let ghost before = kept@;
            kept.push(self.candles[i]);
            i = i + 1;
            assert(bars(kept@) =~= bars(before).push(all[i - 1]));
            assert(bars(kept@) =~= all.subrange(skip as int, i as int));
        }
        assert(all.subrange(skip as int, i as int) =~= all.skip(skip as int));
        kept
    }
}

/// A moment in unsigned milliseconds.
pub fn unsigned_time(t: &Timestamp) -> (r: u64)
    ensures
        r as int == unsigned_millis(t@),
{
    let ms: i64 = t.timestamp_millis();
    if ms >= 0 {
        ms as u64
    } else {
        18446744073709551615 - (-(ms + 1)) as u64
    }
}

/// What is kept of a collection is its newest part: the last candle stays the last, the order stays,
/// and there are ten thousand of them where there were more, and all of them where there were not.
pub proof fn law_newest_are_kept(c: Seq<Bar>, i: int)
    ensures
        newest(c).len() == if c.len() > 10000 {
            10000
        } else {
            c.len()
        },
        c.len() > 0 ==> newest(c).last() == c.last(),
        0 <= i < newest(c).len() ==> newest(c)[newest(c).len() - 1 - i] == c[c.len() - 1 - i],
{
}

/// An older page goes before what there is, whole and in its order; the next page ends a millisecond
/// before its first candle; and it is the last page exactly when it has fewer than fifteen hundred
/// candles. Pages are asked for until there are ten thousand candles or no more.
pub proof fn law_pages_by_value(c: Collected, page: Seq<Bar>)
    requires
        page.len() > 0,
        page[0].timestamp.millis() > 0,
    ensures
        ({
            let after = c.with_page(page);
            &&& after.candles.len() == page.len() + c.candles.len()
            &&& after.candles.take(page.len() as int) == page
            &&& after.candles.skip(page.len() as int) == c.candles
            &&& after.end_time == Some(page[0].timestamp.millis() - 1)
            &&& after.exhausted == (page.len() < 1500)
            &&& after.wants_more() == (page.len() >= 1500 && after.candles.len() < 10000)
        }),
{
    let after = c.with_page(page);
    assert(after.candles.take(page.len() as int) =~= page);
    assert(after.candles.skip(page.len() as int) =~= c.candles);
}

/// The candles of a page keep the order of its entries, and each entry that can be read is one of them:
/// what is read of two pages together is what is read of each.
pub proof fn law_pages_are_read_in_order(a: Seq<KlineSummary>, b: Seq<KlineSummary>)
    ensures
        bars_of(a + b) == bars_of(a) + bars_of(b),
        bars_of(Seq::empty()).len() == 0,
        b.len() == 1 && bar_of_summary(b[0]) is Some ==> bars_of(b) == seq![
            bar_of_summary(b[0])->0,
        ],
        b.len() == 1 && bar_of_summary(b[0]) is None ==> bars_of(b).len() == 0,
    decreases b.len(),
{
    reveal_with_fuel(bars_of, 2);
    if b.len() == 0 {
        assert(a + b =~= a);
        assert(bars_of(a) + bars_of(b) =~= bars_of(a));
    } else {
        law_pages_are_read_in_order(a, b.drop_last());
        assert((a + b).drop_last() =~= a + b.drop_last());
        assert((a + b).last() == b.last());
        if b.len() == 1 {
            assert(b.drop_last() =~= Seq::<KlineSummary>::empty());
            if bar_of_summary(b[0]) is Some {
                assert(bars_of(b) =~= seq![bar_of_summary(b[0])->0]);
            }
        }
        assert(bars_of(a + b) =~= bars_of(a) + bars_of(b));
    }
}

/// A request is tried three times in all: there is a wait after each attempt but the third, and each
/// wait is twice as long as the one before it.
pub proof fn law_three_attempts(attempt: int)
    requires
        attempt >= 0,
    ensures
        delay_after(attempt) is Some <==> attempt + 1 < 3,
        delay_after(0) == Some(2int),
        delay_after(1) == Some(2 * delay_after(0)->0),
{
}

} // verus!
