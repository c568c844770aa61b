//! A breaker that trips when connections fail too often.
use crate::time::{Clock, Duration};
use crate::websocket::config;
use vstd::prelude::*;

verus! {

/// The model of a breaker: the times of the disconnections that still count, in nanoseconds of
/// its clock.
pub struct Breaker {
    pub times: Seq<u128>,
    pub limit: int,
    pub window: int,
    pub open: bool,
    /// The newest reading that the clock has kept.
    pub clock: int,
}

/// The time from `t` to `now`; zero where `t` is later.
pub open spec fn age(t: u128, now: u128) -> int {
    if now >= t {
        now - t
    } else {
        0
    }
}

impl Breaker {
    /// The breaker after a disconnection at `now`: those outside the window are forgotten, and it
    /// trips when as many as the limit are left.
    pub open spec fn recorded(self, now: u128) -> Breaker {
        let times = self.times.filter(|t: u128| age(t, now) < self.window).push(now);
        Breaker {
            times,
            open: self.open || times.len() >= self.limit,
            clock: if now as int > self.clock {
                now as int
            } else {
                self.clock
            },
            ..self
        }
    }

    /// The breaker after disconnections at each of the given times.
    pub open spec fn recorded_all(self, times: Seq<u128>) -> Breaker
        decreases times.len(),
    {
        if times.len() == 0 {
            self
        } else {
            self.recorded_all(times.drop_last()).recorded(times.last())
        }
    }

    /// The breaker has just been made or reset.
    pub open spec fn fresh(self) -> bool {
        self.times.len() == 0 && !self.open
    }
}

/// The times do not go back.
pub open spec fn in_order(times: Seq<u128>) -> bool {
    forall|i: int, j: int| 0 <= i < j < times.len() ==> #[trigger] times[i] <= #[trigger] times[j]
}

/// How many of the times are within the window before `now`.
pub open spec fn within(times: Seq<u128>, now: u128, window: int) -> nat {
    times.filter(|t: u128| age(t, now) < window).len()
}

proof fn lemma_filter_twice(s: Seq<u128>, p: spec_fn(u128) -> bool, q: spec_fn(u128) -> bool)
    requires
        forall|t: u128| #[trigger] p(t) ==> q(t),
    ensures
        s.filter(q).filter(p) == s.filter(p),
    decreases s.len(),
{
    reveal(Seq::filter);
    if s.len() > 0 {
        lemma_filter_twice(s.drop_last(), p, q);
        let f = s.drop_last().filter(q);
        let t = s.last();
        assert(f.push(t).drop_last() =~= f);
    } else {
        assert(s.filter(q) =~= s);
    }
}

/// Of the times that were recorded, none that still counts at `now` has been forgotten.
proof fn lemma_none_forgotten(b: Breaker, times: Seq<u128>, now: u128)
    requires
        b.fresh(),
        in_order(times.push(now)),
    ensures
        b.recorded_all(times).window == b.window,
        b.recorded_all(times).limit == b.limit,
        b.recorded_all(times).times.filter(|t: u128| age(t, now) < b.window) == times.filter(
            |t: u128| age(t, now) < b.window,
        ),
    decreases times.len(),
{
    let p = |t: u128| age(t, now) < b.window;
    reveal(Seq::filter);
    if times.len() == 0 {
        assert(b.times =~= times);
    } else {
        let rest = times.drop_last();
        let last = times.last();
        let all = times.push(now);
        assert forall|i: int, j: int| 0 <= i < j < rest.push(now).len() implies #[trigger] rest.push(
            now,
        )[i] <= #[trigger] rest.push(now)[j] by {
            if j < rest.len() {
                assert(all[i] <= all[j]);
            } else {
                assert(all[i] <= all[times.len() as int]);
            }
        }
        lemma_none_forgotten(b, rest, now);
        let q = |t: u128| age(t, last) < b.window;
        assert(all[times.len() - 1] <= all[times.len() as int]);
        let before = b.recorded_all(rest).times;
        lemma_filter_twice(before, p, q);
        assert(before.filter(q).push(last).drop_last() =~= before.filter(q));
    }
}

/// Since it was made or reset, a breaker has tripped at a disconnection exactly when it had tripped
/// before, or the disconnections within the window, this one counted, are as many as the limit.
pub proof fn law_counts_every_disconnection(b: Breaker, times: Seq<u128>, now: u128)
    requires
        b.fresh(),
        in_order(times.push(now)),
    ensures
        b.recorded_all(times.push(now)).open == (b.recorded_all(times).open || within(
            times,
            now,
            b.window,
        ) + 1 >= b.limit),
{
    assert(times.push(now).drop_last() =~= times);
    lemma_none_forgotten(b, times, now);
}

/// As many disconnections as the limit, all of them within the window before the last, trip a
/// breaker that was made or reset before them.
pub proof fn law_failures_in_the_window_trip(b: Breaker, times: Seq<u128>)
    requires
        b.fresh(),
        in_order(times),
        times.len() >= b.limit,
        times.len() > 0,
        times.last() - times[0] < b.window,
    ensures
        b.recorded_all(times).open,
{
    let rest = times.drop_last();
    let now = times.last();
    assert(rest.push(now) =~= times);
    law_counts_every_disconnection(b, rest, now);
    assert forall|i: int| 0 <= i < rest.len() implies age(#[trigger] rest[i], now) < b.window by {
        assert(rest[i] == times[i]);
        if i > 0 {
            assert(times[0] <= times[i]);
        }
        assert(times[i] <= times[times.len() - 1]);
    }
    lemma_keep_all(rest, |t: u128| age(t, now) < b.window);
}

/// A tripped breaker stays tripped, whatever is recorded.
pub proof fn law_tripped_stays(b: Breaker, now: u128)
    requires
        b.open,
    ensures
        b.recorded(now).open,
{
}

/// Disconnections that are all within the window count together: with one more than the limit
/// allows the breaker trips.
pub proof fn law_trips_at_the_limit(b: Breaker, now: u128)
    requires
        forall|i: int| 0 <= i < b.times.len() ==> age(#[trigger] b.times[i], now) < b.window,
        b.times.len() + 1 >= b.limit,
    ensures
        b.recorded(now).open,
        b.recorded(now).times == b.times.push(now),
{
    lemma_keep_all(b.times, |t: u128| age(t, now) < b.window);
}

proof fn lemma_kept_are_old(s: Seq<u128>, p: spec_fn(u128) -> bool)
    ensures
        forall|i: int| 0 <= i < s.filter(p).len() ==> s.contains(#[trigger] s.filter(p)[i]),
    decreases s.len(),
{
    reveal(Seq::filter);
    if s.len() > 0 {
        let rest = s.drop_last();
        lemma_kept_are_old(rest, p);
        assert forall|i: int| 0 <= i < s.filter(p).len() implies s.contains(
            #[trigger] s.filter(p)[i],
        ) by {
            if i < rest.filter(p).len() {
                let t = rest.filter(p)[i];
                assert(rest.contains(t));
                let k = choose|k: int| 0 <= k < rest.len() && rest[k] == t;
                assert(s[k] == t);
            } else {
                assert(s[s.len() - 1] == s.last());
            }
        }
    }
}

proof fn lemma_keep_all(s: Seq<u128>, p: spec_fn(u128) -> bool)
    requires
        forall|i: int| 0 <= i < s.len() ==> p(#[trigger] s[i]),
    ensures
        s.filter(p) == s,
    decreases s.len(),
{
    reveal(Seq::filter);
    if s.len() > 0 {
        lemma_keep_all(s.drop_last(), p);
        assert(p(s[s.len() - 1]));
        assert(s.drop_last().push(s.last()) =~= s);
    } else {
        assert(s.filter(p) =~= s);
    }
}

/// Circuit breaker for connection failures.
#[derive(Debug)]
pub struct CircuitBreaker {
    disconnections: Vec<u128>,
    limit: u32,
    window: Duration,
    is_open: bool,
    clock: Clock,
}

impl View for CircuitBreaker {
    type V = Breaker;

    closed spec fn view(&self) -> Breaker {
        Breaker {
            times: self.disconnections@,
            limit: self.limit as int,
            window: self.window@,
            open: self.is_open,
            clock: self.clock@,
        }
    }
}

impl CircuitBreaker {
    /// The clock has kept no reading that is before a disconnection.
    #[verifier::type_invariant]
    pub closed spec fn inv(self) -> bool {
        forall|i: int|
            0 <= i < self.disconnections@.len() ==> (#[trigger] self.disconnections@[i]) as int
                <= self.clock@
    }

    /// Creates a new circuit breaker.
    pub fn new(limit: u32, window: Duration) -> (r: CircuitBreaker)
        ensures
            r@ == (Breaker {
                times: Seq::empty(),
                limit: limit as int,
                window: window@,
                open: false,
                clock: 0,
            }),
    {
        CircuitBreaker {
            disconnections: Vec::new(),
            limit,
            window,
            is_open: false,
            clock: Clock::start(),
        }
    }

    /// Creates with default configuration: ten disconnections in five minutes.
    pub fn default_config() -> (r: CircuitBreaker)
        ensures
            r@ == (Breaker {
                times: Seq::empty(),
                limit: 10,
                window: 300000000000,
                open: false,
                clock: 0,
            }),
    {
        CircuitBreaker::new(
            config::CIRCUIT_BREAKER_LIMIT,
            Duration::from_secs(config::CIRCUIT_BREAKER_WINDOW),
        )
    }

    /// Records a disconnection at `now` and says whether the breaker is tripped.
    pub fn record_at(&mut self, now: u128) -> (r: bool)
        ensures
            final(self)@ == old(self)@.recorded(now),
            r == final(self)@.open,
    {
        let ghost window = self.window@;
        let ghost p = |t: u128| age(t, now) < window;
        let ghost all = self.disconnections@;
        let limit_nanos: u128 = self.window.as_nanos();
        let mut kept: Vec<u128> = Vec::new();
        let mut i: usize = 0;
        assert(all.take(0).filter(p) =~= Seq::<u128>::empty()) by {
            reveal(Seq::filter);
        }
        while i < self.disconnections.len()
            invariant
                i <= self.disconnections.len(),
                *self == *old(self),
                all == self.disconnections@,
                window == limit_nanos,
                p == (|t: u128| age(t, now) < window),
                kept@ == all.take(i as int).filter(p),
            decreases self.disconnections.len() - i,
        {
            let t: u128 = self.disconnections[i];
            let ghost next = all.take(i + 1);
            assert(next.drop_last() =~= all.take(i as int));
            assert(next.last() == t);
            assert(next.filter(p) == if p(t) {
                next.drop_last().filter(p).push(t)
            } else {
                next.drop_last().filter(p)
            }) by {
                reveal(Seq::filter);
            }
            let elapsed: u128 = if now >= t {
                now - t
            } else {
                0
            };
            if elapsed < limit_nanos {
                kept.push(t);
            }
            i = i + 1;
        }
        assert(all.take(i as int) =~= all);
        proof {
            use_type_invariant(&*self);
            lemma_kept_are_old(all, p);
        }
        kept.push(now);
        if kept.len() >= self.limit as usize {
            self.is_open = true;
        }
        let mut clock = self.clock;
        clock.keep(now);
        self.clock = clock;
        self.disconnections = kept;
        self.is_open
    }

    /// Records a disconnection at what the clock reads now, which is before no other that was
    /// recorded, and checks if circuit should trip.
    pub fn record_disconnection(&mut self) -> (r: bool)
        ensures
            r == final(self)@.open,
            final(self)@.clock >= old(self)@.clock,
            0 <= final(self)@.clock <= u128::MAX,
            final(self)@ == old(self)@.recorded(final(self)@.clock as u128),
            forall|i: int|
                0 <= i < old(self)@.times.len() ==> (#[trigger] old(self)@.times[i]) as int
                    <= final(self)@.clock,
    {
        proof {
            use_type_invariant(&*self);
        }
        let now: u128 = self.clock.read();
        self.record_at(now)
    }

    /// Returns true if circuit is open (bot should shutdown).
    pub fn is_tripped(&self) -> (r: bool)
        ensures
            r == self@.open,
    {
        self.is_open
    }

    /// Resets the circuit breaker.
    pub fn reset(&mut self)
        ensures
            final(self)@ == (Breaker { times: Seq::empty(), open: false, ..old(self)@ }),
    {
        self.disconnections = Vec::new();
        self.is_open = false;
    }
}

} // verus!
