//! Trades with take-profit targets.
use crate::decimal::{
    abs_opt, add_opt, aligned_sum, difference, difference_of, law_difference_is_exact,
    law_product_is_exact, law_product_is_rounded, law_sum_is_exact, lemma_pow10_positive,
    lemma_units_sign, magnitude_of, mul_opt, opt_view, pow10, product, product_of, rounds_to, sub_opt,
    sum_of, whole, zero, Balance, Dec, Decimal, Price, Volume,
};
use crate::time::{Moment, Timestamp};
use crate::types::position::Position;
use vstd::prelude::*;

verus! {

/// Take-profit target with price level and R-multiple.
#[derive(Clone, Copy, Debug, PartialEq)]
pub struct TakeProfitTarget {
    /// Target price level.
    pub price: Price,
    /// Risk-reward multiple (e.g., 2.0R, 3.0R).
    pub r_multiple: Decimal,
    /// Whether this target has been hit.
    pub hit: bool,
}

/// The model of a take-profit target.
pub struct Target {
    pub price: Dec,
    pub r_multiple: Dec,
    pub hit: bool,
}

impl View for TakeProfitTarget {
    type V = Target;

    open spec fn view(&self) -> Target {
        Target { price: self.price@, r_multiple: self.r_multiple@, hit: self.hit }
    }
}

impl TakeProfitTarget {
    /// Creates a new take-profit target.
    pub fn new(price: Price, r_multiple: Decimal) -> (r: TakeProfitTarget)
        ensures
            r@ == (Target { price: price@, r_multiple: r_multiple@, hit: false }),
    {
        TakeProfitTarget { price, r_multiple, hit: false }
    }
}

/// A price has reached a target of a position.
pub open spec fn target_reached(position: Position, target: Dec, price: Dec) -> bool {
    match position {
        Position::Long => price.units() >= target.units(),
        Position::Short => price.units() <= target.units(),
        Position::Flat => false,
    }
}

/// A price has reached the stop of a position.
pub open spec fn stop_reached(position: Position, stop: Dec, price: Dec) -> bool {
    match position {
        Position::Long => price.units() <= stop.units(),
        Position::Short => price.units() >= stop.units(),
        Position::Flat => false,
    }
}

/// The indices, below `n`, of the targets that a price reaches and that were not hit before.
pub open spec fn new_hits(
    targets: Seq<TakeProfitTarget>,
    position: Position,
    price: Dec,
    n: nat,
) -> Seq<usize>
    decreases n,
{
    if n == 0 {
        Seq::empty()
    } else {
        let t = targets[n - 1];
        let before = new_hits(targets, position, price, (n - 1) as nat);
        if !t.hit && target_reached(position, t.price@, price) {
            before.push((n - 1) as usize)
        } else {
            before
        }
    }
}

/// The distance between two prices.
pub open spec fn distance(a: Dec, b: Dec) -> Option<Dec> {
    magnitude_of(difference(a, b))
}

/// The price of a target: the entry price, and the risk times the multiple in the position's
/// favour.
pub open spec fn target_price(
    position: Position,
    entry: Dec,
    risk: Option<Dec>,
    multiple: Dec,
) -> Option<Dec> {
    let reward = product_of(risk, Some(multiple));
    match position {
        Position::Long => sum_of(Some(entry), reward),
        Position::Short => difference_of(Some(entry), reward),
        Position::Flat => if reward is Some {
            Some(entry)
        } else {
            None
        },
    }
}

/// A trade with entry, stop loss, and take-profit targets.
#[derive(Clone, Debug, PartialEq)]
pub struct Trade {
    /// Trading pair symbol (e.g., "BTCUSDT").
    pub symbol: String,
    /// Position direction.
    pub position: Position,
    /// Entry price.
    pub entry_price: Price,
    /// Stop loss price.
    pub stop_loss: Price,
    /// Position size in base currency.
    pub size: Volume,
    /// Take-profit targets (TP1 at 2.0R, TP2 at 3.0R).
    pub take_profits: Vec<TakeProfitTarget>,
    /// Trade open timestamp.
    pub opened_at: Timestamp,
    /// Trade close timestamp (if closed).
    pub closed_at: Option<Timestamp>,
    /// Realized PnL (profit/loss) in quote currency.
    pub realized_pnl: Option<Balance>,
}

/// The figures of a new trade can be held.
pub open spec fn trade_defined(position: Position, entry: Dec, stop: Dec) -> bool {
    &&& target_price(position, entry, distance(entry, stop), whole(2)) is Some
    &&& target_price(position, entry, distance(entry, stop), whole(3)) is Some
}

/// `t` is the trade that is opened at `now`: its two targets are at two and three times the risk.
pub open spec fn is_fresh_trade(
    t: Trade,
    symbol: Seq<char>,
    position: Position,
    entry: Dec,
    stop: Dec,
    size: Dec,
    now: Moment,
) -> bool {
    let risk = distance(entry, stop);
    &&& t.symbol@ == symbol
    &&& t.position == position
    &&& t.entry_price@ == entry
    &&& t.stop_loss@ == stop
    &&& t.size@ == size
    &&& t.take_profits@.len() == 2
    &&& t.take_profits@[0]@ == (Target {
        price: target_price(position, entry, risk, whole(2))->0,
        r_multiple: whole(2),
        hit: false,
    })
    &&& t.take_profits@[1]@ == (Target {
        price: target_price(position, entry, risk, whole(3))->0,
        r_multiple: whole(3),
        hit: false,
    })
    &&& t.opened_at@ == now
    &&& t.closed_at is None
    &&& t.realized_pnl is None
}

fn price_of_target(position: Position, entry: Price, risk: Option<Price>, multiple: Decimal) -> (r:
    Option<Price>)
    ensures
        opt_view(r) == target_price(position, entry@, opt_view(risk), multiple@),
{
    let reward = mul_opt(risk, Some(multiple));
    match position {
        Position::Long => add_opt(Some(entry), reward),
        Position::Short => sub_opt(Some(entry), reward),
        Position::Flat => {
            if reward.is_some() {
                Some(entry)
            } else {
                None
            }
        },
    }
}

impl Trade {
    /// Profit of the trade at a price.
    pub open spec fn pnl(self, price: Dec) -> Option<Dec> {
        let per_unit = match self.position {
            Position::Long => difference(price, self.entry_price@),
            Position::Short => difference(self.entry_price@, price),
            Position::Flat => Some(zero()),
        };
        product_of(per_unit, Some(self.size@))
    }

    /// The trade's risk as a whole.
    pub open spec fn risk(self) -> Option<Dec> {
        product_of(distance(self.entry_price@, self.stop_loss@), Some(self.size@))
    }

    /// Creates a trade with take-profit targets at 2.0R and 3.0R, opened at `now`.
    pub fn new_at(
        symbol: &str,
        position: Position,
        entry_price: Price,
        stop_loss: Price,
        size: Volume,
        now: Timestamp,
    ) -> (r: Option<Trade>)
        requires
            position.active(),
        ensures
            r is Some == trade_defined(position, entry_price@, stop_loss@),
            r is Some ==> is_fresh_trade(
                r->0,
                symbol@,
                position,
                entry_price@,
                stop_loss@,
                size@,
                now@,
            ),
    {
        let risk = abs_opt(entry_price.checked_sub(&stop_loss));
        let two = Decimal::new(2, 0);
        let three = Decimal::new(3, 0);
        let tp1_price = price_of_target(position, entry_price, risk, two)?;
        let tp2_price = price_of_target(position, entry_price, risk, three)?;
        let mut take_profits: Vec<TakeProfitTarget> = Vec::new();
        take_profits.push(TakeProfitTarget::new(tp1_price, two));
        take_profits.push(TakeProfitTarget::new(tp2_price, three));
        Some(
            Trade {
                symbol: symbol.to_owned(),
                position,
                entry_price,
                stop_loss,
                size,
                take_profits,
                opened_at: now,
                closed_at: None,
                realized_pnl: None,
            },
        )
    }

    /// Creates a new trade with take-profit targets at 2.0R and 3.0R.
    pub fn new(
        symbol: &str,
        position: Position,
        entry_price: Price,
        stop_loss: Price,
        size: Volume,
    ) -> (r: Trade)
        requires
            position.active(),
            trade_defined(position, entry_price@, stop_loss@),
        ensures
            is_fresh_trade(
                r,
                symbol@,
                position,
                entry_price@,
                stop_loss@,
                size@,
                r.opened_at@,
            ),
    {
        let now = Timestamp::now();
        Trade::new_at(symbol, position, entry_price, stop_loss, size, now).unwrap()
    }

    /// [`Trade::new`], or nothing without a position or where a figure cannot be held.
    pub fn checked_new(
        symbol: &str,
        position: Position,
        entry_price: Price,
        stop_loss: Price,
        size: Volume,
    ) -> (r: Option<Trade>)
        ensures
            r is Some == (position.active() && trade_defined(position, entry_price@, stop_loss@)),
            r is Some ==> is_fresh_trade(
                r->0,
                symbol@,
                position,
                entry_price@,
                stop_loss@,
                size@,
                r->0.opened_at@,
            ),
    {
        if !position.is_active() {
            return None;
        }
        let risk = abs_opt(entry_price.checked_sub(&stop_loss));
        if price_of_target(position, entry_price, risk, Decimal::new(2, 0)).is_none()
            || price_of_target(position, entry_price, risk, Decimal::new(3, 0)).is_none() {
            return None;
        }
        Some(Trade::new(symbol, position, entry_price, stop_loss, size))
    }

    /// Returns the risk amount per unit (entry to stop loss distance).
    pub fn risk_per_unit(&self) -> (r: Price)
        requires
            distance(self.entry_price@, self.stop_loss@) is Some,
        ensures
            Some(r@) == distance(self.entry_price@, self.stop_loss@),
    {
        abs_opt(self.entry_price.checked_sub(&self.stop_loss)).unwrap()
    }

    /// Returns the total risk for the position in quote currency.
    pub fn total_risk(&self) -> (r: Balance)
        requires
            self.risk() is Some,
        ensures
            Some(r@) == self.risk(),
    {
        self.risk_per_unit().checked_mul(&self.size).unwrap()
    }

    /// [`Trade::total_risk`], or nothing where it cannot be held.
    pub fn checked_total_risk(&self) -> (r: Option<Balance>)
        ensures
            opt_view(r) == self.risk(),
    {
        let per_unit = abs_opt(self.entry_price.checked_sub(&self.stop_loss));
        if mul_opt(per_unit, Some(self.size)).is_some() {
            Some(self.total_risk())
        } else {
            None
        }
    }

    /// Returns true if the trade is still open.
    pub fn is_open(&self) -> (r: bool)
        ensures
            r == (self.closed_at is None),
    {
        self.closed_at.is_none()
    }

    /// Checks if the stop loss has been hit given the current price.
    pub fn is_stopped_out(&self, current_price: Price) -> (r: bool)
        ensures
            r == stop_reached(self.position, self.stop_loss@, current_price@),
    {
        match self.position {
            Position::Long => current_price.le(&self.stop_loss),
            Position::Short => self.stop_loss.le(&current_price),
            Position::Flat => false,
        }
    }

    /// Updates take-profit targets based on current price.
    /// Returns the indices of newly hit targets: each is reported once.
    pub fn update_take_profits(&mut self, current_price: Price) -> (r: Vec<usize>)
        ensures
            r@ == new_hits(
                old(self).take_profits@,
                old(self).position,
                current_price@,
                old(self).take_profits@.len(),
            ),
            final(self).take_profits@.len() == old(self).take_profits@.len(),
            forall|i: int|
                0 <= i < old(self).take_profits@.len() ==> #[trigger] final(self).take_profits@[i]
                    == (TakeProfitTarget {
                    hit: old(self).take_profits@[i].hit || target_reached(
                        old(self).position,
                        old(self).take_profits@[i].price@,
                        current_price@,
                    ),
                    ..old(self).take_profits@[i]
                }),
            *final(self) == (Trade { take_profits: final(self).take_profits, ..*old(self) }),
    {
        let mut hit_indices: Vec<usize> = Vec::new();
        let mut i: usize = 0;
        while i < self.take_profits.len()
            invariant
                i <= self.take_profits.len(),
                self.take_profits@.len() == old(self).take_profits@.len(),
                *self == (Trade { take_profits: self.take_profits, ..*old(self) }),
                hit_indices@ == new_hits(
                    old(self).take_profits@,
                    old(self).position,
                    current_price@,
                    i as nat,
                ),
                forall|k: int|
                    i <= k < self.take_profits@.len() ==> #[trigger] self.take_profits@[k] == old(
                        self,
                    ).take_profits@[k],
                forall|k: int|
                    0 <= k < i ==> #[trigger] self.take_profits@[k] == (TakeProfitTarget {
                        hit: old(self).take_profits@[k].hit || target_reached(
                            old(self).position,
                            old(self).take_profits@[k].price@,
                            current_price@,
                        ),
                        ..old(self).take_profits@[k]
                    }),
            decreases self.take_profits.len() - i,
        {
            let tp = self.take_profits[i];
            let reached = match self.position {
                Position::Long => tp.price.le(&current_price),
                Position::Short => current_price.le(&tp.price),
                Position::Flat => false,
            };
            if !tp.hit && reached {
                self.take_profits.set(i, TakeProfitTarget { hit: true, ..tp });
                hit_indices.push(i);
            }
            i = i + 1;
        }
        hit_indices
    }

    fn pnl_of(&self, price: Price) -> (r: Option<Balance>)
        ensures
            opt_view(r) == self.pnl(price@),
    {
        let per_unit = match self.position {
            Position::Long => price.checked_sub(&self.entry_price),
            Position::Short => self.entry_price.checked_sub(&price),
            Position::Flat => Some(Decimal::zero()),
        };
        mul_opt(per_unit, Some(self.size))
    }

    /// Calculates unrealized PnL at the given price.
    pub fn unrealized_pnl(&self, current_price: Price) -> (r: Balance)
        requires
            self.pnl(current_price@) is Some,
        ensures
            Some(r@) == self.pnl(current_price@),
    {
        self.pnl_of(current_price).unwrap()
    }

    /// Closes the trade at `now` and calculates realized PnL.
    pub fn close_at(&mut self, exit_price: Price, now: Timestamp)
        requires
            old(self).pnl(exit_price@) is Some,
        ensures
            final(self).closed_at == Some(now),
            opt_view(final(self).realized_pnl) == old(self).pnl(exit_price@),
            *final(self) == (Trade {
                closed_at: final(self).closed_at,
                realized_pnl: final(self).realized_pnl,
                ..*old(self)
            }),
    {
        let pnl = self.unrealized_pnl(exit_price);
        self.closed_at = Some(now);
        self.realized_pnl = Some(pnl);
    }

    /// Closes the trade and calculates realized PnL.
    pub fn close(&mut self, exit_price: Price)
        requires
            old(self).pnl(exit_price@) is Some,
        ensures
            final(self).closed_at is Some,
            opt_view(final(self).realized_pnl) == old(self).pnl(exit_price@),
            *final(self) == (Trade {
                closed_at: final(self).closed_at,
                realized_pnl: final(self).realized_pnl,
                ..*old(self)
            }),
    {
        let now = Timestamp::now();
        self.close_at(exit_price, now);
    }

    /// [`Trade::close`], or `false` and no change where the profit cannot be held.
    pub fn checked_close(&mut self, exit_price: Price) -> (r: bool)
        ensures
            r == old(self).pnl(exit_price@) is Some,
            !r ==> *final(self) == *old(self),
            r ==> final(self).closed_at is Some && opt_view(final(self).realized_pnl) == old(
                self,
            ).pnl(exit_price@) && *final(self) == (Trade {
                closed_at: final(self).closed_at,
                realized_pnl: final(self).realized_pnl,
                ..*old(self)
            }),
    {
        if self.pnl_of(exit_price).is_none() {
            return false;
        }
        self.close(exit_price);
        true
    }
}

/// A target is reported once: after an update, another at the same price finds nothing new.
pub proof fn law_targets_hit_once(
    before: Seq<TakeProfitTarget>,
    after: Seq<TakeProfitTarget>,
    position: Position,
    price: Dec,
    n: nat,
)
    requires
        n <= before.len() == after.len(),
        forall|i: int|
            0 <= i < before.len() ==> #[trigger] after[i] == (TakeProfitTarget {
                hit: before[i].hit || target_reached(position, before[i].price@, price),
                ..before[i]
            }),
    ensures
        new_hits(after, position, price, n) == Seq::<usize>::empty(),
    decreases n,
{
    if n > 0 {
        law_targets_hit_once(before, after, position, price, (n - 1) as nat);
        assert(after[n - 1].price == before[n - 1].price);
    }
}

/// A multiple of the risk can be added to the entry and taken off it without loss.
pub open spec fn reward_fits(entry: Dec, stop: Dec, multiple: int) -> bool {
    let risk = distance(entry, stop)->0;
    let reward = Dec { m: risk.m * multiple, s: risk.s };
    reward.valid() && aligned_sum(entry, reward).valid() && aligned_sum(
        entry,
        reward.negated(),
    ).valid()
}

/// A target lies a multiple of the risk from the entry, above it for a long position and below it for
/// a short one, wherever the figures fit as they are. The risk is the distance from the entry to the
/// stop, on whichever side that is.
pub proof fn law_target_by_value(position: Position, entry: Dec, stop: Dec, multiple: int)
    requires
        entry.valid(),
        stop.valid(),
        0 <= multiple <= 1000,
        aligned_sum(entry, stop.negated()).valid(),
        reward_fits(entry, stop, multiple),
    ensures
        ({
            let risk = if entry.units() >= stop.units() {
                entry.units() - stop.units()
            } else {
                stop.units() - entry.units()
            };
            let price = target_price(position, entry, distance(entry, stop), whole(multiple));
            &&& distance(entry, stop) is Some && distance(entry, stop)->0.units() == risk
            &&& price is Some
            &&& position == Position::Long ==> price->0.units() == entry.units() + multiple * risk
            &&& position == Position::Short ==> price->0.units() == entry.units() - multiple * risk
        }),
{
    law_difference_is_exact(entry, stop);
    let d = difference(entry, stop)->0;
    let risk = d.magnitude();
    let w = pow10((28 - d.s) as nat);
    let m = d.m;
    lemma_pow10_positive((28 - d.s) as nat);
    lemma_units_sign(d);
    assert((-m) * w == -(m * w)) by (nonlinear_arith);
    let k = whole(multiple);
    let p = pow10(28);
    lemma_pow10_positive(28);
    assert(k.units() == multiple * p);
    law_product_is_exact(risk, k);
    let reward = product(risk, k)->0;
    let u = risk.units();
    assert(reward.units() == multiple * u) by (nonlinear_arith)
        requires
            reward.units() * p == u * (multiple * p),
            p >= 1,
    ;
    if reward.m == 0 {
        lemma_units_sign(zero());
    }
    lemma_same_reward(entry, Dec { m: risk.m * multiple, s: risk.s }, reward);
    law_sum_is_exact(entry, reward);
    law_difference_is_exact(entry, reward);
}

proof fn lemma_same_reward(entry: Dec, fitting: Dec, reward: Dec)
    requires
        entry.valid(),
        aligned_sum(entry, fitting).valid(),
        aligned_sum(entry, fitting.negated()).valid(),
        reward == fitting || (reward == zero() && fitting.m == 0),
    ensures
        aligned_sum(entry, reward).valid(),
        aligned_sum(entry, reward.negated()).valid(),
{
    if reward != fitting {
        let m = entry.m;
        assert(pow10(0) == 1);
        assert(m * 1 == m) by (nonlinear_arith);
        let x = pow10(entry.s);
        assert(0 * x == 0) by (nonlinear_arith);
    }
}

/// Which targets a price newly hits: each that it reaches, from below for a long position and from
/// above for a short one, and that was not hit before, once and in their order.
pub proof fn law_hits_by_value(targets: Seq<TakeProfitTarget>, position: Position, price: Dec, n: nat)
    requires
        n <= targets.len() <= usize::MAX,
    ensures
        forall|i: int|
            0 <= i < n ==> (new_hits(targets, position, price, n).contains(i as usize) <==> !(
            #[trigger] targets[i]).hit && {
                ||| position == Position::Long && price.units() >= targets[i].price@.units()
                ||| position == Position::Short && price.units() <= targets[i].price@.units()
            }),
        forall|k: int|
            0 <= k < new_hits(targets, position, price, n).len() ==> (#[trigger] new_hits(
                targets,
                position,
                price,
                n,
            )[k]) < n,
        forall|j: int, k: int|
            0 <= j < k < new_hits(targets, position, price, n).len() ==> (#[trigger] new_hits(
                targets,
                position,
                price,
                n,
            )[j]) < (#[trigger] new_hits(targets, position, price, n)[k]),
    decreases n,
{
    if n > 0 {
        law_hits_by_value(targets, position, price, (n - 1) as nat);
        let before = new_hits(targets, position, price, (n - 1) as nat);
        let all = new_hits(targets, position, price, n);
        assert forall|i: int| 0 <= i < n implies (all.contains(i as usize) <==> !(
        #[trigger] targets[i]).hit && {
            ||| position == Position::Long && price.units() >= targets[i].price@.units()
            ||| position == Position::Short && price.units() <= targets[i].price@.units()
        }) by {
            if i < n - 1 {
                if before.contains(i as usize) {
                    let k = choose|k: int| 0 <= k < before.len() && before[k] == i as usize;
                    assert(all[k] == i as usize);
                }
                if all.contains(i as usize) {
                    let k = choose|k: int| 0 <= k < all.len() && all[k] == i as usize;
                    assert(k < before.len());
                    assert(before[k] == i as usize);
                }
            } else {
                if all.len() > before.len() {
                    assert(all[before.len() as int] == i as usize);
                } else {
                    assert(all == before);
                }
            }
        }
    }
}

impl Trade {
    /// The profit of a trade is what the price has gained on the entry, or lost for a short position,
    /// times the size, rounded; its risk is the distance to the stop times the size.
    pub proof fn law_profit_by_value(self, price: Dec)
        requires
            self.entry_price@.valid(),
            self.stop_loss@.valid(),
            price.valid(),
            self.size@.valid(),
            aligned_sum(price, self.entry_price@.negated()).valid(),
            aligned_sum(self.entry_price@, price.negated()).valid(),
            aligned_sum(self.entry_price@, self.stop_loss@.negated()).valid(),
            self.pnl(price) is Some,
            self.risk() is Some,
        ensures
            rounds_to(
                (if self.position == Position::Long {
                    price.units() - self.entry_price@.units()
                } else if self.position == Position::Short {
                    self.entry_price@.units() - price.units()
                } else {
                    0
                }) * self.size@.units(),
                pow10(28),
                self.pnl(price)->0.units(),
            ),
            rounds_to(
                (if self.entry_price@.units() >= self.stop_loss@.units() {
                    self.entry_price@.units() - self.stop_loss@.units()
                } else {
                    self.stop_loss@.units() - self.entry_price@.units()
                }) * self.size@.units(),
                pow10(28),
                self.risk()->0.units(),
            ),
    {
        law_difference_is_exact(price, self.entry_price@);
        law_difference_is_exact(self.entry_price@, price);
        law_difference_is_exact(self.entry_price@, self.stop_loss@);
        lemma_units_sign(zero());
        let d = difference(self.entry_price@, self.stop_loss@)->0;
        let w = pow10((28 - d.s) as nat);
        let m = d.m;
        lemma_pow10_positive((28 - d.s) as nat);
        lemma_units_sign(d);
        assert((-m) * w == -(m * w)) by (nonlinear_arith);
        law_product_is_rounded(d.magnitude(), self.size@);
        match self.position {
            Position::Long => law_product_is_rounded(
                difference(price, self.entry_price@)->0,
                self.size@,
            ),
            Position::Short => law_product_is_rounded(
                difference(self.entry_price@, price)->0,
                self.size@,
            ),
            Position::Flat => law_product_is_rounded(zero(), self.size@),
        }
    }
}

/// A stop is to one side what a target is to the other: the price that stops a long position would be
/// the target of a short one. A price at the level itself reaches it, and between a stop and a target
/// on their own sides neither is reached.
pub proof fn law_stops_mirror_targets(position: Position, level: Dec, price: Dec)
    ensures
        stop_reached(position, level, price) == target_reached(position.other(), level, price),
        position.active() ==> stop_reached(position, level, level) && target_reached(
            position,
            level,
            level,
        ),
        position.active() && price.units() != level.units() ==> stop_reached(position, level, price)
            != target_reached(position, level, price),
        stop_reached(Position::Long, level, price) ==> price.units() <= level.units(),
        target_reached(Position::Long, level, price) ==> price.units() >= level.units(),
{
}

/// A new trade has two targets, at two and at three times its risk in its favour, none of them hit, and
/// is open without any profit, wherever the figures fit as they are.
pub proof fn law_fresh_trade_by_value(
    t: Trade,
    symbol: Seq<char>,
    position: Position,
    entry: Dec,
    stop: Dec,
    size: Dec,
    now: Moment,
)
    requires
        is_fresh_trade(t, symbol, position, entry, stop, size, now),
        entry.valid(),
        stop.valid(),
        aligned_sum(entry, stop.negated()).valid(),
        reward_fits(entry, stop, 2),
        reward_fits(entry, stop, 3),
    ensures
        ({
            let risk = if entry.units() >= stop.units() {
                entry.units() - stop.units()
            } else {
                stop.units() - entry.units()
            };
            &&& t.symbol@ == symbol && t.position == position && t.entry_price@ == entry
            &&& t.stop_loss@ == stop && t.size@ == size
            &&& t.take_profits@.len() == 2
            &&& !t.take_profits@[0].hit && !t.take_profits@[1].hit
            &&& position == Position::Long ==> {
                &&& t.take_profits@[0].price@.units() == entry.units() + 2 * risk
                &&& t.take_profits@[1].price@.units() == entry.units() + 3 * risk
            }
            &&& position == Position::Short ==> {
                &&& t.take_profits@[0].price@.units() == entry.units() - 2 * risk
                &&& t.take_profits@[1].price@.units() == entry.units() - 3 * risk
            }
            &&& t.opened_at@ == now && t.closed_at is None && t.realized_pnl is None
        }),
{
    law_target_by_value(position, entry, stop, 2);
    law_target_by_value(position, entry, stop, 3);
    assert(t.take_profits@[0]@.hit == t.take_profits@[0].hit);
    assert(t.take_profits@[1]@.hit == t.take_profits@[1].hit);
}

} // verus!
