//! Evaluation of a strategy's entry rules. The indicators are computed elsewhere, in floating
//! point; here is decided how many candles they need, and whether what they read meets the rules.
use crate::double::Double;
use crate::strategy::models::{
    ConfigError, EntryRule, MaCondition, RsiCondition, UserStrategyConfig,
};
use crate::text::{int_text, u64_text};
use crate::types::market::{Interval, MarketData};
use vstd::prelude::*;

verus! {

/// Errors that can occur during rule evaluation.
#[derive(Debug)]
pub enum EvaluatorError {
    /// There are not enough candles.
    InsufficientData { required: usize, got: usize, interval: Interval },
    /// An indicator could not be set up, with its message.
    IndicatorInit { indicator: String, source: String },
    /// The configuration is invalid.
    InvalidConfig(Vec<ConfigError>),
}

/// The name of an interval.
pub open spec fn interval_name(i: Interval) -> Seq<char> {
    match i {
        Interval::M15 => "M15"@,
        Interval::H1 => "H1"@,
        Interval::H4 => "H4"@,
    }
}

/// The message of a lack of candles.
pub fn insufficient_data_message(required: usize, got: usize, interval: Interval) -> (r: String)
    ensures
        r@ == "insufficient candle data: need at least "@ + int_text(required as int)
            + " candles on "@ + interval_name(interval) + ", got "@ + int_text(got as int),
{
    let name = match interval {
        Interval::M15 => "M15",
        Interval::H1 => "H1",
        Interval::H4 => "H4",
    };
    "insufficient candle data: need at least ".to_owned().concat(
        u64_text(required as u64).as_str(),
    ).concat(" candles on ").concat(name).concat(", got ").concat(u64_text(got as u64).as_str())
}

/// What an indicator reads on the last two candles.
#[derive(Clone, Debug)]
pub enum Reading {
    /// The last two values of the RSI.
    Rsi { previous: Double, current: Double },
    /// The last two closes, and the last two values of an average.
    PriceAverage {
        previous_close: Double,
        current_close: Double,
        previous: Double,
        current: Double,
    },
    /// The last two values of a fast and a slow average.
    TwoAverages {
        previous_fast: Double,
        current_fast: Double,
        previous_slow: Double,
        current_slow: Double,
    },
    /// The last volume, and what it has to exceed.
    Volume { current: Double, threshold: Double },
    /// The indicator could not be set up.
    Failed { indicator: String, source: String },
}

/// The RSI meets a condition.
pub open spec fn rsi_meets(c: RsiCondition, previous: Double, current: Double, t: Double) -> bool {
    match c {
        RsiCondition::IsBelow => current.below(t),
        RsiCondition::IsAbove => t.below(current),
        RsiCondition::CrossesAbove => previous.below(t) && t.at_most(current),
        RsiCondition::CrossesBelow => t.below(previous) && current.at_most(t),
    }
}

/// A line meets a condition against another: price and average, or fast and slow average.
pub open spec fn line_meets(
    c: MaCondition,
    previous: Double,
    current: Double,
    previous_base: Double,
    current_base: Double,
) -> bool {
    match c {
        MaCondition::PriceIsAbove => current_base.below(current),
        MaCondition::PriceIsBelow => current.below(current_base),
        MaCondition::PriceCrossesAbove | MaCondition::FastCrossesSlow => previous.at_most(
            previous_base,
        ) && current_base.below(current),
        MaCondition::PriceCrossesBelow | MaCondition::FastCrossesBelow => previous_base.at_most(
            previous,
        ) && current.below(current_base),
    }
}

/// A line never crosses another in both directions at once, and what crosses above is above.
pub proof fn law_crossings_exclude_each_other(
    previous: Double,
    current: Double,
    previous_base: Double,
    current_base: Double,
)
    ensures
        !(line_meets(
            MaCondition::PriceCrossesAbove,
            previous,
            current,
            previous_base,
            current_base,
        ) && line_meets(
            MaCondition::PriceCrossesBelow,
            previous,
            current,
            previous_base,
            current_base,
        )),
        line_meets(
            MaCondition::PriceCrossesAbove,
            previous,
            current,
            previous_base,
            current_base,
        ) ==> line_meets(
            MaCondition::PriceIsAbove,
            previous,
            current,
            previous_base,
            current_base,
        ),
        line_meets(
            MaCondition::PriceCrossesBelow,
            previous,
            current,
            previous_base,
            current_base,
        ) ==> line_meets(
            MaCondition::PriceIsBelow,
            previous,
            current,
            previous_base,
            current_base,
        ),
{
}

/// Whether the RSI meets a condition.
pub fn rsi_passes(condition: RsiCondition, previous: Double, current: Double, threshold: Double) -> (r:
    bool)
    ensures
        r == rsi_meets(condition, previous, current, threshold),
{
    match condition {
        RsiCondition::IsBelow => current.lt(&threshold),
        RsiCondition::IsAbove => threshold.lt(&current),
        RsiCondition::CrossesAbove => previous.lt(&threshold) && threshold.le(&current),
        RsiCondition::CrossesBelow => threshold.lt(&previous) && current.le(&threshold),
    }
}

/// Whether a line meets a condition against another.
pub fn line_passes(
    condition: MaCondition,
    previous: Double,
    current: Double,
    previous_base: Double,
    current_base: Double,
) -> (r: bool)
    ensures
        r == line_meets(condition, previous, current, previous_base, current_base),
{
    match condition {
        MaCondition::PriceIsAbove => current_base.lt(&current),
        MaCondition::PriceIsBelow => current.lt(&current_base),
        MaCondition::PriceCrossesAbove | MaCondition::FastCrossesSlow => previous.le(
            &previous_base,
        ) && current_base.lt(&current),
        MaCondition::PriceCrossesBelow | MaCondition::FastCrossesBelow => previous_base.le(
            &previous,
        ) && current.lt(&current_base),
    }
}

/// The timeframe of a rule.
pub open spec fn interval_of(rule: EntryRule) -> Interval {
    match rule {
        EntryRule::Rsi(r) => r.interval,
        EntryRule::Ma(r) => r.interval,
        EntryRule::Volume(r) => r.interval,
    }
}

/// The number of candles that a rule needs: its longest lookback, and two more candles to see a
/// crossing, or one more to compare the volume of.
pub open spec fn candles_needed(rule: EntryRule) -> int {
    match rule {
        EntryRule::Rsi(r) => r.lookback + 2,
        EntryRule::Ma(r) => match r.slow_lookback {
            Some(slow) => slow + 2,
            None => r.lookback + 2,
        },
        EntryRule::Volume(r) => r.lookback + 1,
    }
}

/// The timeframe of a rule.
pub fn rule_interval(rule: &EntryRule) -> (r: Interval)
    ensures
        r == interval_of(*rule),
{
    match rule {
        EntryRule::Rsi(r) => r.interval,
        EntryRule::Ma(r) => r.interval,
        EntryRule::Volume(r) => r.interval,
    }
}

/// The number of candles that a rule needs.
pub fn required_candles(rule: &EntryRule) -> (r: usize)
    requires
        candles_needed(*rule) <= usize::MAX,
    ensures
        r as int == candles_needed(*rule),
{
    match rule {
        EntryRule::Rsi(r) => r.lookback + 2,
        EntryRule::Ma(r) => match r.slow_lookback {
            Some(slow) => slow + 2,
            None => r.lookback + 2,
        },
        EntryRule::Volume(r) => r.lookback + 1,
    }
}

/// The place where the window of a volume average starts, among `candles` volumes of which the
/// last is the current one: as many before the current one as the lookback says, or all there are.
pub fn volume_window_start(candles: usize, lookback: usize) -> (r: usize)
    requires
        candles >= 1,
    ensures
        r as int == if candles - 1 >= lookback {
            candles - 1 - lookback
        } else {
            0
        },
{
    if candles - 1 >= lookback {
        candles - 1 - lookback
    } else {
        0
    }
}

/// The reading is of the kind that the rule asks for, or says that the indicator failed.
pub open spec fn fits(rule: EntryRule, reading: Reading) -> bool {
    reading is Failed || match rule {
        EntryRule::Rsi(_) => reading is Rsi,
        EntryRule::Ma(r) => if r.condition.needs_slow() {
            reading is TwoAverages
        } else {
            reading is PriceAverage
        },
        EntryRule::Volume(_) => reading is Volume,
    }
}

/// The reading meets the rule.
pub open spec fn meets(rule: EntryRule, reading: Reading) -> bool {
    match (rule, reading) {
        (EntryRule::Rsi(r), Reading::Rsi { previous, current }) => rsi_meets(
            r.condition,
            previous,
            current,
            r.threshold,
        ),
        (
            EntryRule::Ma(r),
            Reading::PriceAverage { previous_close, current_close, previous, current },
        ) => line_meets(r.condition, previous_close, current_close, previous, current),
        (
            EntryRule::Ma(r),
            Reading::TwoAverages { previous_fast, current_fast, previous_slow, current_slow },
        ) => line_meets(r.condition, previous_fast, current_fast, previous_slow, current_slow),
        (EntryRule::Volume(_), Reading::Volume { current, threshold }) => threshold.below(current),
        _ => false,
    }
}

/// The model of an evaluation's result.
pub enum Verdict {
    Signal(bool),
    Insufficient { required: int, got: int, interval: Interval },
    Failed { indicator: Seq<char>, source: Seq<char> },
    Invalid(Seq<ConfigError>),
}

/// The model of a result.
pub open spec fn verdict(r: Result<bool, EvaluatorError>) -> Verdict {
    match r {
        Ok(b) => Verdict::Signal(b),
        Err(EvaluatorError::InsufficientData { required, got, interval }) => Verdict::Insufficient {
            required: required as int,
            got: got as int,
            interval,
        },
        Err(EvaluatorError::IndicatorInit { indicator, source }) => Verdict::Failed {
            indicator: indicator@,
            source: source@,
        },
        Err(EvaluatorError::InvalidConfig(e)) => Verdict::Invalid(e@),
    }
}

/// There are enough candles for a rule.
pub open spec fn enough(md: MarketData, rule: EntryRule) -> bool {
    md.of_interval(interval_of(rule)).len() >= candles_needed(rule)
}

/// What the rules from a place on come to: the first that lacks candles, whose indicator failed or
/// that is not met decides; where there is none, the signal is given.
pub open spec fn rules_verdict(
    md: MarketData,
    rules: Seq<EntryRule>,
    readings: Seq<Option<Reading>>,
    from: int,
) -> Verdict
    decreases rules.len() - from,
{
    if from < 0 || from >= rules.len() {
        Verdict::Signal(true)
    } else if !enough(md, rules[from]) {
        Verdict::Insufficient {
            required: candles_needed(rules[from]),
            got: md.of_interval(interval_of(rules[from])).len() as int,
            interval: interval_of(rules[from]),
        }
    } else {
        match readings[from] {
            Some(Reading::Failed { indicator, source }) => Verdict::Failed {
                indicator: indicator@,
                source: source@,
            },
            Some(reading) => if meets(rules[from], reading) {
                rules_verdict(md, rules, readings, from + 1)
            } else {
                Verdict::Signal(false)
            },
            None => Verdict::Signal(false),
        }
    }
}

/// What a configuration comes to: an invalid one is refused before any rule is looked at.
pub open spec fn config_verdict(
    md: MarketData,
    config: UserStrategyConfig,
    readings: Seq<Option<Reading>>,
) -> Verdict {
    if config.faults().len() > 0 {
        Verdict::Invalid(config.faults())
    } else {
        rules_verdict(md, config.entry_rules@, readings, 0)
    }
}

/// There is a reading, of the right kind, for each rule that has enough candles.
pub open spec fn readings_fit(
    md: MarketData,
    rules: Seq<EntryRule>,
    readings: Seq<Option<Reading>>,
) -> bool {
    &&& readings.len() == rules.len()
    &&& forall|i: int|
        0 <= i < rules.len() && enough(md, #[trigger] rules[i]) ==> readings[i] is Some && fits(
            rules[i],
            readings[i]->0,
        )
}

/// What evaluating a configuration takes: fitting readings, and a number of candles that can be
/// counted for each rule.
pub open spec fn evaluation_fits(
    md: MarketData,
    config: UserStrategyConfig,
    readings: Seq<Option<Reading>>,
) -> bool {
    &&& readings_fit(md, config.entry_rules@, readings)
    &&& forall|i: int|
        0 <= i < config.entry_rules@.len() ==> candles_needed(#[trigger] config.entry_rules@[i])
            <= usize::MAX
}

/// The rules from a place on are all met.
pub open spec fn all_met(
    md: MarketData,
    rules: Seq<EntryRule>,
    readings: Seq<Option<Reading>>,
    from: int,
) -> bool {
    forall|i: int|
        from <= i < rules.len() ==> enough(md, #[trigger] rules[i]) && readings[i] is Some && meets(
            rules[i],
            readings[i]->0,
        )
}

/// The signal is given exactly when every rule has enough candles and is met.
pub proof fn law_all_rules_must_hold(
    md: MarketData,
    rules: Seq<EntryRule>,
    readings: Seq<Option<Reading>>,
    from: int,
)
    requires
        0 <= from,
    ensures
        (rules_verdict(md, rules, readings, from) == Verdict::Signal(true)) == all_met(
            md,
            rules,
            readings,
            from,
        ),
    decreases rules.len() - from,
{
    if from < rules.len() {
        law_all_rules_must_hold(md, rules, readings, from + 1);
        let rule = rules[from];
        if enough(md, rule) && readings[from] is Some && meets(rule, readings[from]->0) {
            assert(!(readings[from]->0 is Failed));
            assert(all_met(md, rules, readings, from) == all_met(md, rules, readings, from + 1));
        }
    }
}

/// Every rule has enough candles, and no indicator has failed.
pub open spec fn evaluable(
    md: MarketData,
    rules: Seq<EntryRule>,
    readings: Seq<Option<Reading>>,
) -> bool {
    &&& readings.len() == rules.len()
    &&& forall|i: int|
        0 <= i < rules.len() ==> enough(md, #[trigger] rules[i]) && readings[i] is Some && !(
        readings[i]->0 is Failed)
}

/// Where every rule can be evaluated, the result is whether each of them is met by itself.
pub proof fn law_signal_is_conjunction(
    md: MarketData,
    rules: Seq<EntryRule>,
    readings: Seq<Option<Reading>>,
    from: int,
)
    requires
        0 <= from <= rules.len(),
        evaluable(md, rules, readings),
    ensures
        rules_verdict(md, rules, readings, from) == Verdict::Signal(
            all_met(md, rules, readings, from),
        ),
    decreases rules.len() - from,
{
    law_all_rules_must_hold(md, rules, readings, from);
    if from < rules.len() {
        law_signal_is_conjunction(md, rules, readings, from + 1);
        assert(enough(md, rules[from]) && readings[from] is Some);
        if meets(rules[from], readings[from]->0) {
            assert(all_met(md, rules, readings, from) == all_met(md, rules, readings, from + 1));
        }
    }
}

/// `order` names each of the first `n` numbers.
pub open spec fn reorders(order: Seq<int>, n: nat) -> bool {
    &&& order.len() == n
    &&& forall|i: int| 0 <= i < n ==> 0 <= #[trigger] order[i] < n
    &&& forall|j: int| 0 <= j < n ==> #[trigger] order.contains(j)
}

/// The order of the rules is of no account: the same rules in another order give the same signal.
pub proof fn law_order_of_rules_is_free(
    md: MarketData,
    rules: Seq<EntryRule>,
    readings: Seq<Option<Reading>>,
    order: Seq<int>,
)
    requires
        evaluable(md, rules, readings),
        reorders(order, rules.len()),
    ensures
        ({
            let rules2 = Seq::new(rules.len(), |i: int| rules[order[i]]);
            let readings2 = Seq::new(rules.len(), |i: int| readings[order[i]]);
            rules_verdict(md, rules2, readings2, 0) == rules_verdict(md, rules, readings, 0)
        }),
{
    let rules2 = Seq::new(rules.len(), |i: int| rules[order[i]]);
    let readings2 = Seq::new(rules.len(), |i: int| readings[order[i]]);
    assert forall|i: int| 0 <= i < rules2.len() implies enough(md, #[trigger] rules2[i])
        && readings2[i] is Some && !(readings2[i]->0 is Failed) by {
        assert(enough(md, rules[order[i]]));
    }
    law_signal_is_conjunction(md, rules, readings, 0);
    law_signal_is_conjunction(md, rules2, readings2, 0);
    if all_met(md, rules, readings, 0) {
        assert forall|i: int| 0 <= i < rules2.len() implies enough(md, #[trigger] rules2[i])
            && readings2[i] is Some && meets(rules2[i], readings2[i]->0) by {
            assert(enough(md, rules[order[i]]));
        }
    }
    if all_met(md, rules2, readings2, 0) {
        assert forall|j: int| 0 <= j < rules.len() implies enough(md, #[trigger] rules[j])
            && readings[j] is Some && meets(rules[j], readings[j]->0) by {
            assert(order.contains(j));
            let i = choose|i: int| 0 <= i < order.len() && order[i] == j;
            assert(enough(md, rules2[i]));
        }
    }
}

/// A further rule turns no refusal into a signal.
pub proof fn law_further_rules_only_refuse(
    md: MarketData,
    rules: Seq<EntryRule>,
    readings: Seq<Option<Reading>>,
    rule: EntryRule,
    reading: Option<Reading>,
    from: int,
)
    requires
        0 <= from <= rules.len() == readings.len(),
        rules_verdict(md, rules, readings, from) == Verdict::Signal(false),
    ensures
        rules_verdict(md, rules.push(rule), readings.push(reading), from) == Verdict::Signal(false),
    decreases rules.len() - from,
{
    if from < rules.len() {
        assert(rules.push(rule)[from] == rules[from]);
        assert(readings.push(reading)[from] == readings[from]);
        if enough(md, rules[from]) && readings[from] is Some && meets(
            rules[from],
            readings[from]->0,
        ) {
            law_further_rules_only_refuse(md, rules, readings, rule, reading, from + 1);
        }
    }
}

/// Evaluates a strategy's entry rules.
#[derive(Clone, Copy, Debug, PartialEq, Eq, Structural)]
pub struct RuleEvaluator {}

impl Default for RuleEvaluator {
    fn default() -> (r: RuleEvaluator)
        ensures
            r == (RuleEvaluator {  }),
    {
        RuleEvaluator {  }
    }
}

impl RuleEvaluator {
    /// Creates a new stateless evaluator.
    pub fn new() -> (r: RuleEvaluator)
        ensures
            r == (RuleEvaluator {  }),
    {
        RuleEvaluator {  }
    }

    /// Whether the reading meets the rule.
    pub fn passes(&self, rule: &EntryRule, reading: &Reading) -> (r: bool)
        ensures
            r == meets(*rule, *reading),
    {
        match (rule, reading) {
            (EntryRule::Rsi(r), Reading::Rsi { previous, current }) => rsi_passes(
                r.condition,
                *previous,
                *current,
                r.threshold,
            ),
            (
                EntryRule::Ma(r),
                Reading::PriceAverage { previous_close, current_close, previous, current },
            ) => line_passes(r.condition, *previous_close, *current_close, *previous, *current),
            (
                EntryRule::Ma(r),
                Reading::TwoAverages { previous_fast, current_fast, previous_slow, current_slow },
            ) => line_passes(
                r.condition,
                *previous_fast,
                *current_fast,
                *previous_slow,
                *current_slow,
            ),
            (EntryRule::Volume(_), Reading::Volume { current, threshold }) => threshold.lt(
                current,
            ),
            _ => false,
        }
    }

    /// Evaluates all entry rules of a configuration on market data, with what the indicators read
    /// for each of them.
    ///
    /// Returns `Ok(true)` when **all** conditions are satisfied, `Ok(false)` when at least one
    /// fails, and an error when data is insufficient or the configuration is invalid.
    pub fn evaluate(
        &self,
        market_data: &MarketData,
        config: &UserStrategyConfig,
        readings: &Vec<Option<Reading>>,
    ) -> (r: Result<bool, EvaluatorError>)
        requires
            config.faults().len() == 0 ==> evaluation_fits(*market_data, *config, readings@),
        ensures
            verdict(r) == config_verdict(*market_data, *config, readings@),
    {
        let errors = config.validate();
        if errors.len() > 0 {
            return Err(EvaluatorError::InvalidConfig(errors));
        }
        let mut i: usize = 0;
        while i < config.entry_rules.len()
            invariant
                i <= config.entry_rules.len(),
                readings_fit(*market_data, config.entry_rules@, readings@),
                forall|k: int|
                    0 <= k < config.entry_rules@.len() ==> candles_needed(
                        #[trigger] config.entry_rules@[k],
                    ) <= usize::MAX,
                config.faults().len() == 0,
                rules_verdict(*market_data, config.entry_rules@, readings@, 0) == rules_verdict(
                    *market_data,
                    config.entry_rules@,
                    readings@,
                    i as int,
                ),
            decreases config.entry_rules.len() - i,
        {
            let rule = &config.entry_rules[i];
            let interval = rule_interval(rule);
            let required: usize = required_candles(rule);
            let got: usize = market_data.candles(interval).len();
            if got < required {
                return Err(EvaluatorError::InsufficientData { required, got, interval });
            }
            match &readings[i] {
                Some(Reading::Failed { indicator, source }) => {
                    return Err(
                        EvaluatorError::IndicatorInit {
                            indicator: indicator.clone(),
                            source: source.clone(),
                        },
                    );
                },
                Some(reading) => {
                    if !self.passes(rule, reading) {
                        return Ok(false);
                    }
                },
                None => {
                    return Ok(false);
                },
            }
            i = i + 1;
        }
        Ok(true)
    }
}

/// The RSI conditions on readings that are not negative, as an RSI is, by the order of their
/// encodings: an RSI is below or above the threshold by its present value; it has crossed it only
/// where it lay strictly on the one side before and has reached the threshold or the other side now.
pub proof fn law_rsi_conditions_by_order(previous: Double, current: Double, t: Double)
    requires
        previous.bits <= 0x7FF0000000000000,
        current.bits <= 0x7FF0000000000000,
        t.bits <= 0x7FF0000000000000,
    ensures
        current.bits < t.bits <==> rsi_meets(RsiCondition::IsBelow, previous, current, t),
        current.bits > t.bits <==> rsi_meets(RsiCondition::IsAbove, previous, current, t),
        previous.bits < t.bits <= current.bits <==> rsi_meets(
            RsiCondition::CrossesAbove,
            previous,
            current,
            t,
        ),
        previous.bits > t.bits >= current.bits <==> rsi_meets(
            RsiCondition::CrossesBelow,
            previous,
            current,
            t,
        ),
{
}

/// How the RSI conditions of one candle and of the candle before it relate: a crossing above is
/// signalled only where the RSI was below the threshold on the candle before and is not below it
/// now, and never beside a crossing below; and a crossing is signalled whenever the RSI has passed
/// from the one side to the other.
pub proof fn law_rsi_crossing_spans_two_candles(
    earlier: Double,
    previous: Double,
    current: Double,
    t: Double,
)
    ensures
        rsi_meets(RsiCondition::CrossesAbove, previous, current, t) ==> rsi_meets(
            RsiCondition::IsBelow,
            earlier,
            previous,
            t,
        ) && !rsi_meets(RsiCondition::IsBelow, previous, current, t) && !rsi_meets(
            RsiCondition::CrossesBelow,
            previous,
            current,
            t,
        ),
        rsi_meets(RsiCondition::CrossesBelow, previous, current, t) ==> rsi_meets(
            RsiCondition::IsAbove,
            earlier,
            previous,
            t,
        ) && !rsi_meets(RsiCondition::IsAbove, previous, current, t),
        rsi_meets(RsiCondition::IsBelow, earlier, previous, t) && rsi_meets(
            RsiCondition::IsAbove,
            previous,
            current,
            t,
        ) ==> rsi_meets(RsiCondition::CrossesAbove, previous, current, t),
        rsi_meets(RsiCondition::IsAbove, earlier, previous, t) && rsi_meets(
            RsiCondition::IsBelow,
            previous,
            current,
            t,
        ) ==> rsi_meets(RsiCondition::CrossesBelow, previous, current, t),
        // An RSI that has not moved has crossed nothing.
        !rsi_meets(RsiCondition::CrossesAbove, current, current, t),
        !rsi_meets(RsiCondition::CrossesBelow, current, current, t),
        !(rsi_meets(RsiCondition::IsAbove, previous, current, t) && rsi_meets(
            RsiCondition::IsBelow,
            previous,
            current,
            t,
        )),
{
}

/// The conditions of a line against another, on values that are not negative, by the order of their
/// encodings: a line is above another by the present values; it has crossed it where it was not on
/// that side before and is strictly on it now. A fast average crosses a slow one as a price crosses
/// an average.
pub proof fn law_line_conditions_by_order(
    previous: Double,
    current: Double,
    previous_base: Double,
    current_base: Double,
)
    requires
        previous.bits <= 0x7FF0000000000000,
        current.bits <= 0x7FF0000000000000,
        previous_base.bits <= 0x7FF0000000000000,
        current_base.bits <= 0x7FF0000000000000,
    ensures
        current.bits > current_base.bits <==> line_meets(
            MaCondition::PriceIsAbove,
            previous,
            current,
            previous_base,
            current_base,
        ),
        current.bits < current_base.bits <==> line_meets(
            MaCondition::PriceIsBelow,
            previous,
            current,
            previous_base,
            current_base,
        ),
        previous.bits <= previous_base.bits && current.bits > current_base.bits <==> line_meets(
            MaCondition::PriceCrossesAbove,
            previous,
            current,
            previous_base,
            current_base,
        ),
        previous.bits <= previous_base.bits && current.bits > current_base.bits <==> line_meets(
            MaCondition::FastCrossesSlow,
            previous,
            current,
            previous_base,
            current_base,
        ),
        previous.bits >= previous_base.bits && current.bits < current_base.bits <==> line_meets(
            MaCondition::PriceCrossesBelow,
            previous,
            current,
            previous_base,
            current_base,
        ),
        previous.bits >= previous_base.bits && current.bits < current_base.bits <==> line_meets(
            MaCondition::FastCrossesBelow,
            previous,
            current,
            previous_base,
            current_base,
        ),
{
}

/// What turned over turns the conditions over: where the two lines change places, above becomes
/// below, and a crossing above a crossing below.
pub proof fn law_lines_change_places(
    previous: Double,
    current: Double,
    previous_base: Double,
    current_base: Double,
)
    ensures
        line_meets(MaCondition::PriceIsAbove, previous, current, previous_base, current_base)
            == line_meets(
            MaCondition::PriceIsBelow,
            previous_base,
            current_base,
            previous,
            current,
        ),
        line_meets(MaCondition::PriceCrossesAbove, previous, current, previous_base, current_base)
            == line_meets(
            MaCondition::PriceCrossesBelow,
            previous_base,
            current_base,
            previous,
            current,
        ),
        line_meets(MaCondition::FastCrossesSlow, previous, current, previous_base, current_base)
            == line_meets(
            MaCondition::FastCrossesBelow,
            previous_base,
            current_base,
            previous,
            current,
        ),
        // Lines that have not moved have not crossed.
        !line_meets(MaCondition::PriceCrossesAbove, current, current, current_base, current_base),
        !line_meets(MaCondition::PriceCrossesBelow, current, current, current_base, current_base),
{
}

/// Which part of a reading a rule looks at: the RSI against the rule's own threshold, the closes
/// against the average, the fast average against the slow one, and the volume against what it has to
/// exceed, strictly. A reading of another kind, or of an indicator that failed, meets no rule.
pub proof fn law_readings_meet_their_rules(rule: EntryRule, reading: Reading)
    ensures
        reading is Failed ==> !meets(rule, reading),
        meets(rule, reading) ==> fits(rule, reading) || rule is Ma,
        (rule matches EntryRule::Rsi(r) && reading is Rsi && r.condition is IsBelow
            && reading->Rsi_current.bits <= 0x7FF0000000000000 && r.threshold.bits
            <= 0x7FF0000000000000) ==> meets(rule, reading) == (reading->Rsi_current.bits
            < rule->Rsi_0.threshold.bits),
        (rule matches EntryRule::Rsi(r) && reading is Rsi && r.condition is CrossesAbove
            && reading->Rsi_current.bits <= 0x7FF0000000000000 && reading->Rsi_previous.bits
            <= 0x7FF0000000000000 && r.threshold.bits <= 0x7FF0000000000000) ==> meets(rule, reading)
            == (reading->Rsi_previous.bits < rule->Rsi_0.threshold.bits
            <= reading->Rsi_current.bits),
        (rule matches EntryRule::Ma(r) && reading is PriceAverage && r.condition is PriceIsAbove
            && reading->PriceAverage_current_close.bits <= 0x7FF0000000000000
            && reading->PriceAverage_current.bits <= 0x7FF0000000000000) ==> meets(rule, reading) == (
        reading->PriceAverage_current_close.bits > reading->PriceAverage_current.bits),
        (rule matches EntryRule::Ma(r) && reading is PriceAverage && r.condition is PriceCrossesAbove
            && reading->PriceAverage_current_close.bits <= 0x7FF0000000000000
            && reading->PriceAverage_current.bits <= 0x7FF0000000000000
            && reading->PriceAverage_previous_close.bits <= 0x7FF0000000000000
            && reading->PriceAverage_previous.bits <= 0x7FF0000000000000) ==> meets(rule, reading)
            == (reading->PriceAverage_current_close.bits > reading->PriceAverage_current.bits
            && reading->PriceAverage_previous_close.bits <= reading->PriceAverage_previous.bits),
        (rule matches EntryRule::Ma(r) && reading is TwoAverages && r.condition is FastCrossesSlow
            && reading->TwoAverages_current_fast.bits <= 0x7FF0000000000000
            && reading->TwoAverages_current_slow.bits <= 0x7FF0000000000000
            && reading->TwoAverages_previous_fast.bits <= 0x7FF0000000000000
            && reading->TwoAverages_previous_slow.bits <= 0x7FF0000000000000) ==> meets(
            rule,
            reading,
        ) == (reading->TwoAverages_current_fast.bits > reading->TwoAverages_current_slow.bits
            && reading->TwoAverages_previous_fast.bits <= reading->TwoAverages_previous_slow.bits),
        (rule is Volume && reading is Volume && reading->Volume_current.bits <= 0x7FF0000000000000
            && reading->Volume_threshold.bits <= 0x7FF0000000000000) ==> meets(rule, reading) == (
        reading->Volume_current.bits > reading->Volume_threshold.bits),
{
}

/// A rule is evaluated exactly where its own timeframe has two candles more than the longest
/// lookback of an RSI or of averages, or one more than the lookback of a volume.
pub proof fn law_rules_wait_for_candles(md: MarketData, rule: EntryRule)
    ensures
        ({
            let interval = match rule {
                EntryRule::Rsi(r) => r.interval,
                EntryRule::Ma(r) => r.interval,
                EntryRule::Volume(r) => r.interval,
            };
            let count = match interval {
                Interval::M15 => md.candles_15m@.len(),
                Interval::H1 => md.candles_1h@.len(),
                Interval::H4 => md.candles_4h@.len(),
            };
            &&& rule matches EntryRule::Rsi(r) ==> enough(md, rule) == (count - 2 >= r.lookback)
            &&& rule matches EntryRule::Ma(r) ==> {
                &&& r.slow_lookback is None ==> enough(md, rule) == (count - 2 >= r.lookback)
                &&& r.slow_lookback matches Some(slow) ==> enough(md, rule) == (count - 2 >= slow)
            }
            &&& rule matches EntryRule::Volume(r) ==> enough(md, rule) == (count - 1 >= r.lookback)
        }),
{
}

/// What a verdict says of the rules: a lack of candles is that of a rule whose timeframe has fewer
/// than it needs, a failure is that of a reading, a refusal that of a rule that is not met, and the
/// rules before the one that decides are all met. No rules at all would signal.
pub proof fn law_verdict_has_its_reason(
    md: MarketData,
    rules: Seq<EntryRule>,
    readings: Seq<Option<Reading>>,
    from: int,
)
    requires
        0 <= from <= rules.len(),
        readings_fit(md, rules, readings),
    ensures
        match rules_verdict(md, rules, readings, from) {
            Verdict::Insufficient { required, got, interval } => exists|i: int|
                from <= i < rules.len() && #[trigger] candles_needed(rules[i]) == required && got
                    < required && interval_of(rules[i]) == interval && got == md.of_interval(
                    interval,
                ).len() && all_met(md, rules.take(i), readings.take(i), from),
            Verdict::Failed { indicator, source } => exists|i: int|
                #![trigger readings[i]]
                from <= i < rules.len() && readings[i] is Some && readings[i]->0 is Failed
                    && readings[i]->0->Failed_indicator@ == indicator
                    && readings[i]->0->Failed_source@ == source && all_met(
                    md,
                    rules.take(i),
                    readings.take(i),
                    from,
                ),
            Verdict::Signal(false) => exists|i: int|
                #![trigger readings[i]]
                from <= i < rules.len() && readings[i] is Some && !meets(rules[i], readings[i]->0)
                    && all_met(md, rules.take(i), readings.take(i), from),
            Verdict::Signal(true) => all_met(md, rules, readings, from),
            Verdict::Invalid(_) => false,
        },
    decreases rules.len() - from,
{
    law_all_rules_must_hold(md, rules, readings, from);
    if from < rules.len() {
        let rule = rules[from];
        if !enough(md, rule) {
            assert(candles_needed(rules[from]) == candles_needed(rule));
        } else {
            assert(readings[from] is Some);
            if !(readings[from]->0 is Failed) && meets(rule, readings[from]->0) {
                law_verdict_has_its_reason(md, rules, readings, from + 1);
                assert forall|i: int|
                    from + 1 <= i < rules.len() && #[trigger] all_met(
                        md,
                        rules.take(i),
                        readings.take(i),
                        from + 1,
                    ) implies all_met(md, rules.take(i), readings.take(i), from) by {
                    assert forall|k: int| from <= k < rules.take(i).len() implies enough(
                        md,
                        #[trigger] rules.take(i)[k],
                    ) && readings.take(i)[k] is Some && meets(
                        rules.take(i)[k],
                        readings.take(i)[k]->0,
                    ) by {}
                }
                match rules_verdict(md, rules, readings, from + 1) {
                    Verdict::Insufficient { required, got, interval } => {
                        let i = choose|i: int|
                            from + 1 <= i < rules.len() && #[trigger] candles_needed(rules[i])
                                == required && got < required && interval_of(rules[i]) == interval
                                && got == md.of_interval(interval).len() && all_met(
                                md,
                                rules.take(i),
                                readings.take(i),
                                from + 1,
                            );
                        assert(candles_needed(rules[i]) == required);
                    },
                    Verdict::Failed { indicator, source } => {
                        let i = choose|i: int|
                            #![trigger readings[i]]
                            from + 1 <= i < rules.len() && readings[i] is Some && readings[i]->0
                                is Failed && readings[i]->0->Failed_indicator@ == indicator
                                && readings[i]->0->Failed_source@ == source && all_met(
                                md,
                                rules.take(i),
                                readings.take(i),
                                from + 1,
                            );
                        assert(readings[i] is Some);
                    },
                    Verdict::Signal(false) => {
                        let i = choose|i: int|
                            #![trigger readings[i]]
                            from + 1 <= i < rules.len() && readings[i] is Some && !meets(
                                rules[i],
                                readings[i]->0,
                            ) && all_met(md, rules.take(i), readings.take(i), from + 1);
                        assert(readings[i] is Some);
                    },
                    _ => {},
                }
            }
        }
    }
}

/// A configuration with a fault is refused with its faults, whatever the market; one without is judged
/// by its rules.
pub proof fn law_faulty_configurations_are_refused(
    md: MarketData,
    config: UserStrategyConfig,
    readings: Seq<Option<Reading>>,
)
    ensures
        config.faults().len() > 0 ==> config_verdict(md, config, readings) == Verdict::Invalid(
            config.faults(),
        ),
        config.faults().len() == 0 && evaluable(md, config.entry_rules@, readings)
            ==> config_verdict(md, config, readings) == Verdict::Signal(
            all_met(md, config.entry_rules@, readings, 0),
        ),
        config.entry_rules@.len() == 0 ==> config_verdict(md, config, readings) is Invalid,
{
    if config.faults().len() == 0 && evaluable(md, config.entry_rules@, readings) {
        law_signal_is_conjunction(md, config.entry_rules@, readings, 0);
    }
}

} // verus!
