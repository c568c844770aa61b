//! Strategy configuration.
use crate::double::Double;
use crate::text::{int_text, u64_text};
use crate::types::market::Interval;
use vstd::prelude::*;

verus! {

/// User-configurable risk parameters of a strategy, as fractions of account equity.
#[derive(Clone, Copy, Debug, PartialEq)]
pub struct RiskParams {
    /// Fraction of account equity risked per trade, from 0.005 to 0.05.
    pub risk_per_trade: Double,
    /// Maximum cumulative loss in a trading day before new entries are halted, from 0 to 1.
    pub daily_loss_limit: Double,
    /// Fraction of the position closed at the first take-profit target, above 0 up to 1.
    pub profit_taking_pct: Double,
    /// Minimum acceptable reward-to-risk ratio, at least 1.
    pub minimum_rr: Double,
}

/// The encoding of 0.005.
pub const LOWEST_RISK: u64 = 0x3F747AE147AE147B;

/// The encoding of 0.05.
pub const HIGHEST_RISK: u64 = 0x3FA999999999999A;

/// The encoding of 1.
pub const ONE: u64 = 0x3FF0000000000000;

impl Default for RiskParams {
    /// 1% per trade, 5% a day, half of the position at the first target, and a ratio of 2.
    fn default() -> (r: RiskParams)
        ensures
            r == (RiskParams {
                risk_per_trade: Double { bits: 0x3F847AE147AE147B },
                daily_loss_limit: Double { bits: 0x3FA999999999999A },
                profit_taking_pct: Double { bits: 0x3FE0000000000000 },
                minimum_rr: Double { bits: 0x4000000000000000 },
            }),
            r.fault() is None,
    {
        RiskParams {
            risk_per_trade: Double::from_bits(0x3F847AE147AE147B),
            daily_loss_limit: Double::from_bits(0x3FA999999999999A),
            profit_taking_pct: Double::from_bits(0x3FE0000000000000),
            minimum_rr: Double::from_bits(0x4000000000000000),
        }
    }
}

/// Which risk parameter is out of its range.
#[derive(Clone, Copy, Debug, PartialEq, Eq, Structural)]
pub enum RiskParamError {
    RiskPerTrade,
    DailyLossLimit,
    ProfitTakingPct,
    MinimumRr,
}

impl RiskParamError {
    /// The message of the error, with the text of the number that is out of range.
    pub open spec fn message(self, number: Seq<char>) -> Seq<char> {
        match self {
            RiskParamError::RiskPerTrade => "risk_per_trade "@ + number
                + " out of range [0.005, 0.05]"@,
            RiskParamError::DailyLossLimit => "daily_loss_limit "@ + number
                + " must be in [0.0, 1.0]"@,
            RiskParamError::ProfitTakingPct => "profit_taking_pct "@ + number
                + " must be in (0.0, 1.0]"@,
            RiskParamError::MinimumRr => "minimum_rr "@ + number + " must be >= 1.0"@,
        }
    }

    /// The message of the error, with the text of the number that is out of range.
    pub fn to_string(&self, number: &str) -> (r: String)
        ensures
            r@ == self.message(number@),
    {
        match self {
            RiskParamError::RiskPerTrade => "risk_per_trade ".to_owned().concat(number).concat(
                " out of range [0.005, 0.05]",
            ),
            RiskParamError::DailyLossLimit => "daily_loss_limit ".to_owned().concat(number).concat(
                " must be in [0.0, 1.0]",
            ),
            RiskParamError::ProfitTakingPct => "profit_taking_pct ".to_owned().concat(
                number,
            ).concat(" must be in (0.0, 1.0]"),
            RiskParamError::MinimumRr => "minimum_rr ".to_owned().concat(number).concat(
                " must be >= 1.0",
            ),
        }
    }
}

/// The number lies between two others, or is one of them.
pub open spec fn within(x: Double, low: u64, high: u64) -> bool {
    (Double { bits: low }).at_most(x) && x.at_most(Double { bits: high })
}

impl RiskParams {
    /// The first parameter that is out of its range. Of the ratio only a number below one is
    /// refused.
    pub open spec fn fault(self) -> Option<RiskParamError> {
        if !within(self.risk_per_trade, LOWEST_RISK, HIGHEST_RISK) {
            Some(RiskParamError::RiskPerTrade)
        } else if !within(self.daily_loss_limit, 0, ONE) {
            Some(RiskParamError::DailyLossLimit)
        } else if !within(self.profit_taking_pct, 0, ONE) || self.profit_taking_pct.key() == 0 {
            Some(RiskParamError::ProfitTakingPct)
        } else if self.minimum_rr.below(Double { bits: ONE }) {
            Some(RiskParamError::MinimumRr)
        } else {
            None
        }
    }

    /// Validates all parameters; the first that is out of its range is the error.
    pub fn validate(&self) -> (r: Result<(), RiskParamError>)
        ensures
            r == match self.fault() {
                Some(e) => Err(e),
                None => Ok(()),
            },
    {
        let zero = Double::from_bits(0);
        let one = Double::from_bits(ONE);
        let low = Double::from_bits(LOWEST_RISK);
        let high = Double::from_bits(HIGHEST_RISK);
        if !(low.le(&self.risk_per_trade) && self.risk_per_trade.le(&high)) {
            return Err(RiskParamError::RiskPerTrade);
        }
        if !(zero.le(&self.daily_loss_limit) && self.daily_loss_limit.le(&one)) {
            return Err(RiskParamError::DailyLossLimit);
        }
        if !(zero.le(&self.profit_taking_pct) && self.profit_taking_pct.le(&one))
            || self.profit_taking_pct.le(&zero) {
            return Err(RiskParamError::ProfitTakingPct);
        }
        if self.minimum_rr.lt(&one) {
            return Err(RiskParamError::MinimumRr);
        }
        Ok(())
    }
}

/// Which side of the threshold the RSI condition applies to.
#[derive(Clone, Copy, Debug, PartialEq, Eq, Structural)]
pub enum RsiCondition {
    /// RSI crosses above the threshold on the latest candle.
    CrossesAbove,
    /// RSI crosses below the threshold on the latest candle.
    CrossesBelow,
    /// RSI is currently below the threshold (oversold entry).
    IsBelow,
    /// RSI is currently above the threshold (overbought / momentum entry).
    IsAbove,
}

/// A rule that evaluates a Relative Strength Index condition.
#[derive(Clone, Copy, Debug, PartialEq)]
pub struct RsiRule {
    /// Number of periods used to compute RSI. Common values: 14, 9, 21.
    pub lookback: usize,
    /// The RSI level compared against (0–100).
    pub threshold: Double,
    /// The logical condition to test against the threshold.
    pub condition: RsiCondition,
    /// Which candle timeframe to evaluate this rule on.
    pub interval: Interval,
}

/// Moving average calculation method.
#[derive(Clone, Copy, Debug, PartialEq, Eq, Structural)]
pub enum MaType {
    /// Simple moving average: equal weight to all periods.
    Sma,
    /// Exponential moving average: more weight to recent data.
    Ema,
}

/// The relationship between price and averages to test.
#[derive(Clone, Copy, Debug, PartialEq, Eq, Structural)]
pub enum MaCondition {
    /// Close price crosses above the average on the latest candle.
    PriceCrossesAbove,
    /// Close price crosses below the average on the latest candle.
    PriceCrossesBelow,
    /// Close price is currently above the average.
    PriceIsAbove,
    /// Close price is currently below the average.
    PriceIsBelow,
    /// Fast average crosses above slow average. Requires `slow_lookback`.
    FastCrossesSlow,
    /// Fast average crosses below slow average. Requires `slow_lookback`.
    FastCrossesBelow,
}

impl MaCondition {
    /// The condition compares two averages.
    pub open spec fn needs_slow(self) -> bool {
        self == MaCondition::FastCrossesSlow || self == MaCondition::FastCrossesBelow
    }

    /// Whether the condition compares two averages.
    pub fn compares_averages(&self) -> (r: bool)
        ensures
            r == self.needs_slow(),
    {
        matches!(self, MaCondition::FastCrossesSlow | MaCondition::FastCrossesBelow)
    }
}

/// A rule that evaluates a moving average condition.
#[derive(Clone, Copy, Debug, PartialEq)]
pub struct MaRule {
    /// Calculation method.
    pub ma_type: MaType,
    /// Primary (fast) lookback period.
    pub lookback: usize,
    /// Optional secondary (slow) lookback for crossover conditions.
    pub slow_lookback: Option<usize>,
    /// The logical condition to test.
    pub condition: MaCondition,
    /// Timeframe the average is computed on.
    pub interval: Interval,
}

/// A rule that evaluates a volume spike: the current volume exceeds a multiple of the average.
#[derive(Clone, Copy, Debug, PartialEq)]
pub struct VolumeRule {
    /// Rolling window of the average.
    pub lookback: usize,
    /// Volume must exceed this multiple of the average.
    pub multiplier: Double,
    /// Timeframe to evaluate volume on.
    pub interval: Interval,
}

/// A single technical condition.
#[derive(Clone, Copy, Debug, PartialEq)]
pub enum EntryRule {
    Rsi(RsiRule),
    Ma(MaRule),
    Volume(VolumeRule),
}

/// The timeframe of a rule that names none.
pub fn default_interval() -> (r: Interval)
    ensures
        r == Interval::H1,
{
    Interval::H1
}

/// What is wrong with a configuration.
#[derive(Clone, Copy, Debug, PartialEq, Eq, Structural)]
pub enum ConfigError {
    /// A risk parameter is out of its range.
    Risk(RiskParamError),
    /// There are no entry rules.
    NoRules,
    /// A rule that compares two averages has no slow one.
    MissingSlow { index: usize },
    /// The slow average of a rule is not the slower one.
    SlowNotAbove { index: usize, slow: usize, fast: usize },
}

impl ConfigError {
    /// The message of the error, with the text of the risk parameter where it is one.
    pub open spec fn message(self, number: Seq<char>) -> Seq<char> {
        match self {
            ConfigError::Risk(e) => "risk: "@ + e.message(number),
            ConfigError::NoRules => "entry_rules must contain at least one condition"@,
            ConfigError::MissingSlow { index } => "entry_rules["@ + int_text(index as int)
                + "]: FastCrosses* condition requires slow_lookback"@,
            ConfigError::SlowNotAbove { index, slow, fast } => "entry_rules["@ + int_text(
                index as int,
            ) + "]: slow_lookback ("@ + int_text(slow as int) + ") must be > lookback ("@
                + int_text(fast as int) + ")"@,
        }
    }

    /// The message of the error, with the text of the risk parameter where it is one.
    pub fn to_string(&self, number: &str) -> (r: String)
        ensures
            r@ == self.message(number@),
    {
        match self {
            ConfigError::Risk(e) => "risk: ".to_owned().concat(e.to_string(number).as_str()),
            ConfigError::NoRules => "entry_rules must contain at least one condition".to_owned(),
            ConfigError::MissingSlow { index } => "entry_rules[".to_owned().concat(
                u64_text(*index as u64).as_str(),
            ).concat("]: FastCrosses* condition requires slow_lookback"),
            ConfigError::SlowNotAbove { index, slow, fast } => "entry_rules[".to_owned().concat(
                u64_text(*index as u64).as_str(),
            ).concat("]: slow_lookback (").concat(u64_text(*slow as u64).as_str()).concat(
                ") must be > lookback (",
            ).concat(u64_text(*fast as u64).as_str()).concat(")"),
        }
    }
}

/// Complete user-defined strategy configuration.
#[derive(Clone, Debug, PartialEq)]
pub struct UserStrategyConfig {
    /// Human-readable strategy name.
    pub name: String,
    /// Risk management parameters.
    pub risk: RiskParams,
    /// Entry conditions: all must be true for an entry signal.
    pub entry_rules: Vec<EntryRule>,
}

/// What is wrong with the rule at a place: a missing slow average, then one that is not slower.
pub open spec fn rule_faults(rule: EntryRule, index: usize) -> Seq<ConfigError> {
    match rule {
        EntryRule::Ma(r) => {
            let missing = if r.condition.needs_slow() && r.slow_lookback is None {
                seq![ConfigError::MissingSlow { index }]
            } else {
                Seq::empty()
            };
            let not_above = if r.slow_lookback is Some && r.slow_lookback->0 <= r.lookback {
                seq![
                    ConfigError::SlowNotAbove {
                        index,
                        slow: r.slow_lookback->0,
                        fast: r.lookback,
                    },
                ]
            } else {
                Seq::empty()
            };
            missing + not_above
        },
        _ => Seq::empty(),
    }
}

/// What is wrong with the first `n` rules.
pub open spec fn rules_faults(rules: Seq<EntryRule>, n: nat) -> Seq<ConfigError>
    decreases n,
{
    if n == 0 {
        Seq::empty()
    } else {
        rules_faults(rules, (n - 1) as nat) + rule_faults(rules[n - 1], (n - 1) as usize)
    }
}

impl UserStrategyConfig {
    /// What is wrong with the configuration: the risk parameters, then the lack of rules, then each
    /// rule in its order.
    pub open spec fn faults(self) -> Seq<ConfigError> {
        let risk = match self.risk.fault() {
            Some(e) => seq![ConfigError::Risk(e)],
            None => Seq::empty(),
        };
        let rules = if self.entry_rules@.len() == 0 {
            seq![ConfigError::NoRules]
        } else {
            Seq::empty()
        };
        risk + rules + rules_faults(self.entry_rules@, self.entry_rules@.len())
    }

    /// Validates the configuration; returns all errors found.
    pub fn validate(&self) -> (r: Vec<ConfigError>)
        ensures
            r@ == self.faults(),
    {
        let mut errors: Vec<ConfigError> = Vec::new();
        match self.risk.validate() {
            Ok(()) => {},
            Err(e) => errors.push(ConfigError::Risk(e)),
        }
        if self.entry_rules.len() == 0 {
            errors.push(ConfigError::NoRules);
        }
        let ghost head = errors@;
        let mut i: usize = 0;
        assert(head + rules_faults(self.entry_rules@, 0) =~= head);
        while i < self.entry_rules.len()
            invariant
                i <= self.entry_rules.len(),
                errors@ == head + rules_faults(self.entry_rules@, i as nat),
            decreases self.entry_rules.len() - i,
        {
            let ghost before = errors@;
            match &self.entry_rules[i] {
                EntryRule::Ma(r) => {
                    if r.condition.compares_averages() && r.slow_lookback.is_none() {
                        errors.push(ConfigError::MissingSlow { index: i });
                    }
                    match r.slow_lookback {
                        Some(slow) => {
                            if slow <= r.lookback {
                                errors.push(
                                    ConfigError::SlowNotAbove { index: i, slow, fast: r.lookback },
                                );
                            }
                        },
                        None => {},
                    }
                },
                _ => {},
            }
            assert(errors@ =~= before + rule_faults(self.entry_rules@[i as int], i));
            i = i + 1;
            assert(errors@ =~= head + rules_faults(self.entry_rules@, i as nat));
        }
        assert(errors@ =~= self.faults());
        errors
    }
}

/// A configuration has no fault exactly when the share risked per trade lies between 0.005 and 0.05,
/// the daily limit between 0 and 1, the share that is taken as profit above 0 and up to 1, the ratio
/// of reward to risk is not below 1, there is a rule, and every rule that compares two averages has
/// a slow one that is slower than its fast one. The numbers are given by their encodings.
pub proof fn law_faultless_configurations(c: UserStrategyConfig)
    requires
        c.entry_rules@.len() <= usize::MAX,
        c.risk.risk_per_trade.bits <= 0x7FF0000000000000,
        c.risk.daily_loss_limit.bits <= 0x7FF0000000000000,
        c.risk.profit_taking_pct.bits <= 0x7FF0000000000000,
        c.risk.minimum_rr.bits <= 0x7FF0000000000000,
    ensures
        c.faults().len() == 0 <==> {
            &&& 0x3F747AE147AE147B <= c.risk.risk_per_trade.bits <= 0x3FA999999999999A
            &&& c.risk.daily_loss_limit.bits <= 0x3FF0000000000000
            &&& 0 < c.risk.profit_taking_pct.bits <= 0x3FF0000000000000
            &&& c.risk.minimum_rr.bits >= 0x3FF0000000000000
            &&& c.entry_rules@.len() > 0
            &&& forall|i: int|
                0 <= i < c.entry_rules@.len() ==> match #[trigger] c.entry_rules@[i] {
                    EntryRule::Ma(r) => match r.slow_lookback {
                        Some(slow) => slow > r.lookback,
                        None => r.condition != MaCondition::FastCrossesSlow && r.condition
                            != MaCondition::FastCrossesBelow,
                    },
                    _ => true,
                }
        },
{
    lemma_rules_faultless(c.entry_rules@, c.entry_rules@.len());
}

proof fn lemma_rules_faultless(rules: Seq<EntryRule>, n: nat)
    requires
        n <= rules.len(),
    ensures
        rules_faults(rules, n).len() == 0 <==> forall|i: int|
            0 <= i < n ==> match #[trigger] rules[i] {
                EntryRule::Ma(r) => match r.slow_lookback {
                    Some(slow) => slow > r.lookback,
                    None => r.condition != MaCondition::FastCrossesSlow && r.condition
                        != MaCondition::FastCrossesBelow,
                },
                _ => true,
            },
    decreases n,
{
    if n > 0 {
        lemma_rules_faultless(rules, (n - 1) as nat);
        let last = rules[n - 1];
        assert(rule_faults(last, (n - 1) as usize).len() == 0 <==> match last {
            EntryRule::Ma(r) => match r.slow_lookback {
                Some(slow) => slow > r.lookback,
                None => r.condition != MaCondition::FastCrossesSlow && r.condition
                    != MaCondition::FastCrossesBelow,
            },
            _ => true,
        });
    }
}

/// The first parameter that is out of range is the one that is named: risk per trade, daily limit,
/// profit share, ratio, in this order. A parameter with a sign, or that is no number, is out of
/// range; only a ratio that is no number passes.
pub proof fn law_first_risk_fault_is_named(p: RiskParams)
    ensures
        ({
            let risk = 0x3F747AE147AE147B <= p.risk_per_trade.bits <= 0x3FA999999999999A;
            let daily = p.daily_loss_limit.bits <= 0x3FF0000000000000 || p.daily_loss_limit.bits
                == 0x8000000000000000;
            let share = 0 < p.profit_taking_pct.bits <= 0x3FF0000000000000;
            let ratio = p.minimum_rr.bits < 0x3FF0000000000000 || 0x8000000000000000
                <= p.minimum_rr.bits <= 0xFFF0000000000000;
            &&& p.fault() == Some(RiskParamError::RiskPerTrade) <==> !risk
            &&& p.fault() == Some(RiskParamError::DailyLossLimit) <==> risk && !daily
            &&& p.fault() == Some(RiskParamError::ProfitTakingPct) <==> risk && daily && !share
            &&& p.fault() == Some(RiskParamError::MinimumRr) <==> risk && daily && share && ratio
        }),
{
}

/// Each rule's faults are those of the rule alone, at its place: a comparison of two averages
/// without a slow one, and a slow one that is not slower.
pub proof fn law_rule_faults_by_place(rules: Seq<EntryRule>, i: int, n: nat)
    requires
        0 <= i < n <= rules.len() <= usize::MAX,
    ensures
        rules[i] matches EntryRule::Ma(r) ==> {
            &&& r.slow_lookback is None && (r.condition == MaCondition::FastCrossesSlow
                || r.condition == MaCondition::FastCrossesBelow) ==> rules_faults(rules, n).contains(
                ConfigError::MissingSlow { index: i as usize },
            )
            &&& r.slow_lookback matches Some(slow) ==> slow <= r.lookback ==> rules_faults(
                rules,
                n,
            ).contains(
                ConfigError::SlowNotAbove { index: i as usize, slow, fast: r.lookback },
            )
        },
    decreases n,
{
    let before = rules_faults(rules, (n - 1) as nat);
    let last = rule_faults(rules[n - 1], (n - 1) as usize);
    let all = rules_faults(rules, n);
    assert(all == before + last);
    if i < n - 1 {
        law_rule_faults_by_place(rules, i, (n - 1) as nat);
        assert forall|e: ConfigError| before.contains(e) implies all.contains(e) by {
            let k = choose|k: int| 0 <= k < before.len() && before[k] == e;
            assert(all[k] == e);
        }
    } else {
        assert forall|e: ConfigError| last.contains(e) implies all.contains(e) by {
            let k = choose|k: int| 0 <= k < last.len() && last[k] == e;
            assert(all[before.len() + k] == e);
        }
        match rules[i] {
            EntryRule::Ma(r) => {
                if r.slow_lookback is None && r.condition.needs_slow() {
                    assert(last[0] == ConfigError::MissingSlow { index: i as usize });
                }
                if r.slow_lookback is Some && r.slow_lookback->0 <= r.lookback {
                    assert(last.last() == ConfigError::SlowNotAbove {
                        index: i as usize,
                        slow: r.slow_lookback->0,
                        fast: r.lookback,
                    });
                    assert(last.contains(last[last.len() - 1]));
                }
            },
            _ => {},
        }
    }
}

} // verus!
