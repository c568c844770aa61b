use axiom_sandbox::decimal::Decimal;
use axiom_sandbox::double::Double;
use axiom_sandbox::strategy::evaluator::{
    insufficient_data_message, line_passes, required_candles, rsi_passes, volume_window_start,
    EvaluatorError, Reading, RuleEvaluator,
};
use axiom_sandbox::strategy::models::{
    default_interval, ConfigError, EntryRule, MaCondition, MaRule, MaType, RiskParamError,
    RiskParams, RsiCondition, RsiRule, UserStrategyConfig, VolumeRule,
};
use axiom_sandbox::time::Timestamp;
use axiom_sandbox::types::market::{Candle, Interval, MarketData};
use yata::prelude::Method;
use yata::methods::{EMA, SMA};

fn num(x: f64) -> Double {
    Double::from_bits(x.to_bits())
}

fn number(x: Decimal) -> f64 {
    x.to_string().parse().unwrap()
}

fn sample_config() -> UserStrategyConfig {
    UserStrategyConfig {
        name: "Test Strategy".to_string(),
        risk: RiskParams::default(),
        entry_rules: vec![
            EntryRule::Rsi(RsiRule {
                lookback: 14,
                threshold: num(30.0),
                condition: RsiCondition::IsBelow,
                interval: Interval::H1,
            }),
            EntryRule::Volume(VolumeRule {
                lookback: 20,
                multiplier: num(1.5),
                interval: Interval::H1,
            }),
        ],
    }
}

#[test]
fn test_risk_params_default_is_valid() {
    assert!(RiskParams::default().validate().is_ok());
}

#[test]
fn test_risk_params_too_low() {
    let r = RiskParams { risk_per_trade: num(0.001), ..Default::default() };
    assert!(r.validate().is_err());
}

#[test]
fn test_risk_params_too_high() {
    let r = RiskParams { risk_per_trade: num(0.1), ..Default::default() };
    assert!(r.validate().is_err());
}

#[test]
fn test_config_validation_empty_rules() {
    let mut config = sample_config();
    config.entry_rules.clear();
    let errors = config.validate();
    assert!(!errors.is_empty());
}

#[test]
fn test_config_ma_crossover_missing_slow() {
    let mut config = sample_config();
    config.entry_rules.push(EntryRule::Ma(MaRule {
        ma_type: MaType::Ema,
        lookback: 9,
        slow_lookback: None, // Missing!
        condition: MaCondition::FastCrossesSlow,
        interval: Interval::H1,
    }));
    let errors = config.validate();
    assert!(errors.iter().any(|e| e.to_string("").contains("slow_lookback")));
}

#[test]
fn risk_params_are_held_to_their_ranges() {
    let d = RiskParams::default();
    assert_eq!(d.risk_per_trade, num(0.01));
    assert_eq!(d.daily_loss_limit, num(0.05));
    assert_eq!(d.profit_taking_pct, num(0.5));
    assert_eq!(d.minimum_rr, num(2.0));
    let risk = |x: f64| RiskParams { risk_per_trade: num(x), ..Default::default() }.validate();
    assert_eq!(risk(0.005), Ok(()));
    assert_eq!(risk(0.05), Ok(()));
    assert_eq!(risk(f64::NAN), Err(RiskParamError::RiskPerTrade));
    assert_eq!(risk(-0.01), Err(RiskParamError::RiskPerTrade));
    let daily = |x: f64| RiskParams { daily_loss_limit: num(x), ..Default::default() }.validate();
    assert_eq!(daily(-0.0), Ok(()));
    assert_eq!(daily(1.0), Ok(()));
    assert_eq!(daily(1.0000001), Err(RiskParamError::DailyLossLimit));
    let profit = |x: f64| RiskParams { profit_taking_pct: num(x), ..Default::default() }.validate();
    assert_eq!(profit(0.0), Err(RiskParamError::ProfitTakingPct));
    assert_eq!(profit(-0.0), Err(RiskParamError::ProfitTakingPct));
    assert_eq!(profit(1.0), Ok(()));
    let ratio = |x: f64| RiskParams { minimum_rr: num(x), ..Default::default() }.validate();
    assert_eq!(ratio(0.99), Err(RiskParamError::MinimumRr));
    assert_eq!(ratio(1.0), Ok(()));
    assert_eq!(ratio(f64::NAN), Ok(()));
    assert_eq!(
        RiskParamError::RiskPerTrade.to_string("0.100"),
        "risk_per_trade 0.100 out of range [0.005, 0.05]"
    );
    assert_eq!(
        RiskParamError::DailyLossLimit.to_string("2.000"),
        "daily_loss_limit 2.000 must be in [0.0, 1.0]"
    );
    assert_eq!(
        RiskParamError::ProfitTakingPct.to_string("0.000"),
        "profit_taking_pct 0.000 must be in (0.0, 1.0]"
    );
    assert_eq!(RiskParamError::MinimumRr.to_string("0.50"), "minimum_rr 0.50 must be >= 1.0");
}

#[test]
fn all_configuration_errors_are_listed_in_order() {
    let ma = |slow: Option<usize>, condition: MaCondition| {
        EntryRule::Ma(MaRule {
            ma_type: MaType::Sma,
            lookback: 20,
            slow_lookback: slow,
            condition,
            interval: default_interval(),
        })
    };
    let mut config = sample_config();
    config.risk.minimum_rr = num(0.5);
    config.entry_rules = vec![
        ma(None, MaCondition::FastCrossesBelow),
        ma(Some(20), MaCondition::PriceIsAbove),
        ma(Some(21), MaCondition::FastCrossesSlow),
    ];
    let errors = config.validate();
    assert_eq!(
        errors,
        vec![
            ConfigError::Risk(RiskParamError::MinimumRr),
            ConfigError::MissingSlow { index: 0 },
            ConfigError::SlowNotAbove { index: 1, slow: 20, fast: 20 },
        ]
    );
    assert_eq!(errors[0].to_string("0.50"), "risk: minimum_rr 0.50 must be >= 1.0");
    assert_eq!(
        errors[1].to_string(""),
        "entry_rules[0]: FastCrosses* condition requires slow_lookback"
    );
    assert_eq!(
        errors[2].to_string(""),
        "entry_rules[1]: slow_lookback (20) must be > lookback (20)"
    );
    config.entry_rules.clear();
    assert_eq!(
        config.validate()[1].to_string(""),
        "entry_rules must contain at least one condition"
    );
}

fn synthetic_market_data(n: usize) -> MarketData {
    let mut md = MarketData::new("BTCUSDT");
    for i in 0..n {
        let close = Decimal::new(1000 + 5 * i as i64, 1);
        let one = Decimal::one();
        let vol = if i == n - 1 {
            // Spike on the last candle for volume tests.
            Decimal::new(5000, 0)
        } else {
            Decimal::new(1000, 0)
        };
        md.candles_1h.push(Candle::new(
            Timestamp::now(),
            close,
            close.checked_add(&one).unwrap(),
            close.checked_sub(&one).unwrap(),
            close,
            vol,
        ));
    }
    md
}

fn base_config(rules: Vec<EntryRule>) -> UserStrategyConfig {
    UserStrategyConfig {
        name: "Test".to_string(),
        risk: RiskParams::default(),
        entry_rules: rules,
    }
}

fn wilder_rsi_last_two(closes: &[f64], period: usize) -> (f64, f64) {
    let rsi = |gain: f64, loss: f64| {
        if loss == 0.0 {
            100.0
        } else {
            100.0 - 100.0 / (1.0 + gain / loss)
        }
    };
    let n = period as f64;
    let (mut gain, mut loss) = (0.0, 0.0);
    for i in 1..=period {
        let diff = closes[i] - closes[i - 1];
        if diff > 0.0 {
            gain += diff;
        } else {
            loss += diff.abs();
        }
    }
    gain /= n;
    loss /= n;
    let mut prev = rsi(gain, loss);
    let mut curr = prev;
    for i in (period + 1)..closes.len() {
        let diff: f64 = closes[i] - closes[i - 1];
        gain = (gain * (n - 1.0) + diff.max(0.0)) / n;
        loss = (loss * (n - 1.0) + (-diff).max(0.0)) / n;
        prev = curr;
        curr = rsi(gain, loss);
    }
    (prev, curr)
}

fn ma_last_two(closes: &[f64], period: usize, ma_type: MaType) -> (f64, f64) {
    let (mut prev, mut curr) = (closes[0], closes[0]);
    match ma_type {
        MaType::Sma => {
            let mut ma = SMA::new(period as u64, &closes[0]).unwrap();
            for c in &closes[1..] {
                prev = curr;
                curr = ma.next(c);
            }
        }
        MaType::Ema => {
            let mut ma = EMA::new(period as u64, &closes[0]).unwrap();
            for c in &closes[1..] {
                prev = curr;
                curr = ma.next(c);
            }
        }
    }
    (prev, curr)
}

fn readings(md: &MarketData, config: &UserStrategyConfig) -> Vec<Option<Reading>> {
    let closes: Vec<f64> = md.candles_1h.iter().map(|c| number(c.close)).collect();
    let volumes: Vec<f64> = md.candles_1h.iter().map(|c| number(c.volume)).collect();
    let n = closes.len();
    config
        .entry_rules
        .iter()
        .map(|rule| {
            if n < required_candles(rule) {
                return None;
            }
            Some(match rule {
                EntryRule::Rsi(r) => {
                    let (p, c) = wilder_rsi_last_two(&closes, r.lookback);
                    Reading::Rsi { previous: num(p), current: num(c) }
                }
                EntryRule::Ma(r) => {
                    let (p, c) = ma_last_two(&closes, r.lookback, r.ma_type);
                    match r.slow_lookback {
                        Some(slow) if r.condition.compares_averages() => {
                            let (ps, cs) = ma_last_two(&closes, slow, r.ma_type);
                            Reading::TwoAverages {
                                previous_fast: num(p),
                                current_fast: num(c),
                                previous_slow: num(ps),
                                current_slow: num(cs),
                            }
                        }
                        _ => Reading::PriceAverage {
                            previous_close: num(closes[n - 2]),
                            current_close: num(closes[n - 1]),
                            previous: num(p),
                            current: num(c),
                        },
                    }
                }
                EntryRule::Volume(r) => {
                    let start = volume_window_start(n, r.lookback);
                    let window = &volumes[start..n - 1];
                    let average = window.iter().sum::<f64>() / window.len() as f64;
                    let multiplier = f64::from_bits(r.multiplier.bits);
                    Reading::Volume {
                        current: num(volumes[n - 1]),
                        threshold: num(average * multiplier),
                    }
                }
            })
        })
        .collect()
}

#[test]
fn test_rsi_is_below_enough_data() {
    let md = synthetic_market_data(50);
    let config = base_config(vec![EntryRule::Rsi(RsiRule {
        lookback: 14,
        threshold: num(80.0), // Rising prices, so the RSI is high
        condition: RsiCondition::IsBelow,
        interval: Interval::H1,
    })]);
    let evaluator = RuleEvaluator::new();
    let result = evaluator.evaluate(&md, &config, &readings(&md, &config));
    assert!(result.is_ok(), "Should not error with sufficient data");
    assert!(!result.unwrap());
}

#[test]
fn test_rsi_insufficient_data() {
    let md = synthetic_market_data(5); // Far too few candles.
    let config = base_config(vec![EntryRule::Rsi(RsiRule {
        lookback: 14,
        threshold: num(30.0),
        condition: RsiCondition::IsBelow,
        interval: Interval::H1,
    })]);
    let evaluator = RuleEvaluator::new();
    match evaluator.evaluate(&md, &config, &readings(&md, &config)) {
        Err(EvaluatorError::InsufficientData { required, got, interval }) => {
            assert_eq!((required, got, interval), (16, 5, Interval::H1));
            assert_eq!(
                insufficient_data_message(required, got, interval),
                "insufficient candle data: need at least 16 candles on H1, got 5"
            );
        }
        _ => panic!("Expected InsufficientData"),
    }
}

#[test]
fn test_ma_price_is_above_ema20() {
    let md = synthetic_market_data(60);
    let config = base_config(vec![EntryRule::Ma(MaRule {
        ma_type: MaType::Ema,
        lookback: 20,
        slow_lookback: None,
        condition: MaCondition::PriceIsAbove,
        interval: Interval::H1,
    })]);
    let evaluator = RuleEvaluator::new();
    // Steadily rising prices: the close should be above EMA(20).
    let result = evaluator.evaluate(&md, &config, &readings(&md, &config)).unwrap();
    assert!(result, "Rising prices should be above their EMA(20)");
}

#[test]
fn test_ma_golden_cross() {
    let md = synthetic_market_data(60);
    let config = base_config(vec![EntryRule::Ma(MaRule {
        ma_type: MaType::Ema,
        lookback: 9,
        slow_lookback: Some(21),
        condition: MaCondition::FastCrossesSlow,
        interval: Interval::H1,
    })]);
    let evaluator = RuleEvaluator::new();
    // Evaluating doesn't error (correctness of signal depends on data shape).
    assert!(evaluator.evaluate(&md, &config, &readings(&md, &config)).is_ok());
}

#[test]
fn test_volume_spike_detected() {
    let md = synthetic_market_data(30); // Last candle has 5x normal volume.
    let config = base_config(vec![EntryRule::Volume(VolumeRule {
        lookback: 20,
        multiplier: num(2.0), // Spike is 5000 vs baseline ~1000, so it passes 2x.
        interval: Interval::H1,
    })]);
    let evaluator = RuleEvaluator::new();
    let result = evaluator.evaluate(&md, &config, &readings(&md, &config)).unwrap();
    assert!(result, "5x volume spike should exceed 2x multiplier threshold");
}

#[test]
fn test_volume_no_spike() {
    let md = synthetic_market_data(30);
    let config = base_config(vec![EntryRule::Volume(VolumeRule {
        lookback: 20,
        multiplier: num(10.0), // Threshold too high: the spike won't pass.
        interval: Interval::H1,
    })]);
    let evaluator = RuleEvaluator::new();
    let result = evaluator.evaluate(&md, &config, &readings(&md, &config)).unwrap();
    assert!(!result, "5x spike should not exceed 10x threshold");
}

#[test]
fn test_and_logic_short_circuits_on_first_false() {
    let md = synthetic_market_data(30);
    // Volume spike passes (2x), but RSI IsBelow(10) almost certainly fails.
    let config = base_config(vec![
        EntryRule::Volume(VolumeRule {
            lookback: 20,
            multiplier: num(2.0),
            interval: Interval::H1,
        }),
        EntryRule::Rsi(RsiRule {
            lookback: 14,
            threshold: num(10.0), // Virtually impossible.
            condition: RsiCondition::IsBelow,
            interval: Interval::H1,
        }),
    ]);
    let evaluator = RuleEvaluator::new();
    let result = evaluator.evaluate(&md, &config, &readings(&md, &config)).unwrap();
    assert!(!result, "RSI condition should fail, causing overall false");
}

#[test]
fn invalid_configuration_and_failed_indicators_are_errors() {
    let md = synthetic_market_data(30);
    let evaluator = RuleEvaluator::new();
    let config = base_config(vec![]);
    assert!(matches!(
        evaluator.evaluate(&md, &config, &vec![]),
        Err(EvaluatorError::InvalidConfig(e)) if e == vec![ConfigError::NoRules]
    ));
    let config = base_config(vec![EntryRule::Rsi(RsiRule {
        lookback: 14,
        threshold: num(10.0),
        condition: RsiCondition::IsAbove,
        interval: Interval::H1,
    })]);
    let failed = vec![Some(Reading::Failed {
        indicator: "SMA".to_string(),
        source: "bad period".to_string(),
    })];
    assert!(matches!(
        evaluator.evaluate(&md, &config, &failed),
        Err(EvaluatorError::IndicatorInit { indicator, source })
            if indicator == "SMA" && source == "bad period"
    ));
}

#[test]
fn conditions_compare_as_numbers_do() {
    let r = |c, p: f64, x: f64, t: f64| rsi_passes(c, num(p), num(x), num(t));
    assert!(r(RsiCondition::CrossesAbove, 29.0, 30.0, 30.0));
    assert!(!r(RsiCondition::CrossesAbove, 30.0, 31.0, 30.0));
    assert!(r(RsiCondition::CrossesBelow, 31.0, 30.0, 30.0));
    assert!(r(RsiCondition::IsAbove, 0.0, 30.1, 30.0));
    assert!(!r(RsiCondition::IsBelow, 0.0, f64::NAN, 30.0));
    let l = |c, p: f64, x: f64, pb: f64, b: f64| {
        line_passes(c, num(p), num(x), num(pb), num(b))
    };
    assert!(l(MaCondition::PriceCrossesAbove, -1.0, 1.0, 0.0, 0.5));
    assert!(l(MaCondition::PriceCrossesBelow, -0.0, -1.0, 0.0, -0.5));
    assert!(l(MaCondition::FastCrossesSlow, 1.0, 3.0, 1.0, 2.0));
    assert!(!l(MaCondition::FastCrossesBelow, 1.0, 3.0, 1.0, 2.0));
    assert!(l(MaCondition::PriceIsBelow, 0.0, 1.0, 0.0, 2.0));
    assert!(Double::from_bits((-2.0f64).to_bits()).lt(&num(-1.0)));
    assert!(num(f64::NEG_INFINITY).lt(&num(f64::MIN)));
    assert!(!num(f64::NAN).le(&num(f64::NAN)));
    assert_eq!(volume_window_start(30, 20), 9);
    assert_eq!(volume_window_start(5, 20), 0);
}
