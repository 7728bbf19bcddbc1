//! Scenario tests for the pricing core: probability normalization,
//! price consistency, quote bounds, entropy, and error reporting.

use bnbmarket_lmsr::fixed::UNIT;
use bnbmarket_lmsr::{
    Bet, Decimal, MarketConfig, MarketError, MarketMakerEngine, MarketType, ProbabilityEngine,
    RiskAssessmentEngine,
};

fn config(liquidity: i64, num_outcomes: usize) -> MarketConfig {
    MarketConfig {
        liquidity_param: Decimal::new(liquidity, 0),
        num_outcomes,
        market_type: MarketType::Categorical,
    }
}

/// ln(3) in raw fixed-point form (12 fractional digits).
const LN_3_RAW: i128 = 1_098_612_288_668;

/// ln(2) in raw fixed-point form.
const LN_2_RAW: i128 = 693_147_180_560;

#[test]
fn two_outcomes_with_unequal_stakes() {
    let engine = ProbabilityEngine::new(config(10, 2));
    let bets = vec![
        Bet { option_id: 0, amount: Decimal::new(50, 0) },
        Bet { option_id: 1, amount: Decimal::new(30, 0) },
    ];
    let probs = engine.calculate_probabilities(&bets).unwrap();
    assert_eq!(probs.len(), 2);

    // The probabilities sum to one within epsilon (strictly above
    // 1 - n * 10^-12, never above 1).
    let sum: i128 = probs.iter().map(|p| p.mantissa()).sum();
    assert!(sum > UNIT - 2 && sum <= UNIT);

    // The more-backed outcome prices higher.
    assert!(probs[0].mantissa() > probs[1].mantissa());

    // The ratio reflects the exponential weighting (about e^3.64, far
    // from the ratio of the raw totals): this fails if the exponential
    // were replaced by the identity.
    assert!(probs[0].mantissa() > 30 * probs[1].mantissa());
    assert!(probs[0].mantissa() < 50 * probs[1].mantissa());
}

#[test]
fn price_equals_probability_for_every_outcome() {
    let engine = ProbabilityEngine::new(config(10, 3));
    let bets = vec![
        Bet { option_id: 0, amount: Decimal::new(50, 0) },
        Bet { option_id: 1, amount: Decimal::new(30, 0) },
    ];
    let probs = engine.calculate_probabilities(&bets).unwrap();
    for i in 0..3 {
        let price = engine.calculate_price(&bets, i).unwrap();
        assert_eq!(price.mantissa(), probs[i].mantissa());
    }
}

#[test]
fn uniform_market_without_bets() {
    let engine = ProbabilityEngine::new(config(10, 3));
    let probs = engine.calculate_probabilities(&vec![]).unwrap();
    assert_eq!(probs.len(), 3);
    // Exactly a third each, up to the last fixed-point digit.
    for p in probs.iter() {
        assert_eq!(p.mantissa(), UNIT / 3);
    }

    // Entropy of the uniform distribution over three outcomes is ln(3).
    let risk = RiskAssessmentEngine::new(config(10, 3)).assess_risk(&vec![]).unwrap();
    let entropy = risk.entropy.mantissa();
    assert!((entropy - LN_3_RAW).abs() < 1_000);
}

#[test]
fn uniform_two_outcome_entropy_is_ln_two() {
    let risk = RiskAssessmentEngine::new(config(10, 2)).assess_risk(&vec![]).unwrap();
    let entropy = risk.entropy.mantissa();
    assert!((entropy - LN_2_RAW).abs() < 1_000);
}

#[test]
fn entropy_shrinks_as_one_outcome_dominates() {
    let engine = RiskAssessmentEngine::new(config(10, 2));
    let concentrated = vec![Bet { option_id: 0, amount: Decimal::new(1_000_000, 0) }];
    let risk = engine.assess_risk(&concentrated).unwrap();
    // One outcome near certainty: entropy close to zero.
    assert!(risk.entropy.mantissa() < UNIT / 100);
    let risk_uniform = engine.assess_risk(&vec![]).unwrap();
    assert!(risk.entropy.mantissa() < risk_uniform.entropy.mantissa());
}

#[test]
fn invalid_outcome_index_is_reported() {
    let engine = ProbabilityEngine::new(config(10, 2));
    let bets = vec![Bet { option_id: 5, amount: Decimal::new(50, 0) }];
    match engine.calculate_probabilities(&bets) {
        Err(MarketError::InvalidOutcomeIndex(id)) => assert_eq!(id, 5),
        _ => panic!("expected the invalid outcome index to be reported"),
    }
}

#[test]
fn first_invalid_index_wins() {
    let engine = ProbabilityEngine::new(config(10, 2));
    let bets = vec![
        Bet { option_id: 1, amount: Decimal::new(10, 0) },
        Bet { option_id: 7, amount: Decimal::new(10, 0) },
        Bet { option_id: 9, amount: Decimal::new(10, 0) },
    ];
    match engine.calculate_probabilities(&bets) {
        Err(MarketError::InvalidOutcomeIndex(id)) => assert_eq!(id, 7),
        _ => panic!("expected the first invalid outcome index"),
    }
}

#[test]
fn massive_stake_stays_strictly_below_one() {
    let engine = ProbabilityEngine::new(config(10, 2));
    let bets = vec![Bet { option_id: 0, amount: Decimal::new(1_000_000, 0) }];
    let probs = engine.calculate_probabilities(&bets).unwrap();
    // Close to one, but strictly below it, and the other outcome stays
    // strictly above zero: no overflow, no degenerate price.
    assert!(probs[0].mantissa() < UNIT);
    assert!(probs[0].mantissa() > UNIT * 999 / 1000);
    assert!(probs[1].mantissa() >= 1);
    let sum = probs[0].mantissa() + probs[1].mantissa();
    assert!(sum > UNIT - 2 && sum <= UNIT);
}

#[test]
fn quotes_bracket_probabilities() {
    let maker = MarketMakerEngine::new(config(10, 3));
    let probs = ProbabilityEngine::new(config(10, 3));
    let bets = vec![
        Bet { option_id: 0, amount: Decimal::new(50, 0) },
        Bet { option_id: 2, amount: Decimal::new(20, 0) },
    ];
    let strategy = maker.simulate_strategy(&bets).unwrap();
    let p = probs.calculate_probabilities(&bets).unwrap();
    for i in 0..3 {
        let bid = strategy.bid_prices[i].mantissa();
        let ask = strategy.ask_prices[i].mantissa();
        assert!(bid <= p[i].mantissa() && p[i].mantissa() <= ask);
        // 95% and 105% of the probability, rounded down.
        assert_eq!(bid, p[i].mantissa() * 95 / 100);
        assert_eq!(ask, p[i].mantissa() * 105 / 100);
    }
    assert!(strategy.spread.mantissa() >= 0);
    assert!(strategy.recommended_liquidity.mantissa() > 0);
    // The recommendation grows the liquidity parameter by the entropy.
    assert!(strategy.recommended_liquidity.mantissa() >= 10 * UNIT);
}

#[test]
fn risk_profile_of_empty_market() {
    let engine = RiskAssessmentEngine::new(config(10, 3));
    let profile = engine.assess_risk(&vec![]).unwrap();
    // Empty bet list: maximal liquidity risk, uniform concentration,
    // maximal entropy.
    assert_eq!(profile.liquidity_risk.mantissa(), UNIT);
    assert_eq!(profile.concentration.mantissa(), UNIT / 3);
    assert!((profile.entropy.mantissa() - LN_3_RAW).abs() < 1_000);
    // Uniform probabilities have (almost) no variance.
    assert!(profile.expected_volatility.mantissa() <= 1);
}

#[test]
fn liquidity_risk_of_two_bets() {
    let engine = RiskAssessmentEngine::new(config(10, 2));
    let bets = vec![
        Bet { option_id: 0, amount: Decimal::new(75, 0) },
        Bet { option_id: 1, amount: Decimal::new(25, 0) },
    ];
    let profile = engine.assess_risk(&bets).unwrap();
    // 75 of 100 units ride on the largest single bet.
    assert_eq!(profile.liquidity_risk.mantissa(), UNIT * 75 / 100);
}

#[test]
fn liquidity_risk_is_maximal_for_a_single_bet() {
    // A single bet carries the whole volume, so the ratio is exactly
    // one even though the list is not empty.
    let engine = RiskAssessmentEngine::new(config(10, 2));
    let bets = vec![Bet { option_id: 0, amount: Decimal::new(50, 0) }];
    let profile = engine.assess_risk(&bets).unwrap();
    assert_eq!(profile.liquidity_risk.mantissa(), UNIT);
}

#[test]
fn non_positive_liquidity_is_rejected() {
    let engine = ProbabilityEngine::new(config(0, 2));
    match engine.calculate_probabilities(&vec![]) {
        Err(MarketError::InvalidLiquidity(_)) => {}
        _ => panic!("expected the liquidity parameter to be rejected"),
    }
    let negative = ProbabilityEngine::new(MarketConfig {
        liquidity_param: Decimal::new(-10, 0),
        num_outcomes: 2,
        market_type: MarketType::Binary,
    });
    match negative.calculate_probabilities(&vec![]) {
        Err(MarketError::InvalidLiquidity(_)) => {}
        _ => panic!("expected the liquidity parameter to be rejected"),
    }
}

#[test]
fn zero_outcome_market_is_rejected() {
    let engine = ProbabilityEngine::new(config(10, 0));
    match engine.calculate_probabilities(&vec![]) {
        Err(MarketError::InsufficientData(_)) => {}
        _ => panic!("expected the zero-outcome configuration to be rejected"),
    }
}

#[test]
fn oversized_stake_reports_a_calculation_error() {
    let engine = ProbabilityEngine::new(config(10, 2));
    let bets = vec![Bet { option_id: 0, amount: Decimal::new(i64::MAX, 0) }];
    match engine.calculate_probabilities(&bets) {
        Err(MarketError::CalculationError(_)) => {}
        _ => panic!("expected the oversized stake to overflow the totals"),
    }
}

#[test]
fn vanishing_seed_reports_a_calculation_error() {
    // A liquidity so small that every outcome's seed rounds to zero:
    // the exponential scale would divide by zero.
    let engine = ProbabilityEngine::new(MarketConfig {
        liquidity_param: Decimal::new(1, 12),
        num_outcomes: 2,
        market_type: MarketType::Binary,
    });
    match engine.calculate_probabilities(&vec![]) {
        Err(MarketError::CalculationError(_)) => {}
        _ => panic!("expected the vanishing seed to be rejected"),
    }
}

#[test]
fn probabilities_stay_strictly_inside_zero_one() {
    // Even with all stake concentrated, every outcome keeps a price
    // strictly between 0 and 1.
    for n in [2usize, 3, 5] {
        let engine = ProbabilityEngine::new(config(10, n));
        let bets = vec![Bet { option_id: 0, amount: Decimal::new(123_456, 0) }];
        let probs = engine.calculate_probabilities(&bets).unwrap();
        for p in probs.iter() {
            assert!(1 <= p.mantissa() && p.mantissa() <= UNIT - 1);
        }
    }
}
