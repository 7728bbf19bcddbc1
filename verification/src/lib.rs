//! Automated pricing core for a multi-outcome prediction market.
//!
//! Given a market configuration (number of outcomes, a liquidity parameter)
//! and a list of stakes ("bets") placed against outcomes, the library
//! computes normalized per-outcome probabilities via bounded-exponential
//! aggregation, derived market-maker bid/ask quotes, and market risk
//! metrics (entropy, concentration, volatility proxy, liquidity risk).
//!
//! The engine is stateless: every operation is a pure function of the
//! configuration and the bet list supplied in that call.

use vstd::prelude::*;

pub mod fixed;
pub mod config;
pub mod entropy;
pub mod incidents;
pub mod logging;
pub mod market_maker;
pub mod monitoring;
pub mod pentest;
pub mod platform;
pub mod profiling;
pub mod probability;
pub mod risk_assessment;
pub mod safety;
pub mod security;

pub use fixed::Decimal;
pub use market_maker::MarketMakerEngine;
pub use probability::ProbabilityEngine;
pub use risk_assessment::RiskAssessmentEngine;

verus! {

/// Error type for market operations.
#[derive(Debug, Clone)]
pub enum MarketError {
    /// A bet or a price request references an outcome index outside
    /// `[0, num_outcomes)`; carries the offending index.
    InvalidOutcomeIndex(usize),
    /// The liquidity parameter is non-positive or not representable
    /// within the engine's fixed-precision range.
    InvalidLiquidity(String),
    /// Overflow during summation or division by zero during normalization.
    CalculationError(String),
    /// The configuration declares no outcomes at all.
    InsufficientData(String),
}

/// A stake placed against one outcome of a market.
#[derive(Debug, Clone, Copy)]
pub struct Bet {
    /// Index of the outcome the stake backs.
    pub option_id: usize,
    /// The stake itself; never negative.
    pub amount: Decimal,
}

impl Bet {
    /// A bet carries a non-negative stake.
    pub open spec fn wf(&self) -> bool {
        self.amount@ >= 0
    }
}

/// The kind of market being priced.  Informational only: no computation
/// consults it.
#[derive(Debug, Clone, Copy, PartialEq, Eq, Structural)]
pub enum MarketType {
    Binary,
    Categorical,
    Scalar,
}

/// Immutable configuration shared by all engines of one market.
#[derive(Debug, Clone, Copy)]
pub struct MarketConfig {
    /// Subsidy the market maker seeds each outcome with; must be positive.
    pub liquidity_param: Decimal,
    /// How many mutually exclusive outcomes the market prices.
    pub num_outcomes: usize,
    /// Informational market kind; never consulted by any computation.
    pub market_type: MarketType,
}

impl MarketConfig {
    /// The representation limits the engine to `MAX_OUTCOMES` outcomes;
    /// all other validation happens at computation time.
    pub open spec fn wf(&self) -> bool {
        self.num_outcomes <= probability::MAX_OUTCOMES
    }
}

/// Bid/ask quotes and liquidity advice derived from the probability
/// vector of one bet list.
#[derive(Debug, Clone)]
pub struct MarketMakingStrategy {
    /// Per-outcome buy quotes: 95% of each probability.
    pub bid_prices: Vec<Decimal>,
    /// Per-outcome sell quotes: 105% of each probability.
    pub ask_prices: Vec<Decimal>,
    /// Mean bid/ask gap across outcomes; never negative.
    pub spread: Decimal,
    /// Liquidity the maker should post: grows with outcome uncertainty.
    pub recommended_liquidity: Decimal,
}

/// Risk metrics derived from the probability vector and the raw bets.
#[derive(Debug, Clone)]
pub struct MarketRiskProfile {
    /// The probability vector the metrics were computed from.
    pub probabilities: Vec<Decimal>,
    /// Shannon entropy of the probabilities (natural log).
    pub entropy: Decimal,
    /// The single largest outcome probability.
    pub concentration: Decimal,
    /// Population variance of the probabilities.
    pub expected_volatility: Decimal,
    /// Largest single bet as a share of total bet volume; exactly one
    /// for an empty or zero-volume bet list.
    pub liquidity_risk: Decimal,
}

/// Sequence of bet well-formedness: every stake in the list is
/// non-negative.
pub open spec fn bets_wf(bets: Seq<Bet>) -> bool {
    forall|i: int| 0 <= i < bets.len() ==> #[trigger] bets[i].wf()
}

/// The raw fixed-point values of a vector of decimals.
pub open spec fn raw_values(v: Seq<Decimal>) -> Seq<int> {
    v.map_values(|d: Decimal| d@)
}

/// Copies a decimal vector element by element.
#[verifier::loop_isolation(false)]
fn copy_decimals(v: &Vec<Decimal>) -> (r: Vec<Decimal>)
    ensures
        r@ == v@,
{
    let mut out: Vec<Decimal> = Vec::new();
    let mut i: usize = 0;
    while i < v.len()
        invariant
            i <= v@.len(),
            out@ == v@.take(i as int),
        decreases v@.len() - i,
    {
        out.push(v[i]);
        proof {
            assert(out@ =~= v@.take(i as int + 1));
        }
        i = i + 1;
    }
    proof {
        assert(v@.take(v@.len() as int) =~= v@);
    }
    out
}

impl MarketMakingStrategy {
    /// The per-outcome buy quotes.
    pub fn bid_prices(&self) -> (r: Vec<Decimal>)
        ensures
            r@ == self.bid_prices@,
    {
        copy_decimals(&self.bid_prices)
    }

    /// The per-outcome sell quotes.
    pub fn ask_prices(&self) -> (r: Vec<Decimal>)
        ensures
            r@ == self.ask_prices@,
    {
        copy_decimals(&self.ask_prices)
    }

    /// The mean bid/ask gap.
    pub fn spread(&self) -> (r: Decimal)
        ensures
            r == self.spread,
    {
        self.spread
    }

    /// The recommended liquidity level.
    pub fn recommended_liquidity(&self) -> (r: Decimal)
        ensures
            r == self.recommended_liquidity,
    {
        self.recommended_liquidity
    }
}

impl MarketRiskProfile {
    /// The probability vector the metrics were computed from.
    pub fn probabilities(&self) -> (r: Vec<Decimal>)
        ensures
            r@ == self.probabilities@,
    {
        copy_decimals(&self.probabilities)
    }

    /// The Shannon entropy of the probabilities.
    pub fn entropy(&self) -> (r: Decimal)
        ensures
            r == self.entropy,
    {
        self.entropy
    }

    /// The single largest outcome probability.
    pub fn concentration(&self) -> (r: Decimal)
        ensures
            r == self.concentration,
    {
        self.concentration
    }

    /// The population variance of the probabilities.
    pub fn expected_volatility(&self) -> (r: Decimal)
        ensures
            r == self.expected_volatility,
    {
        self.expected_volatility
    }

    /// The largest single bet as a share of total bet volume.
    pub fn liquidity_risk(&self) -> (r: Decimal)
        ensures
            r == self.liquidity_risk,
    {
        self.liquidity_risk
    }
}

/// The facade: one immutable configuration and one instance of each
/// engine.  Every public operation is a direct delegation; each call
/// recomputes from the full bet list supplied with it.
pub struct PredictionMarketEngine {
    config: MarketConfig,
    probability_engine: ProbabilityEngine,
    market_maker: MarketMakerEngine,
    risk_assessment: RiskAssessmentEngine,
}

impl PredictionMarketEngine {
    /// The configuration the market was created with.
    pub closed spec fn config_spec(&self) -> MarketConfig {
        self.config
    }

    /// All three engines share the facade's configuration.
    pub closed spec fn wf(&self) -> bool {
        &&& self.config_spec().wf()
        &&& self.probability_engine.config_spec() == self.config_spec()
        &&& self.market_maker.config_spec() == self.config_spec()
        &&& self.risk_assessment.config_spec() == self.config_spec()
    }

    /// Creates a market with the given liquidity parameter, outcome
    /// count, and (informational) market type.
    pub fn new(liquidity_param: Decimal, num_outcomes: usize, market_type: MarketType) -> (r:
        Self)
        requires
            num_outcomes <= probability::MAX_OUTCOMES,
        ensures
            r.wf(),
            r.config_spec() == (MarketConfig { liquidity_param, num_outcomes, market_type }),
    {
        let config = MarketConfig { liquidity_param, num_outcomes, market_type };
        PredictionMarketEngine {
            config,
            probability_engine: ProbabilityEngine::new(config),
            market_maker: MarketMakerEngine::new(config),
            risk_assessment: RiskAssessmentEngine::new(config),
        }
    }

    /// The normalized probability vector for the given bets.
    pub fn calculate_probabilities(&self, bets: &Vec<Bet>) -> (r: Result<
        Vec<Decimal>,
        MarketError,
    >)
        requires
            self.wf(),
            bets_wf(bets@),
        ensures
            probability::probabilities_post(self.config_spec(), bets@, r),
    {
        self.probability_engine.calculate_probabilities(bets)
    }

    /// The price of one outcome: exactly its probability.
    pub fn calculate_price(&self, bets: &Vec<Bet>, outcome_index: usize) -> (r: Result<
        Decimal,
        MarketError,
    >)
        requires
            self.wf(),
            bets_wf(bets@),
        ensures
            probability::price_post(self.config_spec(), bets@, outcome_index as int, r),
    {
        self.probability_engine.calculate_price(bets, outcome_index)
    }

    /// Simulates a market-making strategy against the given bets.
    pub fn simulate_market_making(&self, bets: &Vec<Bet>) -> (r: Result<
        MarketMakingStrategy,
        MarketError,
    >)
        requires
            self.wf(),
            bets_wf(bets@),
        ensures
            market_maker::strategy_post(self.config_spec(), bets@, r),
    {
        self.market_maker.simulate_strategy(bets)
    }

    /// Assesses the market's risk profile for the given bets.
    pub fn assess_market_risk(&self, bets: &Vec<Bet>) -> (r: Result<
        MarketRiskProfile,
        MarketError,
    >)
        requires
            self.wf(),
            bets_wf(bets@),
        ensures
            risk_assessment::risk_post(self.config_spec(), bets@, r),
    {
        self.risk_assessment.assess_risk(bets)
    }
}

} // verus!
