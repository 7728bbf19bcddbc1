//! Market-maker strategy: bid/ask quote vectors, their mean spread, and
//! a recommended liquidity level, all derived from the probability
//! vector of the current bet list.

use vstd::prelude::*;
use vstd::arithmetic::div_mod::*;
use vstd::arithmetic::mul::*;

use crate::entropy::{compute_entropy, entropy_model, lemma_entropy_bounds};
use crate::fixed::{Decimal, UNIT};
use crate::probability::{
    calc_ok, compute_probabilities, failure_post, lemma_probability_bounds,
    lemma_probability_sum, market_probabilities, seq_sum,
};
use crate::{bets_wf, raw_values, Bet, MarketConfig, MarketError, MarketMakingStrategy};

verus! {

/// A buy quote: 95% of the probability, slightly below market price.
pub open spec fn bid_of(p: int) -> int {
    (p * 95) / 100
}

/// A sell quote: 105% of the probability, slightly above market price.
pub open spec fn ask_of(p: int) -> int {
    (p * 105) / 100
}

/// All bid quotes of a probability vector.
pub open spec fn bid_prices_model(probs: Seq<int>) -> Seq<int> {
    probs.map_values(|p: int| bid_of(p))
}

/// All ask quotes of a probability vector.
pub open spec fn ask_prices_model(probs: Seq<int>) -> Seq<int> {
    probs.map_values(|p: int| ask_of(p))
}

/// The per-outcome bid/ask gaps.
pub open spec fn spread_gaps(probs: Seq<int>) -> Seq<int> {
    Seq::new(probs.len(), |i: int| ask_of(probs[i]) - bid_of(probs[i]))
}

/// The mean bid/ask gap across outcomes.
pub open spec fn spread_model(probs: Seq<int>) -> int {
    seq_sum(spread_gaps(probs)) / (probs.len() as int)
}

/// Recommended liquidity: the liquidity parameter grown by the entropy
/// of the probabilities — more uncertainty, more liquidity.
pub open spec fn recommended_liquidity_model(liq: int, probs: Seq<int>) -> int {
    (liq * (UNIT + entropy_model(probs))) / (UNIT as int)
}

/// Full contract of a market-making simulation: it succeeds exactly
/// when the probability computation does; the quotes are the model
/// quotes; every probability sits between its bid and its ask; the
/// spread is never negative and the recommended liquidity is positive.
pub open spec fn strategy_post(
    config: MarketConfig,
    bets: Seq<Bet>,
    r: Result<MarketMakingStrategy, MarketError>,
) -> bool {
    let n = config.num_outcomes as nat;
    let liq = config.liquidity_param@;
    let probs = market_probabilities(n, liq, bets);
    &&& (r is Ok <==> calc_ok(n, liq, bets))
    &&& r is Err ==> failure_post(n, liq, bets, r->Err_0)
    &&& r is Ok ==> {
        let s = r->Ok_0;
        &&& raw_values(s.bid_prices@) == bid_prices_model(probs)
        &&& raw_values(s.ask_prices@) == ask_prices_model(probs)
        &&& s.bid_prices@.len() == n
        &&& s.ask_prices@.len() == n
        &&& s.spread@ == spread_model(probs)
        &&& s.recommended_liquidity@ == recommended_liquidity_model(liq, probs)
        &&& forall|i: int|
            0 <= i < n ==> raw_values(s.bid_prices@)[i] <= #[trigger] probs[i] <= raw_values(
                s.ask_prices@,
            )[i]
        &&& s.spread@ >= 0
        &&& s.recommended_liquidity@ > 0
    }
}

/// Derives bid/ask quotes, spread, and a liquidity recommendation from
/// the current bet list.
pub struct MarketMakerEngine {
    config: MarketConfig,
}

impl MarketMakerEngine {
    /// The configuration the engine was built with.
    pub closed spec fn config_spec(&self) -> MarketConfig {
        self.config
    }

    pub open spec fn wf(&self) -> bool {
        self.config_spec().wf()
    }

    pub fn new(config: MarketConfig) -> (r: Self)
        requires
            config.wf(),
        ensures
            r.wf(),
            r.config_spec() == config,
    {
        MarketMakerEngine { config }
    }

    /// Simulates a market-making strategy against the given bets.
    #[verifier::loop_isolation(false)]
    pub fn simulate_strategy(&self, bets: &Vec<Bet>) -> (r: Result<
        MarketMakingStrategy,
        MarketError,
    >)
        requires
            self.wf(),
            bets_wf(bets@),
        ensures
            strategy_post(self.config_spec(), bets@, r),
    {
        let probs = match compute_probabilities(&self.config, bets) {
            Ok(p) => p,
            Err(e) => {
                return Err(e);
            },
        };
        let n = self.config.num_outcomes;
        let ghost nn = n as nat;
        let ghost liq_g = self.config.liquidity_param@;
        let ghost model = market_probabilities(nn, liq_g, bets@);
        proof {
            assert(raw_values(probs@) == model);
            assert forall|k: int| 0 <= k < nn implies 0 <= #[trigger] model[k] <= UNIT by {
                lemma_probability_bounds(nn, liq_g, bets@, k);
            }
            assert forall|k: int| 0 <= k < nn implies 0 <= (#[trigger] probs@[k])@ <= UNIT by {
                assert(probs@[k]@ == model[k]);
            }
        }

        // Bid quotes: 95% of each probability, never above it.
        let mut bids: Vec<Decimal> = Vec::new();
        let mut i: usize = 0;
        while i < n
            invariant
                i <= n,
                bids@.len() == i,
                forall|k: int| 0 <= k < i ==> (#[trigger] bids@[k])@ == bid_of(model[k]),
                forall|k: int| 0 <= k < i ==> 0 <= (#[trigger] bids@[k])@ <= model[k],
            decreases n - i,
        {
            let p = probs[i].mantissa();
            let bid = (p as u128) * 95 / 100;
            proof {
                lemma_div_is_ordered(95 * (p as int), 100 * (p as int), 100);
                lemma_div_multiples_vanish(p as int, 100);
                lemma_div_pos_is_pos(95 * (p as int), 100);
            }
            bids.push(Decimal { raw: bid as i128 });
            i = i + 1;
        }

        // Ask quotes: 105% of each probability, never below it.
        let mut asks: Vec<Decimal> = Vec::new();
        let mut j: usize = 0;
        while j < n
            invariant
                j <= n,
                asks@.len() == j,
                forall|k: int| 0 <= k < j ==> (#[trigger] asks@[k])@ == ask_of(model[k]),
                forall|k: int| 0 <= k < j ==> model[k] <= (#[trigger] asks@[k])@ <= 2 * UNIT,
            decreases n - j,
        {
            let p = probs[j].mantissa();
            let ask = (p as u128) * 105 / 100;
            proof {
                lemma_div_is_ordered(100 * (p as int), 105 * (p as int), 100);
                lemma_div_is_ordered(105 * (p as int), 105 * UNIT, 100);
                lemma_div_multiples_vanish(p as int, 100);
            }
            asks.push(Decimal { raw: ask as i128 });
            j = j + 1;
        }

        // Mean bid/ask gap.
        let ghost gaps = spread_gaps(model);
        proof {
            assert(gaps.take(0) =~= Seq::<int>::empty());
        }
        let mut gap_sum: u128 = 0;
        let mut k: usize = 0;
        while k < n
            invariant
                k <= n,
                gap_sum as int == seq_sum(gaps.take(k as int)),
                gap_sum as int <= (k as int) * (2 * UNIT),
            decreases n - k,
        {
            proof {
                assert(gaps.take(k as int + 1).drop_last() =~= gaps.take(k as int));
                assert(gaps.take(k as int + 1).last() == gaps[k as int]);
                assert((k as int) * (2 * UNIT) + 2 * UNIT == (k as int + 1) * (2 * UNIT))
                    by (nonlinear_arith);
                assert((k as int + 1) * (2 * UNIT) <= (n as int) * (2 * UNIT))
                    by (nonlinear_arith)
                    requires
                        k as int + 1 <= n as int,
                ;
                assert((n as int) * (2 * UNIT) <= 1_000_000 * (2 * UNIT)) by (nonlinear_arith)
                    requires
                        n <= 1_000_000,
                ;
            }
            let gap = asks[k].mantissa() - bids[k].mantissa();
            gap_sum = gap_sum + (gap as u128);
            k = k + 1;
        }
        proof {
            assert(gaps.take(n as int) =~= gaps);
            lemma_div_pos_is_pos(seq_sum(gaps), n as int);
            lemma_multiply_divide_le(seq_sum(gaps), n as int, 2 * UNIT);
        }
        let spread = gap_sum / (n as u128);

        // Liquidity recommendation, grown by the entropy.
        let ent = compute_entropy(&probs);
        proof {
            lemma_probability_sum(nn, liq_g, bets@);
            lemma_entropy_bounds(model);
            assert(64 * seq_sum(model) <= 64 * UNIT) by (nonlinear_arith)
                requires
                    seq_sum(model) <= UNIT,
            ;
        }
        let liq = self.config.liquidity_param.mantissa();
        let lu = liq as u128;
        let eu = ent as u128;
        proof {
            assert((lu as int) * (UNIT + eu as int) <= crate::probability::LIQUIDITY_CAP * (65
                * UNIT)) by (nonlinear_arith)
                requires
                    0 < lu as int <= crate::probability::LIQUIDITY_CAP,
                    UNIT <= UNIT + eu as int <= 65 * UNIT,
            ;
            assert((lu as int) * (UNIT + eu as int) >= (lu as int) * UNIT) by (nonlinear_arith)
                requires
                    lu as int > 0,
                    eu as int >= 0,
            ;
            assert((lu as int) * UNIT == UNIT * (lu as int)) by (nonlinear_arith);
            lemma_div_is_ordered(
                (lu as int) * UNIT,
                (lu as int) * (UNIT + eu as int),
                UNIT as int,
            );
            lemma_div_multiples_vanish(lu as int, UNIT as int);
            lemma_div_nonincreasing((lu as int) * (UNIT + eu as int), UNIT as int);
        }
        let rec = lu * ((UNIT as u128) + eu) / (UNIT as u128);

        let result = MarketMakingStrategy {
            bid_prices: bids,
            ask_prices: asks,
            spread: Decimal { raw: spread as i128 },
            recommended_liquidity: Decimal { raw: rec as i128 },
        };
        proof {
            assert(raw_values(result.bid_prices@) =~= bid_prices_model(model));
            assert(raw_values(result.ask_prices@) =~= ask_prices_model(model));
            assert forall|q: int|
                0 <= q < nn implies raw_values(result.bid_prices@)[q] <= #[trigger] model[q]
                <= raw_values(result.ask_prices@)[q] by {
                assert(bids@[q]@ <= model[q] <= asks@[q]@);
            }
            assert(result.spread@ == spread_model(model));
            assert(result.recommended_liquidity@ == recommended_liquidity_model(liq_g, model));
        }
        Ok(result)
    }
}

} // verus!
