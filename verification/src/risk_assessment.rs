//! Risk assessment: entropy, concentration, volatility, and liquidity
//! risk of a market, derived from the probability vector and the raw
//! bet list.

use vstd::prelude::*;
use vstd::arithmetic::div_mod::*;
use vstd::arithmetic::mul::*;

use crate::entropy::{compute_entropy, entropy_model};
use crate::fixed::{Decimal, UNIT};
use crate::probability::{
    accumulated_totals, calc_ok, compute_probabilities, failure_post, has_invalid_bet,
    lemma_probability_bounds, lemma_probability_sum, lemma_seq_max_ge, lemma_seq_max_le_sum,
    lemma_seq_sum_bounds, lemma_seq_sum_nonneg, lemma_seq_sum_take_le, lemma_seq_sum_update,
    lemma_totals_ge_seed, lemma_totals_len, lemma_totals_monotone, market_probabilities,
    market_totals, seed_share, seq_max, seq_sum, TOTAL_CAP,
};
use crate::{bets_wf, raw_values, Bet, MarketConfig, MarketError, MarketRiskProfile};

verus! {

/// The stake amounts of a bet list, in raw fixed-point form.
pub open spec fn bet_amounts(bets: Seq<Bet>) -> Seq<int> {
    bets.map_values(|b: Bet| b.amount@)
}

/// Market concentration: the single largest outcome probability.
pub open spec fn concentration_model(probs: Seq<int>) -> int {
    seq_max(probs)
}

/// Squared deviations of the probabilities from their mean.
pub open spec fn deviations_sq(probs: Seq<int>, mean: int) -> Seq<int> {
    Seq::new(probs.len(), |i: int| (probs[i] - mean) * (probs[i] - mean))
}

/// Expected volatility: the population variance of the probabilities,
/// `mean((p_i - mean_p)^2)`, in raw fixed-point form.
pub open spec fn volatility_model(probs: Seq<int>) -> int {
    let mean = seq_sum(probs) / (probs.len() as int);
    seq_sum(deviations_sq(probs, mean)) / ((probs.len() as int) * (UNIT as int))
}

/// Liquidity risk: the largest single bet as a share of total bet
/// volume, or exactly one whole unit for an empty or zero-volume list.
pub open spec fn liquidity_risk_model(bets: Seq<Bet>) -> int {
    let amounts = bet_amounts(bets);
    let total = seq_sum(amounts);
    if total > 0 {
        (seq_max(amounts) * UNIT) / total
    } else {
        UNIT as int
    }
}

/// Full contract of a risk assessment: it succeeds exactly when the
/// probability computation does, and every metric equals its model,
/// within its documented range.
pub open spec fn risk_post(
    config: MarketConfig,
    bets: Seq<Bet>,
    r: Result<MarketRiskProfile, MarketError>,
) -> bool {
    let n = config.num_outcomes as nat;
    let liq = config.liquidity_param@;
    let probs = market_probabilities(n, liq, bets);
    &&& (r is Ok <==> calc_ok(n, liq, bets))
    &&& r is Err ==> failure_post(n, liq, bets, r->Err_0)
    &&& r is Ok ==> {
        let p = r->Ok_0;
        &&& raw_values(p.probabilities@) == probs
        &&& p.probabilities@.len() == n
        &&& p.entropy@ == entropy_model(probs)
        &&& p.entropy@ >= 0
        &&& p.concentration@ == concentration_model(probs)
        &&& (n as int) * p.concentration@ > UNIT - n
        &&& p.concentration@ <= UNIT
        &&& p.expected_volatility@ == volatility_model(probs)
        &&& p.expected_volatility@ >= 0
        &&& p.liquidity_risk@ == liquidity_risk_model(bets)
        &&& 0 <= p.liquidity_risk@ <= UNIT
    }
}

// ---------------------------------------------------------------------
// Lemmas tying bet volume to the accumulated outcome totals.
// ---------------------------------------------------------------------

/// The accumulated totals carry exactly the seeds plus all stakes.
proof fn lemma_totals_sum(n: nat, seed: int, bets: Seq<Bet>)
    requires
        n >= 1,
        !has_invalid_bet(bets, n as int),
    ensures
        seq_sum(accumulated_totals(n, seed, bets)) == (n as int) * seed + seq_sum(
            bet_amounts(bets),
        ),
    decreases bets.len(),
{
    lemma_totals_len(n, seed, bets);
    if bets.len() == 0 {
        lemma_seq_sum_bounds(accumulated_totals(n, seed, bets), seed, seed);
    } else {
        let front = bets.drop_last();
        assert(!has_invalid_bet(front, n as int)) by {
            assert forall|i: int|
                0 <= i < front.len() implies (#[trigger] front[i].option_id as int)
                < n as int by {
                assert(front[i] == bets[i]);
                assert(!(bets[i].option_id >= n as int));
            }
        }
        lemma_totals_sum(n, seed, front);
        lemma_totals_len(n, seed, front);
        let prev = accumulated_totals(n, seed, front);
        let b = bets.last();
        assert(!(b.option_id >= n as int));
        lemma_seq_sum_update(prev, b.option_id as int, prev[b.option_id as int] + b.amount@);
        assert(bet_amounts(front) =~= bet_amounts(bets).drop_last());
        assert(bet_amounts(bets).last() == b.amount@);
    }
}

/// Every single stake is at most its outcome's accumulated total.
proof fn lemma_amount_le_total(n: nat, seed: int, bets: Seq<Bet>, i: int)
    requires
        n >= 1,
        seed >= 0,
        bets_wf(bets),
        !has_invalid_bet(bets, n as int),
        0 <= i < bets.len(),
    ensures
        bets[i].amount@ <= accumulated_totals(n, seed, bets)[bets[i].option_id as int],
{
    let id = bets[i].option_id as int;
    assert(!(bets[i].option_id >= n as int));
    let prev = accumulated_totals(n, seed, bets.take(i));
    let cur = accumulated_totals(n, seed, bets.take(i + 1));
    lemma_totals_len(n, seed, bets.take(i));
    assert(bets.take(i + 1).drop_last() =~= bets.take(i));
    assert(bets.take(i + 1).last() == bets[i]);
    assert(cur == prev.update(id, prev[id] + bets[i].amount@));
    assert(bets_wf(bets.take(i)));
    lemma_totals_ge_seed(n, seed, bets.take(i));
    assert(prev[id] >= seed >= 0);
    lemma_totals_monotone(n, seed, bets, i + 1);
    assert(accumulated_totals(n, seed, bets)[id] >= cur[id]);
}

// ---------------------------------------------------------------------
// Law of the liquidity-risk metric.
// ---------------------------------------------------------------------

/// Law: an empty bet list always carries the maximal liquidity risk of
/// exactly one; and in general the risk is exactly one precisely when
/// the volume is zero or a single bet carries all of it (the largest
/// stake equals the total).
pub proof fn lemma_liquidity_risk_one(bets: Seq<Bet>)
    requires
        bets_wf(bets),
    ensures
        bets.len() == 0 ==> liquidity_risk_model(bets) == UNIT,
        liquidity_risk_model(bets) == UNIT <==> (seq_sum(bet_amounts(bets)) == 0 || seq_max(
            bet_amounts(bets),
        ) == seq_sum(bet_amounts(bets))),
{
    let amounts = bet_amounts(bets);
    let total = seq_sum(amounts);
    let maxb = seq_max(amounts);
    assert(forall|k: int| 0 <= k < amounts.len() ==> #[trigger] amounts[k] >= 0) by {
        assert(forall|k: int| 0 <= k < bets.len() ==> (#[trigger] bets[k]).wf());
    }
    lemma_seq_sum_nonneg(amounts);
    if total > 0 {
        lemma_seq_max_le_sum(amounts);
        if maxb == total {
            lemma_div_multiples_vanish(UNIT as int, total);
            assert(total * UNIT == UNIT * total) by (nonlinear_arith);
            assert(liquidity_risk_model(bets) == UNIT);
        } else {
            assert(maxb < total);
            assert(maxb * UNIT >= 0) by (nonlinear_arith)
                requires
                    maxb >= 0,
            ;
            assert(maxb * UNIT < total * UNIT) by (nonlinear_arith)
                requires
                    maxb < total,
                    UNIT > 0,
            ;
            assert(total * UNIT == UNIT * total) by (nonlinear_arith);
            lemma_multiply_divide_lt(maxb * UNIT, total, UNIT as int);
            assert(liquidity_risk_model(bets) < UNIT);
        }
    }
}

// ---------------------------------------------------------------------
// The risk assessment engine.
// ---------------------------------------------------------------------

/// Derives entropy, concentration, volatility, and liquidity-risk
/// metrics from the probability computation and the raw bet list.
pub struct RiskAssessmentEngine {
    config: MarketConfig,
}

impl RiskAssessmentEngine {
    /// The configuration the engine was built with.
    pub closed spec fn config_spec(&self) -> MarketConfig {
        self.config
    }

    pub open spec fn wf(&self) -> bool {
        self.config_spec().wf()
    }

    pub fn new(config: MarketConfig) -> (r: Self)
        requires
            config.wf(),
        ensures
            r.wf(),
            r.config_spec() == config,
    {
        RiskAssessmentEngine { config }
    }

    /// Assesses the market's risk profile for the given bets.
    #[verifier::loop_isolation(false)]
    pub fn assess_risk(&self, bets: &Vec<Bet>) -> (r: Result<MarketRiskProfile, MarketError>)
        requires
            self.wf(),
            bets_wf(bets@),
        ensures
            risk_post(self.config_spec(), bets@, r),
    {
        let probs = match compute_probabilities(&self.config, bets) {
            Ok(p) => p,
            Err(e) => {
                return Err(e);
            },
        };
        let n = self.config.num_outcomes;
        let ghost nn = n as nat;
        let ghost liq_g = self.config.liquidity_param@;
        let ghost model = market_probabilities(nn, liq_g, bets@);
        proof {
            assert(raw_values(probs@) == model);
            assert forall|k: int| 0 <= k < nn implies 0 <= #[trigger] model[k] <= UNIT by {
                lemma_probability_bounds(nn, liq_g, bets@, k);
            }
            assert forall|k: int| 0 <= k < nn implies 0 <= (#[trigger] probs@[k])@ <= UNIT by {
                assert(probs@[k]@ == model[k]);
            }
        }

        // Entropy of the probability vector.
        let ent = compute_entropy(&probs);

        // Concentration: the dominant probability.
        proof {
            assert(model.take(0) =~= Seq::<int>::empty());
        }
        let mut conc: u128 = 0;
        let mut ci: usize = 0;
        while ci < n
            invariant
                ci <= n,
                conc as int == seq_max(model.take(ci as int)),
                conc <= UNIT as u128,
            decreases n - ci,
        {
            proof {
                assert(model.take(ci as int + 1).drop_last() =~= model.take(ci as int));
                assert(model.take(ci as int + 1).last() == model[ci as int]);
            }
            let p = probs[ci].mantissa();
            if (p as u128) > conc {
                conc = p as u128;
            }
            ci = ci + 1;
        }
        proof {
            assert(model.take(n as int) =~= model);
            lemma_probability_sum(nn, liq_g, bets@);
            assert forall|k: int| 0 <= k < model.len() implies 0 <= #[trigger] model[k]
                <= conc as int by {
                lemma_seq_max_ge(model, k);
            }
            lemma_seq_sum_bounds(model, 0, conc as int);
            assert((nn as int) * (conc as int) > UNIT - nn);
        }

        // Volatility: population variance of the probabilities.
        let ghost psum = seq_sum(model);
        proof {
            assert(model.take(0) =~= Seq::<int>::empty());
        }
        let mut sum_p: u128 = 0;
        let mut vi: usize = 0;
        while vi < n
            invariant
                vi <= n,
                sum_p as int == seq_sum(model.take(vi as int)),
                sum_p as int <= (vi as int) * UNIT,
            decreases n - vi,
        {
            proof {
                assert(model.take(vi as int + 1).drop_last() =~= model.take(vi as int));
                assert(model.take(vi as int + 1).last() == model[vi as int]);
                assert((vi as int) * UNIT + UNIT == (vi as int + 1) * UNIT) by (nonlinear_arith);
                assert((vi as int + 1) * UNIT <= (n as int) * UNIT) by (nonlinear_arith)
                    requires
                        vi as int + 1 <= n as int,
                ;
                assert((n as int) * UNIT <= 1_000_000 * UNIT) by (nonlinear_arith)
                    requires
                        n <= 1_000_000,
                ;
            }
            sum_p = sum_p + (probs[vi].mantissa() as u128);
            vi = vi + 1;
        }
        proof {
            assert(model.take(n as int) =~= model);
        }
        let mean = sum_p / (n as u128);
        let ghost mean_g = psum / (n as int);
        proof {
            lemma_multiply_divide_le(psum, n as int, UNIT as int);
            lemma_div_pos_is_pos(psum, n as int);
        }
        let ghost devs = deviations_sq(model, mean_g);
        proof {
            assert(devs.take(0) =~= Seq::<int>::empty());
        }
        let mut dev_sum: u128 = 0;
        let mut di: usize = 0;
        while di < n
            invariant
                di <= n,
                dev_sum as int == seq_sum(devs.take(di as int)),
                dev_sum as int <= (di as int) * (UNIT * UNIT),
            decreases n - di,
        {
            proof {
                assert(devs.take(di as int + 1).drop_last() =~= devs.take(di as int));
                assert(devs.take(di as int + 1).last() == devs[di as int]);
                assert((di as int) * (UNIT * UNIT) + UNIT * UNIT == (di as int + 1) * (UNIT
                    * UNIT)) by (nonlinear_arith);
                assert((di as int + 1) * (UNIT * UNIT) <= 1_000_000 * (UNIT * UNIT))
                    by (nonlinear_arith)
                    requires
                        di as int + 1 <= 1_000_000,
                ;
            }
            assert(probs@[di as int]@ == model[di as int]) by {
                assert(raw_values(probs@)[di as int] == probs@[di as int]@);
            }
            let p = probs[di].mantissa() as u128;
            let d = if p >= mean {
                p - mean
            } else {
                mean - p
            };
            proof {
                assert((d as int) * (d as int) == (model[di as int] - mean_g) * (model[
                    di as int
                ] - mean_g)) by (nonlinear_arith)
                    requires
                        d as int == if model[di as int] >= mean_g {
                            model[di as int] - mean_g
                        } else {
                            mean_g - model[di as int]
                        },
                ;
                assert((d as int) * (d as int) <= UNIT * UNIT) by (nonlinear_arith)
                    requires
                        0 <= d as int <= UNIT as int,
                ;
            }
            dev_sum = dev_sum + d * d;
            di = di + 1;
        }
        proof {
            assert(devs.take(n as int) =~= devs);
            assert forall|k: int| 0 <= k < devs.len() implies #[trigger] devs[k] >= 0 by {
                assert(devs[k] == (model[k] - mean_g) * (model[k] - mean_g));
                assert((model[k] - mean_g) * (model[k] - mean_g) >= 0) by (nonlinear_arith);
            }
            lemma_seq_sum_nonneg(devs);
            assert((n as u128) * (UNIT as u128) > 0) by (nonlinear_arith)
                requires
                    n >= 1,
            ;
            lemma_div_pos_is_pos(seq_sum(devs), (n as int) * (UNIT as int));
        }
        let vol = dev_sum / ((n as u128) * (UNIT as u128));
        assert(vol as int == volatility_model(model));

        // Liquidity risk over the raw bet list.
        let ghost amounts = bet_amounts(bets@);
        let ghost seed_g = seed_share(liq_g, n as int);
        proof {
            assert(forall|k: int| 0 <= k < amounts.len() ==> #[trigger] amounts[k] >= 0) by {
                assert(forall|k: int| 0 <= k < bets@.len() ==> (#[trigger] bets@[k]).wf());
            }
            lemma_totals_sum(nn, seed_g, bets@);
            lemma_totals_len(nn, seed_g, bets@);
            lemma_totals_ge_seed(nn, seed_g, bets@);
            lemma_div_pos_is_pos(liq_g, n as int);
            lemma_seq_sum_bounds(market_totals(nn, liq_g, bets@), seed_g, TOTAL_CAP as int);
            assert(seq_sum(amounts) <= (nn as int) * TOTAL_CAP) by (nonlinear_arith)
                requires
                    seq_sum(amounts) + (nn as int) * seed_g == seq_sum(
                        market_totals(nn, liq_g, bets@),
                    ),
                    seq_sum(market_totals(nn, liq_g, bets@)) <= (nn as int) * TOTAL_CAP,
                    seed_g >= 0,
                    nn >= 1,
            ;
            assert((nn as int) * TOTAL_CAP <= 1_000_000 * TOTAL_CAP) by (nonlinear_arith)
                requires
                    nn <= 1_000_000,
            ;
            assert(amounts.take(0) =~= Seq::<int>::empty());
        }
        let mut volume: u128 = 0;
        let mut max_bet: u128 = 0;
        let mut bi: usize = 0;
        while bi < bets.len()
            invariant
                bi <= bets@.len(),
                volume as int == seq_sum(amounts.take(bi as int)),
                max_bet as int == seq_max(amounts.take(bi as int)),
                max_bet <= TOTAL_CAP as u128,
            decreases bets@.len() - bi,
        {
            proof {
                assert(amounts.take(bi as int + 1).drop_last() =~= amounts.take(bi as int));
                assert(amounts.take(bi as int + 1).last() == amounts[bi as int]);
                lemma_seq_sum_take_le(amounts, bi as int + 1);
                lemma_amount_le_total(nn, seed_g, bets@, bi as int);
                assert forall|k: int|
                    0 <= k < bi as int + 1 implies #[trigger] amounts.take(bi as int + 1)[k]
                    >= 0 by {
                    assert(amounts[k] >= 0);
                }
                lemma_seq_sum_nonneg(amounts.take(bi as int + 1));
            }
            let amt = bets[bi].amount.mantissa();
            assert(amt >= 0) by {
                assert(bets@[bi as int].wf());
            }
            volume = volume + (amt as u128);
            if (amt as u128) > max_bet {
                max_bet = amt as u128;
            }
            bi = bi + 1;
        }
        proof {
            assert(amounts.take(bets@.len() as int) =~= amounts);
        }
        let risk: u128;
        if volume > 0 {
            proof {
                lemma_seq_max_le_sum(amounts);
                assert((max_bet as int) * UNIT >= 0) by (nonlinear_arith)
                    requires
                        max_bet as int >= 0,
                ;
                assert((max_bet as int) * UNIT <= (volume as int) * UNIT) by (nonlinear_arith)
                    requires
                        max_bet as int <= volume as int,
                        UNIT > 0,
                ;
                assert((volume as int) * UNIT == UNIT * (volume as int)) by (nonlinear_arith);
                lemma_div_is_ordered(
                    (max_bet as int) * UNIT,
                    (volume as int) * UNIT,
                    volume as int,
                );
                lemma_div_multiples_vanish(UNIT as int, volume as int);
                lemma_div_pos_is_pos((max_bet as int) * UNIT, volume as int);
                assert((max_bet as int) * UNIT <= TOTAL_CAP * UNIT) by (nonlinear_arith)
                    requires
                        max_bet as int <= TOTAL_CAP,
                        UNIT > 0,
                ;
            }
            risk = max_bet * (UNIT as u128) / volume;
        } else {
            risk = UNIT as u128;
        }
        assert(risk as int == liquidity_risk_model(bets@));

        let result = MarketRiskProfile {
            probabilities: probs,
            entropy: Decimal { raw: ent },
            concentration: Decimal { raw: conc as i128 },
            expected_volatility: Decimal { raw: vol as i128 },
            liquidity_risk: Decimal { raw: risk as i128 },
        };
        Ok(result)
    }
}

} // verus!
