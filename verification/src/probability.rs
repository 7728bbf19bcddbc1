//! Probability computation: converts a configuration and bet list into a
//! normalized probability vector via bounded-exponential aggregation.
//!
//! Every outcome is seeded with an equal share of the liquidity parameter,
//! matching bets accumulate onto their outcome, the totals are scaled so
//! that the dominant outcome maps to an exponent of exactly 10, and the
//! exponentials are normalized into probabilities.  All arithmetic runs on
//! raw fixed-point integers (twelve fractional digits).

use vstd::prelude::*;
use vstd::arithmetic::div_mod::*;
use vstd::arithmetic::mul::*;

use crate::fixed::{Decimal, UNIT, EXP_MAX, exp_value, exp_unit};
use crate::{Bet, MarketConfig, MarketError, bets_wf, raw_values};

verus! {

/// Largest outcome count the fixed-point pipeline supports: far above any
/// real market, yet small enough that the per-outcome exponential floor
/// keeps every probability strictly positive.
pub const MAX_OUTCOMES: usize = 1_000_000;

/// Largest representable liquidity parameter (10^12 whole units).
pub const LIQUIDITY_CAP: i128 = 1_000_000_000_000_000_000_000_000;

/// Largest accumulated stake a single outcome may carry (10^13 whole
/// units); beyond it the exponential scaling would overflow.
pub const TOTAL_CAP: i128 = 10_000_000_000_000_000_000_000_000;

// ---------------------------------------------------------------------
// The mathematical model of the computation.
// ---------------------------------------------------------------------

/// Whether some bet references an outcome index out of range.
pub open spec fn has_invalid_bet(bets: Seq<Bet>, n: int) -> bool {
    exists|i: int| 0 <= i < bets.len() && #[trigger] bets[i].option_id >= n
}

/// The outcome index carried by the first bet that is out of range.
pub open spec fn first_invalid_id(bets: Seq<Bet>, n: int) -> int
    decreases bets.len(),
{
    if bets.len() == 0 {
        0
    } else if bets[0].option_id >= n {
        bets[0].option_id as int
    } else {
        first_invalid_id(bets.drop_first(), n)
    }
}

/// Each outcome's seed: an equal share of the liquidity parameter.
pub open spec fn seed_share(liq: int, n: int) -> int {
    liq / n
}

/// Per-outcome totals after seeding every slot and accumulating the
/// stakes of the given bets in order.
pub open spec fn accumulated_totals(n: nat, seed: int, bets: Seq<Bet>) -> Seq<int>
    decreases bets.len(),
{
    if bets.len() == 0 {
        Seq::new(n, |i: int| seed)
    } else {
        let prev = accumulated_totals(n, seed, bets.drop_last());
        let b = bets.last();
        if b.option_id < n {
            prev.update(b.option_id as int, prev[b.option_id as int] + b.amount@)
        } else {
            prev
        }
    }
}

/// Largest element of a sequence (0 for the empty sequence).
pub open spec fn seq_max(s: Seq<int>) -> int
    decreases s.len(),
{
    if s.len() == 0 {
        0
    } else {
        let m = seq_max(s.drop_last());
        if s.last() > m {
            s.last()
        } else {
            m
        }
    }
}

/// Sum of a sequence.
pub open spec fn seq_sum(s: Seq<int>) -> int
    decreases s.len(),
{
    if s.len() == 0 {
        0
    } else {
        seq_sum(s.drop_last()) + s.last()
    }
}

/// The scaled exponent for one outcome total: `total / (max / 10)` in raw
/// fixed-point form, which bounds the dominant outcome's exponent to 10.
pub open spec fn exponent_arg(total: int, max: int) -> int {
    (10 * total * UNIT) / max
}

/// The exponentials of all scaled outcome totals.
pub open spec fn exp_totals(totals: Seq<int>, max: int) -> Seq<int> {
    totals.map_values(|t: int| exp_value(exponent_arg(t, max)))
}

/// Exponentials normalized into probabilities.
pub open spec fn normalized(exps: Seq<int>, sum: int) -> Seq<int> {
    exps.map_values(|e: int| (e * UNIT) / sum)
}

/// The per-outcome totals of a full computation.
pub open spec fn market_totals(n: nat, liq: int, bets: Seq<Bet>) -> Seq<int> {
    accumulated_totals(n, seed_share(liq, n as int), bets)
}

/// The probability vector of a full computation, in raw fixed-point form.
pub open spec fn market_probabilities(n: nat, liq: int, bets: Seq<Bet>) -> Seq<int> {
    let totals = market_totals(n, liq, bets);
    let exps = exp_totals(totals, seq_max(totals));
    normalized(exps, seq_sum(exps))
}

/// Whether the liquidity parameter is acceptable: positive and within the
/// fixed-precision range.
pub open spec fn liquidity_ok(liq: int) -> bool {
    0 < liq <= LIQUIDITY_CAP
}

/// Whether every accumulated outcome total stays within `TOTAL_CAP`.
pub open spec fn totals_within_cap(n: nat, liq: int, bets: Seq<Bet>) -> bool {
    forall|j: int| 0 <= j < n ==> #[trigger] market_totals(n, liq, bets)[j] <= TOTAL_CAP
}

/// Exactly when the probability computation succeeds: valid outcome
/// indices, an acceptable liquidity parameter, at least one outcome,
/// accumulated totals within range, and a positive dominant total.
pub open spec fn calc_ok(n: nat, liq: int, bets: Seq<Bet>) -> bool {
    &&& !has_invalid_bet(bets, n as int)
    &&& liquidity_ok(liq)
    &&& n >= 1
    &&& totals_within_cap(n, liq, bets)
    &&& seq_max(market_totals(n, liq, bets)) > 0
}

// ---------------------------------------------------------------------
// Lemmas about the model.
// ---------------------------------------------------------------------

/// If every bet before position `i` is in range and the bet at `i` is not,
/// then `first_invalid_id` is the id carried by the bet at `i`.
proof fn lemma_first_invalid(bets: Seq<Bet>, n: int, i: int)
    requires
        0 <= i < bets.len(),
        forall|k: int| 0 <= k < i ==> (#[trigger] bets[k].option_id) < n,
        bets[i].option_id >= n,
    ensures
        first_invalid_id(bets, n) == bets[i].option_id,
    decreases i,
{
    if i > 0 {
        lemma_first_invalid(bets.drop_first(), n, i - 1);
    }
}

/// Accumulated totals always have one slot per outcome.
pub proof fn lemma_totals_len(n: nat, seed: int, bets: Seq<Bet>)
    ensures
        accumulated_totals(n, seed, bets).len() == n,
    decreases bets.len(),
{
    if bets.len() > 0 {
        lemma_totals_len(n, seed, bets.drop_last());
    }
}

/// With non-negative stakes, every slot stays at or above the seed.
pub proof fn lemma_totals_ge_seed(n: nat, seed: int, bets: Seq<Bet>)
    requires
        bets_wf(bets),
    ensures
        forall|j: int|
            0 <= j < n ==> #[trigger] accumulated_totals(n, seed, bets)[j] >= seed,
    decreases bets.len(),
{
    lemma_totals_len(n, seed, bets);
    if bets.len() > 0 {
        assert(bets_wf(bets.drop_last()));
        lemma_totals_ge_seed(n, seed, bets.drop_last());
        lemma_totals_len(n, seed, bets.drop_last());
        assert(bets.last().wf());
    }
}

/// With non-negative stakes, processing more bets never lowers a slot.
pub proof fn lemma_totals_monotone(n: nat, seed: int, bets: Seq<Bet>, i: int)
    requires
        bets_wf(bets),
        0 <= i <= bets.len(),
    ensures
        forall|j: int|
            0 <= j < n ==> #[trigger] accumulated_totals(n, seed, bets.take(i))[j]
                <= accumulated_totals(n, seed, bets)[j],
    decreases bets.len() - i,
{
    lemma_totals_len(n, seed, bets.take(i));
    if i == bets.len() {
        assert(bets.take(i) =~= bets);
    } else {
        lemma_totals_monotone(n, seed, bets, i + 1);
        lemma_totals_len(n, seed, bets.take(i + 1));
        assert(bets.take(i + 1).drop_last() =~= bets.take(i));
        assert(bets.take(i + 1).last() == bets[i]);
        assert(bets[i].wf());
        let prev = accumulated_totals(n, seed, bets.take(i));
        let cur = accumulated_totals(n, seed, bets.take(i + 1));
        assert forall|j: int| 0 <= j < n implies prev[j] <= #[trigger] cur[j] by {
            let id = bets[i].option_id as int;
            if id < n {
                assert(cur == prev.update(id, prev[id] + bets[i].amount@));
                if j != id {
                    assert(cur[j] == prev[j]);
                }
            }
        }
        assert forall|j: int|
            0 <= j < n implies #[trigger] accumulated_totals(n, seed, bets.take(i))[j]
            <= accumulated_totals(n, seed, bets)[j] by {
            assert(cur[j] <= accumulated_totals(n, seed, bets)[j]);
        }
    }
}

/// The maximum bounds every element from above.
pub proof fn lemma_seq_max_ge(s: Seq<int>, i: int)
    requires
        0 <= i < s.len(),
    ensures
        seq_max(s) >= s[i],
    decreases s.len(),
{
    if i + 1 < s.len() {
        lemma_seq_max_ge(s.drop_last(), i);
    }
}

/// Element-wise bounds give bounds on the sum.
pub proof fn lemma_seq_sum_bounds(s: Seq<int>, lo: int, hi: int)
    requires
        forall|i: int| 0 <= i < s.len() ==> lo <= #[trigger] s[i] <= hi,
    ensures
        s.len() * lo <= seq_sum(s) <= s.len() * hi,
    decreases s.len(),
{
    if s.len() == 0 {
    } else {
        lemma_seq_sum_bounds(s.drop_last(), lo, hi);
        assert((s.len() - 1) * lo + lo == s.len() * lo) by (nonlinear_arith);
        assert((s.len() - 1) * hi + hi == s.len() * hi) by (nonlinear_arith);
    }
}

/// Element-wise lower bound on the sum.
pub proof fn lemma_seq_sum_lower(s: Seq<int>, lo: int)
    requires
        forall|i: int| 0 <= i < s.len() ==> #[trigger] s[i] >= lo,
    ensures
        seq_sum(s) >= s.len() * lo,
    decreases s.len(),
{
    if s.len() == 0 {
    } else {
        lemma_seq_sum_lower(s.drop_last(), lo);
        assert((s.len() - 1) * lo + lo == s.len() * lo) by (nonlinear_arith);
    }
}

/// The sum dominates each single element, with every other element
/// contributing at least `lo`.
pub proof fn lemma_seq_sum_ge_elem(s: Seq<int>, lo: int, i: int)
    requires
        0 <= lo,
        0 <= i < s.len(),
        forall|k: int| 0 <= k < s.len() ==> #[trigger] s[k] >= lo,
    ensures
        seq_sum(s) >= s[i] + (s.len() - 1) * lo,
    decreases s.len(),
{
    if i + 1 == s.len() {
        lemma_seq_sum_lower(s.drop_last(), lo);
    } else {
        lemma_seq_sum_ge_elem(s.drop_last(), lo, i);
        assert((s.len() - 2) * lo + lo == (s.len() - 1) * lo) by (nonlinear_arith);
    }
}

/// A sequence of non-negative values has a non-negative sum.
pub proof fn lemma_seq_sum_nonneg(s: Seq<int>)
    requires
        forall|i: int| 0 <= i < s.len() ==> #[trigger] s[i] >= 0,
    ensures
        seq_sum(s) >= 0,
    decreases s.len(),
{
    if s.len() > 0 {
        lemma_seq_sum_nonneg(s.drop_last());
    }
}

/// Replacing one element changes the sum by the difference.
pub proof fn lemma_seq_sum_update(s: Seq<int>, i: int, v: int)
    requires
        0 <= i < s.len(),
    ensures
        seq_sum(s.update(i, v)) == seq_sum(s) - s[i] + v,
    decreases s.len(),
{
    if i + 1 == s.len() {
        assert(s.update(i, v).drop_last() =~= s.drop_last());
        assert(s.update(i, v).last() == v);
    } else {
        assert(s.update(i, v).drop_last() =~= s.drop_last().update(i, v));
        assert(s.update(i, v).last() == s.last());
        lemma_seq_sum_update(s.drop_last(), i, v);
    }
}

/// For non-negative values, a prefix sum never exceeds the full sum.
pub proof fn lemma_seq_sum_take_le(s: Seq<int>, i: int)
    requires
        forall|k: int| 0 <= k < s.len() ==> #[trigger] s[k] >= 0,
        0 <= i <= s.len(),
    ensures
        seq_sum(s.take(i)) <= seq_sum(s),
    decreases s.len() - i,
{
    if i == s.len() {
        assert(s.take(i) =~= s);
    } else {
        lemma_seq_sum_take_le(s, i + 1);
        assert(s.take(i + 1).drop_last() =~= s.take(i));
        assert(s.take(i + 1).last() == s[i]);
    }
}

/// For non-negative values, the maximum never exceeds the sum.
pub proof fn lemma_seq_max_le_sum(s: Seq<int>)
    requires
        forall|k: int| 0 <= k < s.len() ==> #[trigger] s[k] >= 0,
    ensures
        seq_max(s) <= seq_sum(s),
    decreases s.len(),
{
    if s.len() > 0 {
        lemma_seq_max_le_sum(s.drop_last());
        lemma_seq_sum_nonneg(s.drop_last());
    }
}

/// Division by a positive divisor is superadditive on the quotients.
proof fn lemma_div_superadd(a: int, b: int, d: int)
    requires
        a >= 0,
        b >= 0,
        d > 0,
    ensures
        a / d + b / d <= (a + b) / d,
{
    lemma_fundamental_div_mod(a, d);
    lemma_fundamental_div_mod(b, d);
    lemma_mod_division_less_than_divisor(a, d);
    lemma_mod_division_less_than_divisor(b, d);
    let q = a / d + b / d;
    let r = a % d + b % d;
    assert(a + b == q * d + r) by (nonlinear_arith)
        requires
            a == d * (a / d) + a % d,
            b == d * (b / d) + b % d,
            q == a / d + b / d,
            r == a % d + b % d,
    ;
    if r < d {
        lemma_fundamental_div_mod_converse_div(a + b, d, q, r);
    } else {
        assert(a + b == (q + 1) * d + (r - d)) by (nonlinear_arith)
            requires
                a + b == q * d + r,
        ;
        lemma_fundamental_div_mod_converse_div(a + b, d, q + 1, r - d);
    }
}

/// Processing one more (in-range) bet updates exactly its outcome slot.
proof fn lemma_totals_step(n: nat, seed: int, bets: Seq<Bet>, i: int)
    requires
        0 <= i < bets.len(),
        (bets[i].option_id as int) < n,
    ensures
        accumulated_totals(n, seed, bets.take(i + 1)) == accumulated_totals(
            n,
            seed,
            bets.take(i),
        ).update(
            bets[i].option_id as int,
            accumulated_totals(n, seed, bets.take(i))[bets[i].option_id as int]
                + bets[i].amount@,
        ),
{
    assert(bets.take(i + 1).drop_last() =~= bets.take(i));
    assert(bets.take(i + 1).last() == bets[i]);
}

/// The normalized quotients never add up past their ideal value:
/// the sum of the first `i` values `e[k] * UNIT / total` is at most
/// `UNIT * sum(e[..i]) / total`.
pub proof fn lemma_normalized_sum_le(exps: Seq<int>, total: int, i: int)
    requires
        total > 0,
        forall|k: int| 0 <= k < exps.len() ==> #[trigger] exps[k] >= 0,
        0 <= i <= exps.len(),
    ensures
        seq_sum(normalized(exps, total).take(i)) <= (UNIT * seq_sum(exps.take(i))) / total,
    decreases i,
{
    let norm = normalized(exps, total);
    if i == 0 {
        assert(norm.take(0) =~= Seq::<int>::empty());
        assert(exps.take(0) =~= Seq::<int>::empty());
        lemma_div_of0(total);
    } else {
        lemma_normalized_sum_le(exps, total, i - 1);
        assert(norm.take(i).drop_last() =~= norm.take(i - 1));
        assert(exps.take(i).drop_last() =~= exps.take(i - 1));
        let prev = seq_sum(exps.take(i - 1));
        let e = exps[i - 1];
        assert(e >= 0);
        lemma_seq_sum_nonneg(exps.take(i - 1));
        assert(norm.take(i).last() == (e * UNIT) / total);
        assert(e * UNIT == UNIT * e) by (nonlinear_arith);
        assert(UNIT * prev >= 0 && UNIT * e >= 0) by (nonlinear_arith)
            requires
                prev >= 0,
                e >= 0,
        ;
        lemma_div_superadd(UNIT * prev, UNIT * e, total);
        assert(UNIT * prev + UNIT * e == UNIT * (prev + e)) by (nonlinear_arith);
        assert(seq_sum(exps.take(i)) == prev + e);
    }
}

/// Counterpart of `lemma_normalized_sum_le`: the quotients lose less
/// than one raw unit each, so `total` times their running sum stays
/// within `i * (total - 1)` of the ideal value.
proof fn lemma_normalized_sum_lower(exps: Seq<int>, total: int, i: int)
    requires
        total > 0,
        forall|k: int| 0 <= k < exps.len() ==> #[trigger] exps[k] >= 0,
        0 <= i <= exps.len(),
    ensures
        total * seq_sum(normalized(exps, total).take(i)) >= UNIT * seq_sum(exps.take(i)) - i * (
        total - 1),
    decreases i,
{
    let norm = normalized(exps, total);
    if i == 0 {
        assert(norm.take(0) =~= Seq::<int>::empty());
        assert(exps.take(0) =~= Seq::<int>::empty());
    } else {
        lemma_normalized_sum_lower(exps, total, i - 1);
        assert(norm.take(i).drop_last() =~= norm.take(i - 1));
        assert(exps.take(i).drop_last() =~= exps.take(i - 1));
        let e = exps[i - 1];
        let a = e * UNIT;
        let q = a / total;
        assert(norm.take(i).last() == q);
        lemma_fundamental_div_mod(a, total);
        lemma_mod_division_less_than_divisor(a, total);
        let sp = seq_sum(norm.take(i - 1));
        assert(total * (sp + q) >= UNIT * seq_sum(exps.take(i)) - i * (total - 1))
            by (nonlinear_arith)
            requires
                total * sp >= UNIT * seq_sum(exps.take(i - 1)) - (i - 1) * (total - 1),
                a == total * q + a % total,
                0 <= a % total < total,
                a == e * UNIT,
                UNIT * seq_sum(exps.take(i)) == UNIT * (seq_sum(exps.take(i - 1)) + e),
                total > 0,
        ;
        assert(UNIT * seq_sum(exps.take(i)) == UNIT * (seq_sum(exps.take(i - 1)) + e))
            by (nonlinear_arith)
            requires
                seq_sum(exps.take(i)) == seq_sum(exps.take(i - 1)) + e,
        ;
        assert(seq_sum(norm.take(i)) == sp + q);
    }
}

/// Every exponential of the model lies between 1 and `EXP_MAX`, raw.
proof fn lemma_exp_totals_bounds(totals: Seq<int>, max: int)
    ensures
        forall|k: int|
            0 <= k < totals.len() ==> UNIT <= #[trigger] exp_totals(totals, max)[k] <= EXP_MAX,
{
    assert forall|k: int|
        0 <= k < totals.len() implies UNIT <= #[trigger] exp_totals(totals, max)[k]
        <= EXP_MAX by {
        assert(exp_totals(totals, max)[k] == exp_value(exponent_arg(totals[k], max)));
    }
}

// ---------------------------------------------------------------------
// Laws of the probability vector.
// ---------------------------------------------------------------------

/// Law: the probabilities sum to one within epsilon.  In raw fixed-point
/// form, the sum of the probability vector lies in `(UNIT - n, UNIT]`:
/// each of the `n` normalizing divisions loses less than one raw unit
/// (10^-12), and the sum never exceeds one.  `calculate_probabilities`
/// guarantees that the vector it returns is exactly this model vector.
pub proof fn lemma_probability_sum(n: nat, liq: int, bets: Seq<Bet>)
    requires
        n >= 1,
    ensures
        UNIT - n < seq_sum(market_probabilities(n, liq, bets)) <= UNIT,
{
    let tseq = market_totals(n, liq, bets);
    lemma_totals_len(n, seed_share(liq, n as int), bets);
    let max = seq_max(tseq);
    let eseq = exp_totals(tseq, max);
    lemma_exp_totals_bounds(tseq, max);
    let total = seq_sum(eseq);
    lemma_seq_sum_lower(eseq, UNIT as int);
    assert(total >= n * UNIT);
    assert(n * UNIT >= 1 * UNIT) by (nonlinear_arith)
        requires
            n >= 1,
    ;
    let probs = market_probabilities(n, liq, bets);
    assert(probs == normalized(eseq, total));
    assert(probs.take(eseq.len() as int) =~= probs);
    assert(eseq.take(eseq.len() as int) =~= eseq);

    // Upper bound: the sum of the quotients is at most (UNIT*total)/total.
    lemma_normalized_sum_le(eseq, total, eseq.len() as int);
    assert(UNIT * total == total * UNIT) by (nonlinear_arith);
    lemma_div_multiples_vanish(UNIT as int, total);
    assert(seq_sum(probs) <= UNIT);

    // Lower bound: each quotient loses less than one raw unit.
    lemma_normalized_sum_lower(eseq, total, eseq.len() as int);
    assert(UNIT * total == total * UNIT) by (nonlinear_arith);
    assert(seq_sum(probs) > UNIT - n) by (nonlinear_arith)
        requires
            total * seq_sum(probs) >= UNIT * total - n * (total - 1),
            UNIT * total == total * UNIT,
            total > 0,
            n >= 1,
    ;
}

/// Law: every probability is strictly between 0 and 1 — in raw
/// fixed-point form, between 1 and `UNIT - 1` inclusive — for any market
/// with at least two outcomes, however the stakes are distributed.  The
/// non-zero liquidity seed keeps every exponential at or above one raw
/// unit, so no outcome's share can vanish or take the whole mass.
pub proof fn lemma_probability_range(n: nat, liq: int, bets: Seq<Bet>, i: int)
    requires
        2 <= n <= MAX_OUTCOMES as nat,
        0 <= i < n,
    ensures
        1 <= market_probabilities(n, liq, bets)[i] <= UNIT - 1,
{
    let tseq = market_totals(n, liq, bets);
    lemma_totals_len(n, seed_share(liq, n as int), bets);
    let max = seq_max(tseq);
    let eseq = exp_totals(tseq, max);
    lemma_exp_totals_bounds(tseq, max);
    let total = seq_sum(eseq);
    let e = eseq[i];
    let probs = market_probabilities(n, liq, bets);
    assert(probs == normalized(eseq, total));
    assert(probs[i] == (e * UNIT) / total);

    // Strictly positive: e * UNIT dominates the whole sum of
    // exponentials, because n * EXP_MAX stays below UNIT * UNIT.
    lemma_seq_sum_bounds(eseq, UNIT as int, EXP_MAX as int);
    assert(total <= n * EXP_MAX);
    assert(n * EXP_MAX <= 1_000_000 * EXP_MAX) by (nonlinear_arith)
        requires
            n <= 1_000_000,
    ;
    assert(e * UNIT >= UNIT * UNIT) by (nonlinear_arith)
        requires
            e >= UNIT,
    ;
    assert(total > 0);
    lemma_div_is_ordered(total, e * UNIT, total);
    lemma_div_by_self(total);
    assert(probs[i] >= 1);

    // Strictly below one: the other outcomes contribute at least one
    // raw unit each to the sum, so e < total.
    lemma_seq_sum_ge_elem(eseq, UNIT as int, i);
    assert((eseq.len() - 1) * UNIT >= 1 * UNIT) by (nonlinear_arith)
        requires
            eseq.len() >= 2,
    ;
    assert(e * UNIT < total * UNIT) by (nonlinear_arith)
        requires
            e < total,
            UNIT > 0,
    ;
    lemma_multiply_divide_lt(e * UNIT, total, UNIT as int);
    assert(probs[i] < UNIT);
}

// ---------------------------------------------------------------------
// Contracts shared by everything that computes probabilities.
// ---------------------------------------------------------------------

/// Which error a failed computation must report, driven by the first
/// reason (in validation order) the inputs are unusable.
pub open spec fn failure_post(n: nat, liq: int, bets: Seq<Bet>, e: MarketError) -> bool {
    &&& has_invalid_bet(bets, n as int) ==> (e matches MarketError::InvalidOutcomeIndex(id)
        && id == first_invalid_id(bets, n as int))
    &&& !has_invalid_bet(bets, n as int) && !liquidity_ok(liq)
        ==> e is InvalidLiquidity
    &&& !has_invalid_bet(bets, n as int) && liquidity_ok(liq) && n == 0
        ==> e is InsufficientData
    &&& !has_invalid_bet(bets, n as int) && liquidity_ok(liq) && n >= 1 && !calc_ok(
        n,
        liq,
        bets,
    ) ==> e is CalculationError
}

/// Full contract of the probability computation: it succeeds exactly on
/// acceptable inputs, the vector it returns is `market_probabilities`,
/// and each failure reports the error its cause prescribes.
pub open spec fn probabilities_post(
    config: MarketConfig,
    bets: Seq<Bet>,
    r: Result<Vec<Decimal>, MarketError>,
) -> bool {
    let n = config.num_outcomes as nat;
    let liq = config.liquidity_param@;
    &&& (r is Ok <==> calc_ok(n, liq, bets))
    &&& r is Ok ==> raw_values(r->Ok_0@) == market_probabilities(n, liq, bets)
        && r->Ok_0@.len() == n
    &&& r is Err ==> failure_post(n, liq, bets, r->Err_0)
}

/// Full contract of a single-outcome price request: an out-of-range
/// outcome index is rejected up front; otherwise the price is that
/// outcome's entry of `market_probabilities`.
pub open spec fn price_post(
    config: MarketConfig,
    bets: Seq<Bet>,
    idx: int,
    r: Result<Decimal, MarketError>,
) -> bool {
    let n = config.num_outcomes as nat;
    let liq = config.liquidity_param@;
    &&& idx >= n ==> (r matches Err(MarketError::InvalidOutcomeIndex(i)) && i == idx)
    &&& idx < n ==> {
        &&& (r is Ok <==> calc_ok(n, liq, bets))
        &&& r is Ok ==> r->Ok_0@ == market_probabilities(n, liq, bets)[idx]
        &&& r is Err ==> failure_post(n, liq, bets, r->Err_0)
    }
}

/// Every entry of the model probability vector lies in `[0, UNIT]` for
/// any market with at least one outcome.
pub proof fn lemma_probability_bounds(n: nat, liq: int, bets: Seq<Bet>, i: int)
    requires
        n >= 1,
        0 <= i < n,
    ensures
        0 <= market_probabilities(n, liq, bets)[i] <= UNIT,
{
    let tseq = market_totals(n, liq, bets);
    lemma_totals_len(n, seed_share(liq, n as int), bets);
    let max = seq_max(tseq);
    let eseq = exp_totals(tseq, max);
    lemma_exp_totals_bounds(tseq, max);
    let total = seq_sum(eseq);
    let e = eseq[i];
    let probs = market_probabilities(n, liq, bets);
    assert(probs[i] == (e * UNIT) / total);
    lemma_seq_sum_ge_elem(eseq, UNIT as int, i);
    assert((eseq.len() - 1) * UNIT >= 0) by (nonlinear_arith)
        requires
            eseq.len() >= 1,
    ;
    assert(e * UNIT >= 0) by (nonlinear_arith)
        requires
            e >= 0,
    ;
    lemma_div_pos_is_pos(e * UNIT, total);
    lemma_div_is_ordered_by_denominator(e * UNIT, e, total);
    lemma_div_multiples_vanish(UNIT as int, e);
}

/// Law: pricing is consistent with the probability vector.  Any result
/// meeting `calculate_price`'s contract for outcome `i` agrees with
/// entry `i` of any result meeting `calculate_probabilities`' contract
/// on the same configuration and bets: both succeed on exactly the same
/// inputs, and the price equals the probability.
pub proof fn lemma_price_matches_probability(
    config: MarketConfig,
    bets: Seq<Bet>,
    i: int,
    price: Result<Decimal, MarketError>,
    probs: Result<Vec<Decimal>, MarketError>,
)
    requires
        0 <= i < config.num_outcomes,
        price_post(config, bets, i, price),
        probabilities_post(config, bets, probs),
    ensures
        price is Ok <==> probs is Ok,
        price is Ok ==> price->Ok_0@ == raw_values(probs->Ok_0@)[i],
{
}

// ---------------------------------------------------------------------
// The executable computation.
// ---------------------------------------------------------------------

/// The one shared probability routine: validates the inputs, seeds and
/// accumulates the outcome totals, and normalizes the scaled
/// exponentials into a probability vector.
#[verifier::loop_isolation(false)]
pub fn compute_probabilities(config: &MarketConfig, bets: &Vec<Bet>) -> (r: Result<
    Vec<Decimal>,
    MarketError,
>)
    requires
        config.wf(),
        bets_wf(bets@),
    ensures
        probabilities_post(*config, bets@, r),
{
    let n = config.num_outcomes;
    let ghost nn = n as nat;
    let ghost liq_g = config.liquidity_param@;

    // Reject any bet whose outcome index is out of range, reporting the
    // first offender.
    let mut i: usize = 0;
    while i < bets.len()
        invariant
            i <= bets@.len(),
            forall|k: int| 0 <= k < i ==> (#[trigger] bets@[k].option_id) < n,
        decreases bets@.len() - i,
    {
        if bets[i].option_id >= n {
            proof {
                lemma_first_invalid(bets@, n as int, i as int);
            }
            return Err(MarketError::InvalidOutcomeIndex(bets[i].option_id));
        }
        i = i + 1;
    }
    assert(!has_invalid_bet(bets@, n as int));

    // The liquidity parameter must be positive and representable.
    let liq = config.liquidity_param.mantissa();
    if liq <= 0 || liq > LIQUIDITY_CAP {
        return Err(MarketError::InvalidLiquidity("Invalid liquidity parameter".to_owned()));
    }

    // A market with no outcomes at all has nothing to price.
    if n == 0 {
        return Err(MarketError::InsufficientData("market declares no outcomes".to_owned()));
    }

    // Seed every outcome with an equal share of the liquidity.
    let seed: u128 = (liq as u128) / (n as u128);
    let ghost seed_g = seed_share(liq_g, n as int);
    assert(seed == seed_g);
    proof {
        lemma_div_nonincreasing(liq as int, n as int);
        lemma_div_pos_is_pos(liq as int, n as int);
    }

    let mut totals: Vec<u128> = Vec::new();
    let mut j: usize = 0;
    while j < n
        invariant
            j <= n,
            totals@.len() == j,
            forall|k: int| 0 <= k < j ==> totals@[k] == seed,
        decreases n - j,
    {
        totals.push(seed);
        j = j + 1;
    }
    proof {
        assert(bets@.take(0) =~= Seq::<Bet>::empty());
        lemma_totals_len(nn, seed_g, bets@.take(0));
    }

    // Accumulate each stake onto its outcome, guarding the running
    // totals against the fixed-point range.
    let mut b: usize = 0;
    while b < bets.len()
        invariant
            b <= bets@.len(),
            totals@.len() == n,
            forall|k: int|
                0 <= k < n ==> #[trigger] totals@[k] as int == accumulated_totals(
                    nn,
                    seed_g,
                    bets@.take(b as int),
                )[k],
            forall|k: int| 0 <= k < n ==> #[trigger] totals@[k] <= TOTAL_CAP as u128,
        decreases bets@.len() - b,
    {
        let bet = bets[b];
        let id = bet.option_id;
        assert(id < n);
        let amt_raw = bet.amount.mantissa();
        assert(amt_raw >= 0) by {
            assert(bets@[b as int].wf());
        }
        let amt = amt_raw as u128;
        proof {
            lemma_totals_step(nn, seed_g, bets@, b as int);
            lemma_totals_len(nn, seed_g, bets@.take(b as int));
            lemma_totals_len(nn, seed_g, bets@.take(b as int + 1));
        }
        let t = totals[id] + amt;
        if t > TOTAL_CAP as u128 {
            proof {
                let prev = accumulated_totals(nn, seed_g, bets@.take(b as int));
                let cur = accumulated_totals(nn, seed_g, bets@.take(b as int + 1));
                assert(cur == prev.update(id as int, prev[id as int] + bets@[b as int].amount@));
                assert(cur[id as int] == t);
                lemma_totals_monotone(nn, seed_g, bets@, b as int + 1);
                assert(market_totals(nn, liq_g, bets@)[id as int] >= cur[id as int]);
                assert(!totals_within_cap(nn, liq_g, bets@));
            }
            return Err(MarketError::CalculationError("Numerical overflow in sum".to_owned()));
        }
        totals[id] = t;
        b = b + 1;
    }
    proof {
        assert(bets@.take(bets@.len() as int) =~= bets@);
        lemma_totals_len(nn, seed_g, bets@);
    }
    let ghost tseq = market_totals(nn, liq_g, bets@);
    assert(tseq.len() == n);

    // The dominant outcome total fixes the exponential scale.
    let mut maxv: u128 = 0;
    let mut mi: usize = 0;
    proof {
        assert(tseq.take(0) =~= Seq::<int>::empty());
    }
    while mi < n
        invariant
            mi <= n,
            maxv as int == seq_max(tseq.take(mi as int)),
            maxv <= TOTAL_CAP as u128,
        decreases n - mi,
    {
        proof {
            assert(tseq.take(mi as int + 1).drop_last() =~= tseq.take(mi as int));
            assert(tseq.take(mi as int + 1).last() == tseq[mi as int]);
        }
        if totals[mi] > maxv {
            maxv = totals[mi];
        }
        mi = mi + 1;
    }
    proof {
        assert(tseq.take(n as int) =~= tseq);
    }
    let ghost max_g = seq_max(tseq);
    if maxv == 0 {
        return Err(
            MarketError::CalculationError(
                "Division by zero in probability calculation".to_owned(),
            ),
        );
    }

    // Exponentials of the scaled totals: the dominant outcome maps to
    // an exponent of exactly 10, bounding the range regardless of
    // absolute stake size.
    let ghost eseq = exp_totals(tseq, max_g);
    let mut exps: Vec<u128> = Vec::new();
    let mut ei: usize = 0;
    while ei < n
        invariant
            ei <= n,
            exps@.len() == ei,
            forall|k: int| 0 <= k < ei ==> #[trigger] exps@[k] as int == eseq[k],
            forall|k: int| 0 <= k < ei ==> UNIT <= #[trigger] exps@[k] as int <= EXP_MAX,
        decreases n - ei,
    {
        let t = totals[ei];
        proof {
            lemma_seq_max_ge(tseq, ei as int);
            lemma_div_is_ordered(10 * (t as int) * UNIT, 10 * max_g * UNIT, max_g);
            assert(10 * max_g * UNIT == max_g * (10 * UNIT)) by (nonlinear_arith);
            lemma_div_multiples_vanish(10 * (UNIT as int), max_g);
        }
        let arg = 10 * t * (UNIT as u128) / maxv;
        assert(arg as int == exponent_arg(tseq[ei as int], max_g));
        let e = exp_unit(arg);
        assert(e as int == eseq[ei as int]);
        exps.push(e);
        ei = ei + 1;
    }

    // Sum of the exponentials; with every term in [1, e^10] the sum
    // stays far inside the fixed-point range.
    let mut sum_exp: u128 = 0;
    let mut si: usize = 0;
    proof {
        assert(eseq.take(0) =~= Seq::<int>::empty());
    }
    while si < n
        invariant
            si <= n,
            sum_exp as int == seq_sum(eseq.take(si as int)),
            (si as int) * UNIT <= sum_exp as int <= (si as int) * EXP_MAX,
        decreases n - si,
    {
        proof {
            assert(eseq.take(si as int + 1).drop_last() =~= eseq.take(si as int));
            assert(eseq.take(si as int + 1).last() == eseq[si as int]);
            assert((si as int) * UNIT + UNIT == (si as int + 1) * UNIT) by (nonlinear_arith);
            assert((si as int) * EXP_MAX + EXP_MAX == (si as int + 1) * EXP_MAX)
                by (nonlinear_arith);
            assert((si as int + 1) * EXP_MAX <= 1_000_000 * EXP_MAX) by (nonlinear_arith)
                requires
                    si as int + 1 <= 1_000_000,
            ;
            assert((si as int + 1) * UNIT >= 0) by (nonlinear_arith)
                requires
                    si as int + 1 >= 0,
            ;
        }
        sum_exp = sum_exp + exps[si];
        si = si + 1;
    }
    proof {
        assert(eseq.take(n as int) =~= eseq);
        assert((n as int) * UNIT >= 1 * UNIT) by (nonlinear_arith)
            requires
                n as int >= 1,
        ;
    }
    let ghost sum_g = seq_sum(eseq);
    assert(sum_exp as int == sum_g && sum_exp >= UNIT as u128);

    // Normalize: each probability is its exponential's share of the sum.
    let ghost pseq = normalized(eseq, sum_g);
    let mut probs: Vec<Decimal> = Vec::new();
    let mut pi: usize = 0;
    while pi < n
        invariant
            pi <= n,
            probs@.len() == pi,
            forall|k: int| 0 <= k < pi ==> (#[trigger] probs@[k])@ == pseq[k],
        decreases n - pi,
    {
        let e = exps[pi];
        proof {
            lemma_seq_sum_ge_elem(eseq, UNIT as int, pi as int);
            assert((eseq.len() - 1) * UNIT >= 0) by (nonlinear_arith)
                requires
                    eseq.len() >= 1,
            ;
            lemma_div_is_ordered_by_denominator((e as int) * UNIT, e as int, sum_g);
            lemma_div_multiples_vanish(UNIT as int, e as int);
            assert((e as int) * UNIT / (e as int) == UNIT);
        }
        let p = e * (UNIT as u128) / sum_exp;
        assert(p <= UNIT as u128);
        probs.push(Decimal { raw: p as i128 });
        pi = pi + 1;
    }

    proof {
        assert(raw_values(probs@) =~= market_probabilities(nn, liq_g, bets@));
        assert forall|k: int| 0 <= k < nn implies #[trigger] market_totals(nn, liq_g, bets@)[k]
            <= TOTAL_CAP by {
            assert(totals@[k] <= TOTAL_CAP as u128);
            assert(totals@[k] as int == tseq[k]);
        }
        assert(maxv as int == seq_max(tseq) && maxv > 0);
        assert(calc_ok(nn, liq_g, bets@));
    }
    Ok(probs)
}

// ---------------------------------------------------------------------
// The probability engine.
// ---------------------------------------------------------------------

/// Converts a configuration and bet list into a normalized probability
/// vector, and prices single outcomes.
pub struct ProbabilityEngine {
    config: MarketConfig,
}

impl ProbabilityEngine {
    /// The configuration the engine was built with.
    pub closed spec fn config_spec(&self) -> MarketConfig {
        self.config
    }

    pub open spec fn wf(&self) -> bool {
        self.config_spec().wf()
    }

    pub fn new(config: MarketConfig) -> (r: Self)
        requires
            config.wf(),
        ensures
            r.wf(),
            r.config_spec() == config,
    {
        ProbabilityEngine { config }
    }

    /// The normalized probability vector for the given bets.
    pub fn calculate_probabilities(&self, bets: &Vec<Bet>) -> (r: Result<
        Vec<Decimal>,
        MarketError,
    >)
        requires
            self.wf(),
            bets_wf(bets@),
        ensures
            probabilities_post(self.config_spec(), bets@, r),
    {
        compute_probabilities(&self.config, bets)
    }

    /// The price of one outcome: by construction, exactly its
    /// probability.
    pub fn calculate_price(&self, bets: &Vec<Bet>, outcome_index: usize) -> (r: Result<
        Decimal,
        MarketError,
    >)
        requires
            self.wf(),
            bets_wf(bets@),
        ensures
            price_post(self.config_spec(), bets@, outcome_index as int, r),
    {
        if outcome_index >= self.config.num_outcomes {
            return Err(MarketError::InvalidOutcomeIndex(outcome_index));
        }
        match compute_probabilities(&self.config, bets) {
            Ok(probs) => Ok(probs[outcome_index]),
            Err(e) => Err(e),
        }
    }
}

} // verus!
