//! Shannon entropy of a probability vector, in natural-log fixed-point
//! form: `-sum p_i * ln(p_i)`, with the convention that a zero term
//! contributes nothing.

use vstd::prelude::*;
use vstd::arithmetic::div_mod::*;
use vstd::arithmetic::mul::*;

use crate::fixed::{Decimal, UNIT, LN_MAG_MAX, ln_magnitude, ln_unit};
use crate::raw_values;

verus! {

/// One entropy term, `-p * ln(p)` in raw form: zero for a zero
/// probability, otherwise the probability times its log magnitude.
pub open spec fn entropy_term(p: int) -> int {
    if 0 < p {
        (p * ln_magnitude(p)) / (UNIT as int)
    } else {
        0
    }
}

/// All entropy terms of a probability vector.
pub open spec fn entropy_terms(probs: Seq<int>) -> Seq<int> {
    probs.map_values(|p: int| entropy_term(p))
}

/// The entropy of a probability vector, in raw fixed-point form.
pub open spec fn entropy_model(probs: Seq<int>) -> int {
    crate::probability::seq_sum(entropy_terms(probs))
}

/// Entropy is non-negative, and bounded by 64 times the vector's sum:
/// each term `-p ln p` is at most `p * |ln 10^-12| < 64 p`.
pub proof fn lemma_entropy_bounds(probs: Seq<int>)
    requires
        forall|i: int| 0 <= i < probs.len() ==> 0 <= #[trigger] probs[i] <= UNIT,
    ensures
        0 <= entropy_model(probs) <= 64 * crate::probability::seq_sum(probs),
    decreases probs.len(),
{
    let terms = entropy_terms(probs);
    if probs.len() == 0 {
    } else {
        let front = probs.drop_last();
        lemma_entropy_bounds(front);
        assert(entropy_terms(front) =~= terms.drop_last());
        let p = probs.last();
        let t = terms.last();
        assert(t == entropy_term(p));
        assert(0 <= t <= 64 * p) by {
            if 0 < p {
                let mag = ln_magnitude(p);
                assert(0 <= mag <= LN_MAG_MAX);
                assert(p * mag >= 0) by (nonlinear_arith)
                    requires
                        p >= 0,
                        mag >= 0,
                ;
                lemma_div_pos_is_pos(p * mag, UNIT as int);
                assert(p * mag <= UNIT * (64 * p)) by (nonlinear_arith)
                    requires
                        0 <= p,
                        0 <= mag <= LN_MAG_MAX,
                        LN_MAG_MAX == 64 * UNIT,
                ;
                lemma_multiply_divide_le(p * mag, UNIT as int, 64 * p);
            }
        }
        assert(64 * crate::probability::seq_sum(front) + 64 * p == 64 * crate::probability::seq_sum(
            probs,
        )) by (nonlinear_arith)
            requires
                crate::probability::seq_sum(probs) == crate::probability::seq_sum(front) + p,
        ;
    }
}

/// Computes the entropy of a probability vector whose raw entries lie
/// in `[0, UNIT]`.
#[verifier::loop_isolation(false)]
pub fn compute_entropy(probs: &Vec<Decimal>) -> (r: i128)
    requires
        forall|i: int| 0 <= i < probs@.len() ==> 0 <= (#[trigger] probs@[i])@ <= UNIT,
    ensures
        r == entropy_model(raw_values(probs@)),
        0 <= r <= 64 * crate::probability::seq_sum(raw_values(probs@)),
{
    let ghost pr = raw_values(probs@);
    let ghost terms = entropy_terms(pr);
    proof {
        assert(terms.take(0) =~= Seq::<int>::empty());
    }
    let mut acc: u128 = 0;
    let mut i: usize = 0;
    while i < probs.len()
        invariant
            i <= probs@.len(),
            acc as int == crate::probability::seq_sum(terms.take(i as int)),
            acc as int <= (i as int) * (64 * UNIT),
        decreases probs@.len() - i,
    {
        proof {
            assert(terms.take(i as int + 1).drop_last() =~= terms.take(i as int));
            assert(terms.take(i as int + 1).last() == terms[i as int]);
            assert((i as int) * (64 * UNIT) + 64 * UNIT == (i as int + 1) * (64 * UNIT))
                by (nonlinear_arith);
            assert((i as int + 1) * (64 * UNIT) <= (probs@.len() as int) * (64 * UNIT))
                by (nonlinear_arith)
                requires
                    i as int + 1 <= probs@.len(),
            ;
            assert((probs@.len() as int) * (64 * UNIT) <= 0x1_0000_0000_0000_0000 * (64 * UNIT))
                by (nonlinear_arith)
                requires
                    probs@.len() <= 0x1_0000_0000_0000_0000,
            ;
        }
        let p = probs[i].mantissa();
        let term: u128;
        if p > 0 {
            let mag_neg = ln_unit(p as u128);
            let mag = (-mag_neg) as u128;
            proof {
                let pm = (p as int) * (mag as int);
                lemma_mul_nonnegative(p as int, mag as int);
                lemma_mul_upper_bound(p as int, UNIT as int, mag as int, LN_MAG_MAX as int);
                lemma_multiply_divide_le(pm, UNIT as int, LN_MAG_MAX as int);
                lemma_div_pos_is_pos(pm, UNIT as int);
            }
            term = (p as u128) * mag / (UNIT as u128);
            assert(term as int == entropy_term(pr[i as int]));
        } else {
            term = 0;
            assert(term as int == entropy_term(pr[i as int]));
        }
        acc = acc + term;
        i = i + 1;
    }
    proof {
        assert(terms.take(probs@.len() as int) =~= terms);
        lemma_entropy_bounds(pr);
    }
    acc as i128
}

} // verus!
