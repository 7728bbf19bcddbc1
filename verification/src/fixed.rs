//! Fixed-precision decimal arithmetic.
//!
//! All market computation runs on `Decimal`, a signed fixed-point number
//! with twelve fractional decimal digits, so that pricing output is exact
//! and reproducible.  The two transcendental operations the market model
//! needs, `exp` and `ln`, are delegated to the `rust_decimal` crate.

use rust_decimal::MathematicalOps;
use vstd::prelude::*;

verus! {

/// Number of fractional decimal digits carried by a `Decimal`.
pub const SCALE_DIGITS: u32 = 12;

/// The raw representation of one whole unit: 10^12.
pub const UNIT: i128 = 1_000_000_000_000;

/// Upper bound on the raw result of `exp_unit` for arguments in
/// `[0, 10 * UNIT]`: slightly above e^10 = 22026.4658... in raw units.
pub const EXP_MAX: i128 = 22_027_000_000_000_000;

/// Magnitude bound on the raw result of `ln_unit` for arguments in
/// `[1, UNIT]`: |ln 10^-12| = 27.63..., bounded with a wide margin.
pub const LN_MAG_MAX: i128 = 64_000_000_000_000;

/// A fixed-precision decimal number.  The mathematical value is
/// `raw / 10^12`.
#[derive(Clone, Copy, Debug, PartialEq, Eq, Structural)]
pub struct Decimal {
    pub raw: i128,
}

impl View for Decimal {
    type V = int;

    open spec fn view(&self) -> int {
        self.raw as int
    }
}

/// 10^k for spec-level reasoning.
pub open spec fn spec_pow10(k: nat) -> int
    decreases k,
{
    if k == 0 {
        1
    } else {
        10 * spec_pow10((k - 1) as nat)
    }
}

/// 10^k as an executable value, for scales up to 12.
fn pow10(k: u32) -> (r: i128)
    requires
        k <= 12,
    ensures
        r == spec_pow10(k as nat),
        1 <= r <= UNIT,
{
    let mut r: i128 = 1;
    let mut i: u32 = 0;
    while i < k
        invariant
            i <= k <= 12,
            r == spec_pow10(i as nat),
            1 <= r,
        decreases k - i,
    {
        proof {
            lemma_pow10_unit();
            lemma_pow10_mono((i + 1) as nat, 12);
        }
        r = r * 10;
        i = i + 1;
    }
    proof {
        lemma_pow10_unit();
        lemma_pow10_mono(k as nat, 12);
    }
    r
}

/// 10^12 is exactly `UNIT`.
proof fn lemma_pow10_unit()
    ensures
        spec_pow10(12) == UNIT,
{
    reveal_with_fuel(spec_pow10, 13);
}

/// 10^k is positive and monotone in k.
proof fn lemma_pow10_bounds(k: nat)
    ensures
        spec_pow10(k) >= 1,
    decreases k,
{
    if k > 0 {
        lemma_pow10_bounds((k - 1) as nat);
    }
}

proof fn lemma_pow10_mono(j: nat, k: nat)
    requires
        j <= k,
    ensures
        spec_pow10(j) <= spec_pow10(k),
    decreases k,
{
    lemma_pow10_bounds(j);
    if j < k {
        lemma_pow10_mono(j, (k - 1) as nat);
        lemma_pow10_bounds((k - 1) as nat);
    }
}

impl Decimal {
    /// The value `num * 10^(-scale)`, as in `Decimal::new(15, 1)` for 1.5.
    /// Only scales up to the twelve fractional digits the representation
    /// carries can be expressed.
    pub fn new(num: i64, scale: u32) -> (r: Self)
        requires
            scale <= 12,
        ensures
            r@ == num * spec_pow10((12 - scale) as nat),
            r@ > 0 <==> num > 0,
            r@ < 0 <==> num < 0,
    {
        let m = pow10(12 - scale);
        proof {
            lemma_pow10_mono((12 - scale) as nat, 12);
            lemma_mul_range(num as int, m as int);
            lemma_mul_sign(num as int, m as int);
        }
        Decimal { raw: (num as i128) * m }
    }

    /// The whole number `num`.
    pub fn from_int(num: i64) -> (r: Self)
        ensures
            r@ == num * UNIT,
    {
        proof {
            lemma_pow10_unit();
        }
        Self::new(num, 0)
    }

    /// Zero.
    pub fn zero() -> (r: Self)
        ensures
            r@ == 0,
    {
        Decimal { raw: 0 }
    }

    /// One.
    pub fn one() -> (r: Self)
        ensures
            r@ == UNIT,
    {
        Decimal { raw: UNIT }
    }

    /// The raw fixed-point representation (the value times 10^12).
    pub fn mantissa(&self) -> (r: i128)
        ensures
            r == self@,
    {
        self.raw
    }

    /// Whether the value is strictly positive.
    pub fn is_positive(&self) -> (r: bool)
        ensures
            r == (self@ > 0),
    {
        self.raw > 0
    }
}

/// A product with a positive factor keeps the sign of the other factor.
proof fn lemma_mul_sign(num: int, m: int) by (nonlinear_arith)
    requires
        m >= 1,
    ensures
        num * m > 0 <==> num > 0,
        num * m < 0 <==> num < 0,
{
}

/// |num| * 10^12 stays far inside the i128 range.
proof fn lemma_mul_range(num: int, m: int) by (nonlinear_arith)
    requires
        -0x8000_0000_0000_0000 <= num < 0x8000_0000_0000_0000,
        1 <= m <= UNIT,
    ensures
        -0x8000_0000_0000_0000 * UNIT <= num * m <= 0x8000_0000_0000_0000 * UNIT,
{
}

/// The raw value that `rust_decimal`'s `exp` returns for the argument
/// `x / 10^12`, rescaled back to twelve fractional digits.
pub uninterp spec fn dec_exp_raw(x: int) -> int;

/// The raw value that `rust_decimal`'s `ln` returns for the argument
/// `x / 10^12`, rescaled back to twelve fractional digits.
pub uninterp spec fn dec_ln_raw(x: int) -> int;

/// Relies on `rust_decimal::MathematicalOps::exp`: a Maclaurin-series
/// approximation of e^x.  For arguments in [0, 10] every series term is
/// non-negative and the first is 1, so the result is at least 1; the series
/// converges toward e^x <= e^10 = 22026.46..., which stays below `EXP_MAX`.
#[verifier::external_body]
pub(crate) fn exp_unit(x: u128) -> (r: u128)
    requires
        x <= 10 * UNIT,
    ensures
        r == dec_exp_raw(x as int),
        UNIT <= r <= EXP_MAX,
{
    let d = rust_decimal::Decimal::from_i128_with_scale(x as i128, SCALE_DIGITS);
    let mut e = d.exp();
    e.rescale(SCALE_DIGITS);
    e.mantissa() as u128
}

/// Relies on `rust_decimal::MathematicalOps::ln`: natural logarithm of a
/// positive decimal.  On [10^-12, 1] the logarithm is non-positive and its
/// magnitude is at most |ln 10^-12| = 27.63..., far below `LN_MAG_MAX`.
#[verifier::external_body]
pub(crate) fn ln_unit(x: u128) -> (r: i128)
    requires
        1 <= x <= UNIT,
    ensures
        r == dec_ln_raw(x as int),
        -LN_MAG_MAX <= r <= 0,
{
    let d = rust_decimal::Decimal::from_i128_with_scale(x as i128, SCALE_DIGITS);
    let mut l = d.ln();
    l.rescale(SCALE_DIGITS);
    l.mantissa()
}

/// `dec_exp_raw` clamped to the range the trusted bounds give it; on every
/// argument the executable path reaches, the clamp is the identity.
pub open spec fn exp_value(x: int) -> int {
    let e = dec_exp_raw(x);
    if e < UNIT {
        UNIT as int
    } else if e > EXP_MAX {
        EXP_MAX as int
    } else {
        e
    }
}

/// The magnitude of `dec_ln_raw` clamped to the range the trusted bounds
/// give it; on every argument the executable path reaches, the clamp is
/// the identity.
pub open spec fn ln_magnitude(x: int) -> int {
    let l = dec_ln_raw(x);
    if l > 0 {
        0
    } else if l < -LN_MAG_MAX {
        LN_MAG_MAX as int
    } else {
        -l
    }
}

} // verus!
