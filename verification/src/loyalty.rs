//! The loyalty curve.
//!
//! A yield farm may carry a curve `(initial_reward_percentage, scale_coef)`.
//! The multiplier for an entry that has stayed `p` periods is
//!
//! ```text
//!     (theta + theta * b + b) / (theta + theta * b + 1),   theta = p / scale_coef
//! ```
//!
//! where `b = initial_reward_percentage < 1`. It equals `b` at `p = 0` and
//! approaches one as `p` grows; it never exceeds one. Claims pay the accrued
//! reward scaled by this multiplier; the rest stays unclaimable until the
//! entry is withdrawn.

use vstd::prelude::*;

verus! {

use crate::fixed::FIXED_ONE;
use crate::fixed::FixedU128;
use crate::fixed::mul_div;
use crate::fixed::mul_div_spec;
use crate::fixed::lemma_mul_div_le_factor;
use vstd::arithmetic::mul::lemma_mul_upper_bound;
use vstd::arithmetic::mul::lemma_mul_inequality;
use vstd::arithmetic::div_mod::lemma_div_multiples_vanish;
use vstd::arithmetic::div_mod::lemma_fundamental_div_mod;
use vstd::arithmetic::div_mod::lemma_div_is_ordered;

/// Parameters of a yield farm's loyalty curve.
#[derive(Clone, Copy, Debug, PartialEq, Eq, Structural)]
pub struct LoyaltyCurve {
    /// The multiplier an entry starts with, strictly below one.
    pub initial_reward_percentage: FixedU128,
    /// How many periods it takes for the multiplier to reach the midpoint
    /// between the initial value and one.
    pub scale_coef: u32,
}

impl LoyaltyCurve {
    /// A curve is usable when it starts below one and has a positive scale.
    pub open spec fn wf(self) -> bool {
        &&& self.initial_reward_percentage.inner < FIXED_ONE
        &&& self.scale_coef >= 1
    }

    /// A conventional curve: one half, reaching the midpoint toward one
    /// after one hundred periods.
    pub fn default_curve() -> (r: LoyaltyCurve)
        ensures
            r.initial_reward_percentage.inner == FIXED_ONE as int / 2,
            r.scale_coef == 100,
            r.wf(),
    {
        LoyaltyCurve {
            initial_reward_percentage: FixedU128 { inner: FIXED_ONE / 2 },
            scale_coef: 100,
        }
    }
}

/// The multiplier's numerator scaled out to integers:
/// `p * (ONE + b) + b * s` over `p * (ONE + b) + ONE * s`.
pub open spec fn loyalty_num(p: int, b: int, s: int) -> int {
    p * (FIXED_ONE + b) + b * s
}

pub open spec fn loyalty_den(p: int, b: int, s: int) -> int {
    p * (FIXED_ONE + b) + FIXED_ONE * s
}

/// The multiplier, as fixed-point parts, for a curve `(b, s)` after `p`
/// periods: `floor(num * ONE / den)`.
pub open spec fn loyalty_inner(p: int, b: int, s: int) -> int {
    loyalty_num(p, b, s) * FIXED_ONE / loyalty_den(p, b, s)
}

/// The multiplier an entry is paid with: one when the farm has no curve.
pub open spec fn loyalty_multiplier_spec(periods: u64, curve: Option<LoyaltyCurve>) -> int {
    match curve {
        None => FIXED_ONE as int,
        Some(c) => loyalty_inner(
            periods as int,
            c.initial_reward_percentage.inner as int,
            c.scale_coef as int,
        ),
    }
}

/// Whatever the period count, numerator and denominator stay positive,
/// ordered, and small enough for 128-bit arithmetic.
pub proof fn lemma_loyalty_bounds(p: int, b: int, s: int)
    requires
        0 <= p <= u64::MAX,
        0 <= b < FIXED_ONE,
        1 <= s <= u32::MAX,
    ensures
        0 < loyalty_den(p, b, s) <= u128::MAX,
        0 <= loyalty_num(p, b, s) <= loyalty_den(p, b, s),
        0 <= loyalty_inner(p, b, s) <= FIXED_ONE,
{
    lemma_mul_upper_bound(p, u64::MAX as int, FIXED_ONE + b, 2 * FIXED_ONE - 1);
    lemma_mul_upper_bound(b, FIXED_ONE - 1, s, u32::MAX as int);
    lemma_mul_upper_bound(FIXED_ONE as int, FIXED_ONE as int, s, u32::MAX as int);
    assert(p * (FIXED_ONE + b) >= 0) by (nonlinear_arith)
        requires
            p >= 0,
            b >= 0,
    ;
    assert(b * s >= 0 && FIXED_ONE * s >= FIXED_ONE) by (nonlinear_arith)
        requires
            b >= 0,
            s >= 1,
    ;
    lemma_mul_inequality(b, FIXED_ONE as int, s);
    assert(loyalty_num(p, b, s) <= loyalty_den(p, b, s));
    lemma_mul_div_le_factor(
        loyalty_num(p, b, s),
        FIXED_ONE as int,
        loyalty_den(p, b, s),
    );
}

/// The multiplier stays between zero and one for any usable curve.
pub proof fn lemma_loyalty_bounds_for(periods: u64, curve: Option<LoyaltyCurve>)
    requires
        match curve {
            None => true,
            Some(c) => c.wf(),
        },
    ensures
        0 <= loyalty_multiplier_spec(periods, curve) <= FIXED_ONE,
{
    match curve {
        None => {},
        Some(c) => {
            lemma_loyalty_bounds(
                periods as int,
                c.initial_reward_percentage.inner as int,
                c.scale_coef as int,
            );
        },
    }
}

/// Computes the loyalty multiplier. The result never exceeds one, so a claim
/// never pays more than the entry accrued.
pub fn loyalty_multiplier(periods: u64, curve: &Option<LoyaltyCurve>) -> (r: FixedU128)
    requires
        match *curve {
            None => true,
            Some(c) => c.wf(),
        },
    ensures
        r.inner == loyalty_multiplier_spec(periods, *curve),
        r.inner <= FIXED_ONE,
{
    match curve {
        None => FixedU128::one(),
        Some(c) => {
            let b: u128 = c.initial_reward_percentage.inner;
            let s: u128 = c.scale_coef as u128;
            proof {
                lemma_loyalty_bounds(periods as int, b as int, s as int);
                lemma_mul_upper_bound(
                    periods as int,
                    u64::MAX as int,
                    FIXED_ONE + b,
                    2 * FIXED_ONE - 1,
                );
                lemma_mul_upper_bound(b as int, FIXED_ONE - 1, s as int, u32::MAX as int);
                lemma_mul_upper_bound(
                    FIXED_ONE as int,
                    FIXED_ONE as int,
                    s as int,
                    u32::MAX as int,
                );
            }
            let weighted: u128 = (periods as u128) * (FIXED_ONE + b);
            let num: u128 = weighted + b * s;
            let den: u128 = weighted + FIXED_ONE * s;
            let r: Option<u128> = mul_div(num, FIXED_ONE, den);
            match r {
                Some(inner) => FixedU128 { inner },
                None => {
                    proof {
                        assert(false);
                    }
                    FixedU128 { inner: 0 }
                },
            }
        },
    }
}

/// For any two ordered non-negative rationals given as fractions, the
/// truncated scaling by a common factor preserves the order.
proof fn lemma_floor_frac_monotone(n1: int, d1: int, n2: int, d2: int, c: int)
    requires
        0 <= n1,
        0 < d1,
        0 <= n2,
        0 < d2,
        0 <= c,
        n1 * d2 <= n2 * d1,
    ensures
        n1 * c / d1 <= n2 * c / d2,
{
    let q1 = n1 * c / d1;
    lemma_fundamental_div_mod(n1 * c, d1);
    assert(q1 * d1 <= n1 * c) by (nonlinear_arith)
        requires
            n1 * c == d1 * q1 + (n1 * c) % d1,
            (n1 * c) % d1 >= 0,
    ;
    assert(q1 * d2 * d1 <= n2 * c * d1) by (nonlinear_arith)
        requires
            q1 * d1 <= n1 * c,
            n1 * d2 <= n2 * d1,
            0 <= c,
            0 < d1,
            0 < d2,
            0 <= n1,
    ;
    assert(q1 * d2 <= n2 * c) by (nonlinear_arith)
        requires
            q1 * d2 * d1 <= n2 * c * d1,
            0 < d1,
    ;
    lemma_div_is_ordered(q1 * d2, n2 * c, d2);
    lemma_div_multiples_vanish(q1, d2);
    assert(q1 * d2 / d2 == q1) by {
        assert(d2 * q1 == q1 * d2) by (nonlinear_arith);
    }
}

/// The loyalty multiplier never decreases while an entry stays put: more
/// periods in the farm can only raise the paid share of the accrued reward.
pub proof fn lemma_loyalty_monotone(p1: u64, p2: u64, curve: Option<LoyaltyCurve>)
    requires
        p1 <= p2,
        match curve {
            None => true,
            Some(c) => c.wf(),
        },
    ensures
        loyalty_multiplier_spec(p1, curve) <= loyalty_multiplier_spec(p2, curve),
{
    match curve {
        None => {},
        Some(c) => {
            let b = c.initial_reward_percentage.inner as int;
            let s = c.scale_coef as int;
            lemma_loyalty_bounds(p1 as int, b, s);
            lemma_loyalty_bounds(p2 as int, b, s);
            let n1 = loyalty_num(p1 as int, b, s);
            let d1 = loyalty_den(p1 as int, b, s);
            let n2 = loyalty_num(p2 as int, b, s);
            let d2 = loyalty_den(p2 as int, b, s);
            assert(n1 * d2 <= n2 * d1) by (nonlinear_arith)
                requires
                    n1 == p1 * (FIXED_ONE + b) + b * s,
                    d1 == p1 * (FIXED_ONE + b) + FIXED_ONE * s,
                    n2 == p2 * (FIXED_ONE + b) + b * s,
                    d2 == p2 * (FIXED_ONE + b) + FIXED_ONE * s,
                    p1 <= p2,
                    0 <= p1,
                    0 <= b < FIXED_ONE,
                    1 <= s,
            ;
            lemma_floor_frac_monotone(n1, d1, n2, d2, FIXED_ONE as int);
        },
    }
}

/// A fresh entry starts back at the curve's initial percentage: the
/// multiplier at zero periods is exactly `initial_reward_percentage`.
pub proof fn lemma_loyalty_at_zero(curve: LoyaltyCurve)
    requires
        curve.wf(),
    ensures
        loyalty_multiplier_spec(0, Some(curve)) == curve.initial_reward_percentage.inner,
{
    let b = curve.initial_reward_percentage.inner as int;
    let s = curve.scale_coef as int;
    assert(loyalty_num(0, b, s) == b * s && loyalty_den(0, b, s) == FIXED_ONE * s)
        by (nonlinear_arith);
    assert(b * s * FIXED_ONE == (FIXED_ONE * s) * b) by (nonlinear_arith);
    lemma_div_multiples_vanish(b, FIXED_ONE * s);
    assert(FIXED_ONE * s > 0) by (nonlinear_arith)
        requires
            s >= 1,
    ;
}

} // verus!
