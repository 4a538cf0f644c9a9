//! Deterministic fixed-point arithmetic.
//!
//! Every reward computation in the engine reduces to `mul_div`, which
//! returns `floor(a * b / d)` computed through a 256-bit intermediate, so
//! that no product overflows before the final division. All divisions
//! truncate toward zero; the engine never rounds up.

use vstd::prelude::*;

verus! {

use vstd::arithmetic::power2::pow2;
use vstd::arithmetic::power2::lemma2_to64;
use vstd::arithmetic::power2::lemma2_to64_rest;
use vstd::arithmetic::power2::lemma_pow2_adds;
use vstd::arithmetic::power2::lemma_pow2_pos;
use vstd::arithmetic::power2::lemma_pow2_strictly_increases;
use vstd::arithmetic::div_mod::lemma_fundamental_div_mod;
use vstd::arithmetic::div_mod::lemma_fundamental_div_mod_converse;
use vstd::arithmetic::div_mod::lemma_mod_division_less_than_divisor;
use vstd::arithmetic::div_mod::lemma_mod_mod;
use vstd::arithmetic::div_mod::lemma_small_mod;
use vstd::arithmetic::mul::lemma_mul_upper_bound;

/// Scale of all fixed-point values: one whole is this many parts.
pub const FIXED_ONE: u128 = 1_000_000_000_000_000_000;

/// 2^64, used to split a 128-bit value into two 64-bit halves.
pub const TWO64: u128 = 0x1_0000_0000_0000_0000;

/// 2^127, the value of the top bit of a 128-bit word.
pub const TWO127: u128 = 0x8000_0000_0000_0000_0000_0000_0000_0000;

/// The meaning of every fixed-point operation: `floor(a * b / d)`, or
/// `None` when the divisor is zero or the quotient does not fit in 128 bits.
pub open spec fn mul_div_spec(a: u128, b: u128, d: u128) -> Option<u128> {
    if d == 0 {
        None
    } else if a * b / (d as int) > u128::MAX {
        None
    } else {
        Some((a * b / (d as int)) as u128)
    }
}

proof fn lemma_pow2_constants()
    ensures
        pow2(0) == 1,
        pow2(1) == 2,
        pow2(64) == TWO64,
        pow2(127) == TWO127,
        pow2(128) == u128::MAX + 1,
{
    lemma2_to64();
    lemma2_to64_rest();
    lemma_pow2_adds(64, 63);
    lemma_pow2_adds(64, 64);
}

/// Splits the exact 256-bit product `a * b` into a high and a low 128-bit half.
fn mul_wide(a: u128, b: u128) -> (r: (u128, u128))
    ensures
        a * b == r.0 * pow2(128) + r.1,
{
    proof {
        lemma2_to64();
        lemma_pow2_adds(64, 64);
    }
    let a1: u128 = a / TWO64;
    let a0: u128 = a % TWO64;
    let b1: u128 = b / TWO64;
    let b0: u128 = b % TWO64;
    proof {
        lemma_fundamental_div_mod(a as int, TWO64 as int);
        lemma_fundamental_div_mod(b as int, TWO64 as int);
        assert(a1 < TWO64 && b1 < TWO64) by (nonlinear_arith)
            requires
                a1 == a as int / TWO64 as int,
                b1 == b as int / TWO64 as int,
                a <= u128::MAX,
                b <= u128::MAX,
                TWO64 == 0x1_0000_0000_0000_0000u128,
        ;
        lemma_mul_upper_bound(a0 as int, TWO64 - 1, b0 as int, TWO64 - 1);
        lemma_mul_upper_bound(a1 as int, TWO64 - 1, b0 as int, TWO64 - 1);
        lemma_mul_upper_bound(a0 as int, TWO64 - 1, b1 as int, TWO64 - 1);
        lemma_mul_upper_bound(a1 as int, TWO64 - 1, b1 as int, TWO64 - 1);
    }
    let t0: u128 = a0 * b0;
    let t1: u128 = a1 * b0 + t0 / TWO64;
    let t2: u128 = a0 * b1 + t1 % TWO64;
    let hi: u128 = a1 * b1 + t1 / TWO64 + t2 / TWO64;
    let lo: u128 = t2 % TWO64 * TWO64 + t0 % TWO64;
    proof {
        let w: int = TWO64 as int;
        lemma_fundamental_div_mod(t0 as int, w);
        lemma_fundamental_div_mod(t1 as int, w);
        lemma_fundamental_div_mod(t2 as int, w);
        assert(a * b == hi * pow2(128) + lo) by (nonlinear_arith)
            requires
                w == TWO64,
                a == a1 * w + a0,
                b == b1 * w + b0,
                t0 == a0 * b0,
                t1 == a1 * b0 + t0 as int / w,
                t2 == a0 * b1 + t1 as int % w,
                hi == a1 * b1 + t1 as int / w + t2 as int / w,
                lo == t2 as int % w * w + t0 as int % w,
                t0 == w * (t0 as int / w) + t0 as int % w,
                t1 == w * (t1 as int / w) + t1 as int % w,
                t2 == w * (t2 as int / w) + t2 as int % w,
                pow2(128) == w * w,
                w == 0x1_0000_0000_0000_0000,
        ;
    }
    (hi, lo)
}

/// `floor(a * b / d)` with a 256-bit intermediate product.
pub fn mul_div(a: u128, b: u128, d: u128) -> (r: Option<u128>)
    ensures
        r == mul_div_spec(a, b, d),
{
    if d == 0 {
        return None;
    }
    let (hi, lo): (u128, u128) = mul_wide(a, b);
    proof {
        lemma_pow2_constants();
    }
    if hi >= d {
        proof {
            assert(a * b / (d as int) > u128::MAX) by (nonlinear_arith)
                requires
                    a * b == hi * pow2(128) + lo,
                    hi >= d,
                    d > 0,
                    lo >= 0,
                    pow2(128) == u128::MAX + 1,
            ;
        }
        return None;
    }
    let mut quot: u128 = 0;
    let mut rem: u128 = hi;
    let mut sh: u128 = lo;
    let mut i: usize = 0;
    proof {
        lemma_small_mod(lo as nat, pow2(128));
    }
    while i < 128
        invariant
            0 < d,
            hi < d,
            rem < d,
            i <= 128,
            quot < pow2(i as nat),
            sh == (lo as int) % (pow2((128 - i) as nat) as int) * pow2(i as nat),
            (quot * d + rem) * pow2((128 - i) as nat) + (lo as int) % (pow2(
                (128 - i) as nat,
            ) as int) == hi * pow2(128) + lo,
        decreases 128 - i,
    {
        let ghost p: int = pow2((127 - i) as nat) as int;
        let ghost k: int = pow2(i as nat) as int;
        let ghost rest: int = (lo as int) % (pow2((128 - i) as nat) as int);
        proof {
            lemma_pow2_constants();
            lemma_pow2_pos((127 - i) as nat);
            lemma_pow2_pos(i as nat);
            // pow2(128 - i) == 2 * p and TWO127 == p * k.
            lemma_pow2_adds((127 - i) as nat, 1);
            lemma_pow2_adds((127 - i) as nat, i as nat);
            lemma_pow2_adds(i as nat, 1);
            lemma_mod_division_less_than_divisor(lo as int, p * 2);
            assert(0 <= rest < p * 2);
        }
        let bit: u128 = sh / TWO127;
        let ghost rest2: int = if rest < p {
            rest
        } else {
            rest - p
        };
        proof {
            if rest < p {
                assert(sh < TWO127) by (nonlinear_arith)
                    requires
                        sh == rest * k,
                        TWO127 == p * k,
                        0 <= rest < p,
                        k > 0,
                ;
                lemma_fundamental_div_mod_converse(sh as int, TWO127 as int, 0, sh as int);
                assert(bit == 0);
                assert(sh % TWO127 == rest2 * k);
            } else {
                assert(sh == TWO127 + rest2 * k && 0 <= rest2 * k < TWO127) by (nonlinear_arith)
                    requires
                        sh == rest * k,
                        TWO127 == p * k,
                        rest2 == rest - p,
                        p <= rest < 2 * p,
                        k > 0,
                        p > 0,
                ;
                lemma_fundamental_div_mod_converse(sh as int, TWO127 as int, 1, rest2 * k);
                assert(bit == 1);
                assert(sh % TWO127 == rest2 * k);
            }
            assert(rest == bit * p + rest2 && 0 <= rest2 < p);
            // The bits still to come are exactly `lo % p`.
            lemma_mod_mod(lo as int, p, 2);
            lemma_fundamental_div_mod_converse(rest, p, bit as int, rest2);
            assert(rest2 == (lo as int) % p);
            // No update below overflows 128 bits.
            if i < 127 {
                lemma_pow2_strictly_increases(i as nat, 127);
            }
            assert(quot < TWO127);
        }
        sh = sh % TWO127 * 2;
        let ghost old_quot: u128 = quot;
        let ghost old_rem: u128 = rem;
        if rem >= TWO127 {
            // Doubling the remainder would overflow 128 bits, and certainly
            // exceeds the divisor: subtract the divisor as part of the step.
            let t: u128 = rem - (d - rem);
            rem = t + bit;
            quot = quot * 2 + 1;
        } else {
            let r2: u128 = rem * 2 + bit;
            if r2 >= d {
                rem = r2 - d;
                quot = quot * 2 + 1;
            } else {
                rem = r2;
                quot = quot * 2;
            }
        }
        proof {
            let dlt: int = if 2 * old_rem + bit >= d {
                1int
            } else {
                0int
            };
            assert(quot == 2 * old_quot + dlt && rem == 2 * old_rem + bit - dlt * d);
            assert(quot < pow2((i + 1) as nat)) by (nonlinear_arith)
                requires
                    quot == 2 * old_quot + dlt,
                    old_quot < pow2(i as nat),
                    dlt == 0 || dlt == 1,
                    pow2((i + 1) as nat) == pow2(i as nat) * 2,
            ;
            assert((quot * d + rem) * p + rest2 == hi * pow2(128) + lo) by (nonlinear_arith)
                requires
                    (old_quot * d + old_rem) * (pow2((128 - i) as nat) as int) + rest == hi * pow2(
                        128,
                    ) + lo,
                    pow2((128 - i) as nat) == p * 2,
                    rest == bit * p + rest2,
                    quot == 2 * old_quot + dlt,
                    rem == 2 * old_rem + bit - dlt * d,
            ;
            assert(sh == rest2 * (k * 2)) by (nonlinear_arith)
                requires
                    sh == rest2 * k * 2,
            ;
        }
        i = i + 1;
        proof {
            assert(pow2((128 - i) as nat) == p);
            assert(pow2(i as nat) == k * 2);
        }
    }
    proof {
        lemma_pow2_constants();
        assert((lo as int) % (pow2(0) as int) == 0) by {
            lemma_small_mod(0, 1);
        }
        assert(quot * d + rem == hi * pow2(128) + lo) by (nonlinear_arith)
            requires
                (quot * d + rem) * (pow2(0) as int) + (lo as int) % (pow2(0) as int) == hi * pow2(
                    128,
                ) + lo,
                pow2(0) == 1,
                (lo as int) % (pow2(0) as int) == 0,
        ;
        lemma_fundamental_div_mod_converse(hi * pow2(128) + lo, d as int, quot as int, rem as int);
        assert(quot == a * b / (d as int));
    }
    Some(quot)
}

/// If the factor `a` is at most `d`, then `floor(a * b / d)` is at most `b`;
/// in particular the quotient always fits in 128 bits.
pub proof fn lemma_mul_div_le_factor(a: int, b: int, d: int)
    requires
        0 <= a <= d,
        0 < d,
        0 <= b,
    ensures
        a * b / d <= b,
        0 <= a * b / d,
{
    assert(a * b <= d * b) by (nonlinear_arith)
        requires
            0 <= a <= d,
            0 <= b,
    ;
    vstd::arithmetic::div_mod::lemma_div_is_ordered(a * b, d * b, d);
    assert(d * b / d == b) by {
        vstd::arithmetic::div_mod::lemma_div_multiples_vanish(b, d);
    }
    vstd::arithmetic::div_mod::lemma_div_pos_is_pos(a * b, d);
    assert(a * b >= 0) by (nonlinear_arith)
        requires
            0 <= a,
            0 <= b,
    ;
}

/// A fixed-point number with 18 decimal places: the value is
/// `inner / FIXED_ONE`. Accumulators, multipliers and the loyalty curve all
/// use this representation.
#[derive(Clone, Copy, Debug, PartialEq, Eq, Structural)]
pub struct FixedU128 {
    pub inner: u128,
}

impl FixedU128 {
    /// The value one.
    pub fn one() -> (r: FixedU128)
        ensures
            r.inner == FIXED_ONE,
    {
        FixedU128 { inner: FIXED_ONE }
    }

    /// The value zero.
    pub fn zero() -> (r: FixedU128)
        ensures
            r.inner == 0,
    {
        FixedU128 { inner: 0 }
    }

    /// A whole number.
    pub fn from_int(n: u128) -> (r: Option<FixedU128>)
        ensures
            r == (if n * FIXED_ONE <= u128::MAX {
                Some(FixedU128 { inner: (n * FIXED_ONE) as u128 })
            } else {
                None::<FixedU128>
            }),
    {
        match n.checked_mul(FIXED_ONE) {
            Some(inner) => Some(FixedU128 { inner }),
            None => None,
        }
    }

    /// The largest fixed-point value not above `n / d`.
    pub fn from_rational(n: u128, d: u128) -> (r: Option<FixedU128>)
        ensures
            r == (match mul_div_spec(n, FIXED_ONE, d) {
                Some(inner) => Some(FixedU128 { inner }),
                None => None::<FixedU128>,
            }),
    {
        match mul_div(n, FIXED_ONE, d) {
            Some(inner) => Some(FixedU128 { inner }),
            None => None,
        }
    }

    pub open spec fn spec_add(self, other: FixedU128) -> Option<FixedU128> {
        if self.inner + other.inner <= u128::MAX {
            Some(FixedU128 { inner: (self.inner + other.inner) as u128 })
        } else {
            None
        }
    }

    pub fn checked_add(self, other: FixedU128) -> (r: Option<FixedU128>)
        ensures
            r == self.spec_add(other),
    {
        match self.inner.checked_add(other.inner) {
            Some(inner) => Some(FixedU128 { inner }),
            None => None,
        }
    }

    pub open spec fn spec_sub(self, other: FixedU128) -> Option<FixedU128> {
        if self.inner >= other.inner {
            Some(FixedU128 { inner: (self.inner - other.inner) as u128 })
        } else {
            None
        }
    }

    pub fn checked_sub(self, other: FixedU128) -> (r: Option<FixedU128>)
        ensures
            r == self.spec_sub(other),
    {
        match self.inner.checked_sub(other.inner) {
            Some(inner) => Some(FixedU128 { inner }),
            None => None,
        }
    }

    /// The meaning of scaling an integer amount by this factor:
    /// `floor(inner * b / FIXED_ONE)`.
    pub open spec fn spec_mul_int(self, b: u128) -> Option<u128> {
        mul_div_spec(self.inner, b, FIXED_ONE)
    }

    /// Scales an integer amount, truncating.
    pub fn checked_mul_int(self, b: u128) -> (r: Option<u128>)
        ensures
            r == self.spec_mul_int(b),
    {
        mul_div(self.inner, b, FIXED_ONE)
    }

    pub fn is_zero(self) -> (r: bool)
        ensures
            r == (self.inner == 0),
    {
        self.inner == 0
    }

    pub fn is_one(self) -> (r: bool)
        ensures
            r == (self.inner == FIXED_ONE),
    {
        self.inner == FIXED_ONE
    }
}

/// A fraction of one whole, in parts per `FIXED_ONE`. Used for a global
/// farm's yield per period.
#[derive(Clone, Copy, Debug, PartialEq, Eq, Structural)]
pub struct Perquintill {
    pub parts: u128,
}

impl Perquintill {
    /// A fraction no greater than one.
    pub open spec fn wf(self) -> bool {
        self.parts <= FIXED_ONE
    }

    pub fn from_parts(parts: u128) -> (r: Perquintill)
        requires
            parts <= FIXED_ONE,
        ensures
            r.parts == parts,
            r.wf(),
    {
        Perquintill { parts }
    }

    pub fn from_percent(percent: u64) -> (r: Perquintill)
        requires
            percent <= 100,
        ensures
            r.parts == percent * (FIXED_ONE as int / 100),
            r.wf(),
    {
        Perquintill { parts: (percent as u128) * (FIXED_ONE / 100) }
    }

    /// The meaning of taking this fraction of an amount, truncating.
    pub open spec fn spec_mul_floor(self, b: u128) -> u128 {
        (self.parts * b / (FIXED_ONE as int)) as u128
    }

    /// Takes this fraction of an amount, truncating. Never overflows,
    /// because the fraction is at most one.
    pub fn mul_floor(self, b: u128) -> (r: u128)
        requires
            self.wf(),
        ensures
            r == self.spec_mul_floor(b),
            r <= b,
    {
        proof {
            lemma_mul_div_le_factor(self.parts as int, b as int, FIXED_ONE as int);
        }
        let r: Option<u128> = mul_div(self.parts, b, FIXED_ONE);
        match r {
            Some(v) => v,
            None => {
                proof {
                    assert(false);
                }
                0
            },
        }
    }

    pub fn is_zero(self) -> (r: bool)
        ensures
            r == (self.parts == 0),
    {
        self.parts == 0
    }
}

} // verus!
