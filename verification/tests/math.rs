use liquidity_mining::fixed::mul_div;
use liquidity_mining::fixed::FixedU128;
use liquidity_mining::fixed::Perquintill;
use liquidity_mining::fixed::FIXED_ONE;
use liquidity_mining::loyalty::loyalty_multiplier;
use liquidity_mining::loyalty::LoyaltyCurve;

#[test]
fn mul_div_handles_wide_intermediates() {
    // The product needs more than 128 bits, the quotient does not.
    assert_eq!(mul_div(u128::MAX, 3, 6), Some(u128::MAX / 2));
    assert_eq!(
        mul_div(1 << 100, 1 << 27, 1 << 120),
        Some(1 << 7)
    );
}

#[test]
fn mul_div_rejects_zero_divisor_and_oversized_quotients() {
    assert_eq!(mul_div(1, 1, 0), None);
    assert_eq!(mul_div(1 << 64, 1 << 64, 1), None);
    assert_eq!(mul_div(u128::MAX, 2, 2), Some(u128::MAX));
}

#[test]
fn mul_div_truncates() {
    assert_eq!(mul_div(7, 3, 2), Some(10));
    assert_eq!(mul_div(1, 1, 3), Some(0));
}

#[test]
fn perquintill_takes_exact_fractions() {
    let one_percent = Perquintill::from_percent(1);
    assert_eq!(one_percent.mul_floor(500_000), 5_000);
    assert_eq!(Perquintill::from_percent(100).mul_floor(77), 77);
    assert_eq!(Perquintill::from_percent(0).mul_floor(77), 0);
    // 1% of 150 truncates from 1.5 down to 1.
    assert_eq!(one_percent.mul_floor(150), 1);
}

#[test]
fn fixed_point_scaling_truncates() {
    let half = FixedU128 { inner: FIXED_ONE / 2 };
    assert_eq!(half.checked_mul_int(11), Some(5));
    let one = FixedU128 { inner: FIXED_ONE };
    assert_eq!(one.checked_mul_int(u128::MAX), Some(u128::MAX));
}

#[test]
fn fixed_point_constructors_and_sums() {
    assert_eq!(FixedU128::one().inner, FIXED_ONE);
    assert_eq!(FixedU128::zero().inner, 0);
    assert_eq!(FixedU128::from_int(3), Some(FixedU128 { inner: 3 * FIXED_ONE }));
    assert_eq!(FixedU128::from_int(u128::MAX), None);
    // 1 / 3 rounds down to 0.333... with 18 places.
    assert_eq!(
        FixedU128::from_rational(1, 3),
        Some(FixedU128 { inner: 333_333_333_333_333_333 })
    );
    assert_eq!(FixedU128::from_rational(1, 0), None);
    let half = FixedU128 { inner: FIXED_ONE / 2 };
    assert_eq!(FixedU128::one().checked_add(half), Some(FixedU128 { inner: 3 * FIXED_ONE / 2 }));
    assert_eq!(FixedU128 { inner: u128::MAX }.checked_add(FixedU128::one()), None);
    assert_eq!(FixedU128::one().checked_sub(half), Some(half));
    assert_eq!(half.checked_sub(FixedU128::one()), None);
    assert!(FixedU128::zero().is_zero());
    assert!(FixedU128::one().is_one());
    assert!(Perquintill::from_parts(0).is_zero());
}

#[test]
fn loyalty_multiplier_starts_at_initial_percentage() {
    let curve = LoyaltyCurve {
        initial_reward_percentage: FixedU128 { inner: FIXED_ONE / 2 },
        scale_coef: 100,
    };
    assert_eq!(loyalty_multiplier(0, &Some(curve)).inner, FIXED_ONE / 2);
    assert_eq!(loyalty_multiplier(0, &None).inner, FIXED_ONE);
    // The stock curve has the same shape.
    let stock = LoyaltyCurve::default_curve();
    assert_eq!(loyalty_multiplier(0, &Some(stock)).inner, FIXED_ONE / 2);
    assert_eq!(stock.scale_coef, 100);
}

#[test]
fn loyalty_multiplier_grows_toward_one() {
    let curve = LoyaltyCurve {
        initial_reward_percentage: FixedU128 { inner: FIXED_ONE / 2 },
        scale_coef: 100,
    };
    // After one scale length: theta = 1, (1 + 0.5 + 0.5) / (1 + 0.5 + 1) = 0.8.
    assert_eq!(
        loyalty_multiplier(100, &Some(curve)).inner,
        8 * FIXED_ONE / 10
    );
    let mut last: u128 = 0;
    let mut p: u64 = 0;
    while p <= 1_000 {
        let m = loyalty_multiplier(p, &Some(curve)).inner;
        assert!(m >= last);
        assert!(m <= FIXED_ONE);
        last = m;
        p += 100;
    }
}
