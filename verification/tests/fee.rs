use liquidity_mining::primitives::Fee;
use liquidity_mining::primitives::WithFee;

#[test]
// This function tests that fee calculations return correct amounts
fn fee_calculations_should_work() {
    let fee = Fee {
        numerator: 2,
        denominator: 1_000,
    };

    assert_eq!(1_000.with_fee(fee), Some(1_002));
    assert_eq!(1_002.without_fee(fee), Some(1_000));
    assert_eq!(1_000.just_fee(fee), Some(2));
    assert_eq!(1_000_000.discounted_fee(), Some(700));
}

#[test]
fn fee_default_is_two_permille() {
    let fee = Fee::default();
    assert_eq!(fee.numerator, 2);
    assert_eq!(fee.denominator, 1_000);
    assert_eq!(1_000_000.just_fee(fee), Some(2_000));
}

#[test]
fn fee_with_zero_denominator_is_rejected() {
    let fee = Fee {
        numerator: 1,
        denominator: 0,
    };
    assert_eq!(5u128.with_fee(fee), None);
    assert_eq!(5u128.just_fee(fee), None);
}

#[test]
fn fee_truncates_toward_zero() {
    let fee = Fee {
        numerator: 3,
        denominator: 1_000,
    };
    // 999 * 3 / 1000 = 2.997, truncated to 2.
    assert_eq!(999u128.just_fee(fee), Some(2));
}

#[test]
fn fee_overflow_is_reported_not_wrapped() {
    let fee = Fee {
        numerator: 2,
        denominator: 1_000,
    };
    assert_eq!(u128::MAX.with_fee(fee), None);
}
