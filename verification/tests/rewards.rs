use liquidity_mining::engine::LiquidityMining;
use liquidity_mining::fixed::Perquintill;
use liquidity_mining::fixed::FixedU128;
use liquidity_mining::fixed::FIXED_ONE;
use liquidity_mining::loyalty::LoyaltyCurve;
use liquidity_mining::types::AmmPoolInfo;
use liquidity_mining::types::AssetPair;
use liquidity_mining::types::Error;
use liquidity_mining::types::Origin;

const BOB: u64 = 2;
const CHARLIE: u64 = 3;
const BSX: u32 = 0;
const KSM: u32 = 1;

fn fixed_one() -> FixedU128 {
    FixedU128 { inner: FIXED_ONE }
}

fn bsx_ksm_pair() -> AssetPair {
    AssetPair::new(BSX, KSM)
}

fn bsx_ksm_amm() -> Option<AmmPoolInfo> {
    Some(AmmPoolInfo { pool_id: 100, share_token: 5 })
}

/// Global farm id 1: budget 500_000, yield 1% per period, a period every 10
/// blocks; yield farm id 2 for the BSX/KSM pool with the given curve.
fn farm_with_curve(curve: Option<LoyaltyCurve>) -> LiquidityMining {
    let mut lm = LiquidityMining::new(3, 1_000, 100);
    let created = lm.create_global_farm(
        Origin::Signed(BOB),
        500_000,
        20_000,
        10,
        BSX,
        BSX,
        BOB,
        Perquintill::from_percent(1),
        1,
        fixed_one(),
        0,
    );
    assert_eq!(created, Ok((1, 5_000)));
    let yf = lm.create_yield_farm(
        Origin::Signed(BOB),
        1,
        bsx_ksm_pair(),
        fixed_one(),
        curve,
        bsx_ksm_amm(),
        0,
    );
    assert_eq!(yf, Ok(2));
    lm
}

/// The budget of farm 1 is always fully accounted for across its buckets.
fn assert_books_balance(lm: &LiquidityMining) {
    let g = lm.global_farms[0];
    let pots: u128 = lm
        .yield_farms
        .iter()
        .filter(|y| y.global_farm_id == g.id)
        .map(|y| y.left_to_distribute)
        .sum();
    assert_eq!(
        g.remaining_rewards + g.pending_rewards + pots + g.paid_rewards,
        g.total_rewards
    );
}

#[test]
fn one_period_claim_pays_the_emission_share() {
    let mut lm = farm_with_curve(None);
    assert_eq!(
        lm.deposit_shares(Origin::Signed(CHARLIE), 1, 2, 10_000, bsx_ksm_amm(), 10_000, 0),
        Ok(1)
    );
    assert_books_balance(&lm);

    // One period later: the farm emits min(1% of remaining, max per period)
    // = 5_000, and the only depositor holds all weighted shares.
    let claimed = lm.claim_rewards(Origin::Signed(CHARLIE), 1, 2, 10);
    assert_eq!(claimed, Ok((1, BSX, 5_000, 0)));

    // `remaining` dropped by exactly what the accumulator emitted, not
    // merely by what was claimed.
    assert_eq!(lm.global_farms[0].remaining_rewards, 495_000);
    assert_eq!(lm.global_farms[0].paid_rewards, 5_000);
    assert_books_balance(&lm);
}

#[test]
fn claiming_twice_in_one_period_fails() {
    let mut lm = farm_with_curve(None);
    assert_eq!(
        lm.deposit_shares(Origin::Signed(CHARLIE), 1, 2, 10_000, bsx_ksm_amm(), 10_000, 0),
        Ok(1)
    );
    assert_eq!(
        lm.claim_rewards(Origin::Signed(CHARLIE), 1, 2, 10),
        Ok((1, BSX, 5_000, 0))
    );
    let farm_before = lm.global_farms[0];
    // Block 17 is still period 1: the second claim fails and changes nothing.
    assert_eq!(
        lm.claim_rewards(Origin::Signed(CHARLIE), 1, 2, 17),
        Err(Error::DoubleClaim)
    );
    assert_eq!(lm.global_farms[0], farm_before);
    // The next period unlocks the next claim.
    assert_eq!(
        lm.claim_rewards(Origin::Signed(CHARLIE), 1, 2, 20),
        Ok((1, BSX, 4_950, 0))
    );
    assert_books_balance(&lm);
}

#[test]
fn withdraw_never_pays_a_period_twice() {
    let mut lm = farm_with_curve(None);
    assert_eq!(
        lm.deposit_shares(Origin::Signed(CHARLIE), 1, 2, 10_000, bsx_ksm_amm(), 10_000, 0),
        Ok(1)
    );
    assert_eq!(
        lm.claim_rewards(Origin::Signed(CHARLIE), 1, 2, 10),
        Ok((1, BSX, 5_000, 0))
    );
    // A withdrawal in the same period claims nothing more.
    let out = lm.withdraw_shares(Origin::Signed(CHARLIE), 1, 2, true, 12).unwrap();
    assert_eq!(out.claimed, 0);
    assert_eq!(out.withdrawn_amount, 10_000);
    assert!(out.deposit_destroyed);
    assert!(out.lp_tokens_unlocked);
    assert_eq!(lm.global_farms[0].paid_rewards, 5_000);
    assert_books_balance(&lm);
}

#[test]
fn rewards_stop_accruing_when_the_farm_stops() {
    let mut lm = farm_with_curve(None);
    assert_eq!(
        lm.deposit_shares(Origin::Signed(CHARLIE), 1, 2, 10_000, bsx_ksm_amm(), 10_000, 0),
        Ok(1)
    );
    // Stop at period 1: the final distribution moves one period's emission
    // into the farm's pot.
    assert_eq!(lm.stop_yield_farm(Origin::Signed(BOB), 1, 100, 10), Ok(2));
    assert_eq!(lm.global_farms[0].remaining_rewards, 495_000);
    assert_books_balance(&lm);

    // Four more periods pass; a stopped farm accrues nothing, so the
    // withdrawal pays exactly the pre-stop reward.
    let out = lm.withdraw_shares(Origin::Signed(CHARLIE), 1, 2, true, 50).unwrap();
    assert_eq!(out.claimed, 5_000);
    assert_eq!(out.unclaimable, 0);
    assert!(out.deposit_destroyed);
    assert_eq!(lm.global_farms[0].remaining_rewards, 495_000);
    assert_eq!(lm.global_farms[0].paid_rewards, 5_000);
    assert_books_balance(&lm);
}

#[test]
fn loyalty_curve_withholds_the_late_comer_share() {
    let curve = LoyaltyCurve {
        initial_reward_percentage: FixedU128 { inner: FIXED_ONE / 2 },
        scale_coef: 1,
    };
    let mut lm = farm_with_curve(Some(curve));
    assert_eq!(
        lm.deposit_shares(Origin::Signed(CHARLIE), 1, 2, 10_000, bsx_ksm_amm(), 10_000, 0),
        Ok(1)
    );
    // One period in: multiplier (1 + 0.5 + 0.5) / (1 + 0.5 + 1) = 0.8, so
    // 4_000 of the accrued 5_000 is claimable and 1_000 withheld.
    assert_eq!(
        lm.claim_rewards(Origin::Signed(CHARLIE), 1, 2, 10),
        Ok((1, BSX, 4_000, 1_000))
    );
    assert_books_balance(&lm);
    // Withdrawing in the same period pays nothing more and sends the
    // withheld 1_000 back to the global farm's undistributed budget.
    let out = lm.withdraw_shares(Origin::Signed(CHARLIE), 1, 2, true, 12).unwrap();
    assert_eq!(out.claimed, 0);
    assert_eq!(out.unclaimable, 1_000);
    assert_eq!(lm.global_farms[0].remaining_rewards, 496_000);
    assert_eq!(lm.global_farms[0].paid_rewards, 4_000);
    assert_books_balance(&lm);
}

#[test]
fn redeposit_is_bounded_and_unique_per_farm() {
    let mut lm = farm_with_curve(None);
    assert_eq!(
        lm.deposit_shares(Origin::Signed(CHARLIE), 1, 2, 10_000, bsx_ksm_amm(), 10_000, 0),
        Ok(1)
    );
    // The engine allows at most 3 entries; the same farm only once.
    assert_eq!(
        lm.redeposit_lp_shares(Origin::Signed(CHARLIE), 1, 2, 1, bsx_ksm_amm(), 0),
        Err(Error::DoubleEntry)
    );
    // Two more incentive programs for the same pool under new global farms.
    let pct = Perquintill::from_percent(1);
    for _ in 0..2 {
        lm.create_global_farm(
            Origin::Signed(BOB),
            500_000,
            20_000,
            10,
            BSX,
            BSX,
            BOB,
            pct,
            1,
            fixed_one(),
            0,
        )
        .unwrap();
    }
    let yf_b = lm
        .create_yield_farm(Origin::Signed(BOB), 3, bsx_ksm_pair(), fixed_one(), None, bsx_ksm_amm(), 0)
        .unwrap();
    let yf_c = lm
        .create_yield_farm(Origin::Signed(BOB), 4, bsx_ksm_pair(), fixed_one(), None, bsx_ksm_amm(), 0)
        .unwrap();
    assert_eq!(
        lm.redeposit_lp_shares(Origin::Signed(CHARLIE), 3, yf_b, 1, bsx_ksm_amm(), 0),
        Ok(10_000)
    );
    assert_eq!(
        lm.redeposit_lp_shares(Origin::Signed(CHARLIE), 4, yf_c, 1, bsx_ksm_amm(), 0),
        Ok(10_000)
    );
    assert_eq!(lm.deposits[0].entries.len(), 3);

    // A fourth entry would exceed the configured maximum; nothing changes.
    let (gid_d, _) = lm
        .create_global_farm(
            Origin::Signed(BOB),
            500_000,
            20_000,
            10,
            BSX,
            BSX,
            BOB,
            pct,
            1,
            fixed_one(),
            0,
        )
        .unwrap();
    let yf_d = lm
        .create_yield_farm(
            Origin::Signed(BOB),
            gid_d,
            bsx_ksm_pair(),
            fixed_one(),
            None,
            bsx_ksm_amm(),
            0,
        )
        .unwrap();
    assert_eq!(
        lm.redeposit_lp_shares(Origin::Signed(CHARLIE), gid_d, yf_d, 1, bsx_ksm_amm(), 0),
        Err(Error::MaxEntriesPerDeposit)
    );
    assert_eq!(lm.deposits[0].entries.len(), 3);
}

#[test]
fn deposits_validate_balance_state_and_minimum() {
    let mut lm = farm_with_curve(None);
    assert_eq!(
        lm.deposit_shares(Origin::Signed(CHARLIE), 1, 2, 10_000, bsx_ksm_amm(), 9_999, 0),
        Err(Error::InsufficientAmmSharesBalance)
    );
    assert_eq!(
        lm.deposit_shares(Origin::Signed(CHARLIE), 1, 2, 0, bsx_ksm_amm(), 10_000, 0),
        Err(Error::InvalidDepositAmount)
    );
    assert_eq!(
        lm.deposit_shares(Origin::Signed(CHARLIE), 1, 2, 10_000, None, 10_000, 0),
        Err(Error::AmmPoolDoesNotExist)
    );
    assert_eq!(
        lm.deposit_shares(Origin::Signed(CHARLIE), 1, 7, 10_000, bsx_ksm_amm(), 10_000, 0),
        Err(Error::YieldFarmNotFound)
    );
    assert_eq!(lm.stop_yield_farm(Origin::Signed(BOB), 1, 100, 0), Ok(2));
    assert_eq!(
        lm.deposit_shares(Origin::Signed(CHARLIE), 1, 2, 10_000, bsx_ksm_amm(), 10_000, 0),
        Err(Error::LiquidityMiningIsNotActive)
    );
}

#[test]
fn claims_check_ownership_and_state() {
    let mut lm = farm_with_curve(None);
    assert_eq!(
        lm.deposit_shares(Origin::Signed(CHARLIE), 1, 2, 10_000, bsx_ksm_amm(), 10_000, 0),
        Ok(1)
    );
    assert_eq!(
        lm.claim_rewards(Origin::Signed(BOB), 1, 2, 10),
        Err(Error::NotDepositOwner)
    );
    assert_eq!(
        lm.claim_rewards(Origin::Signed(CHARLIE), 9, 2, 10),
        Err(Error::CantFindDepositOwner)
    );
    assert_eq!(
        lm.claim_rewards(Origin::Signed(CHARLIE), 1, 9, 10),
        Err(Error::YieldFarmEntryNotFound)
    );
    assert_eq!(lm.stop_yield_farm(Origin::Signed(BOB), 1, 100, 10), Ok(2));
    assert_eq!(
        lm.claim_rewards(Origin::Signed(CHARLIE), 1, 2, 10),
        Err(Error::LiquidityMiningIsNotActive)
    );
}

#[test]
fn withdrawals_check_the_entry_and_the_farm() {
    let mut lm = farm_with_curve(None);
    assert_eq!(
        lm.deposit_shares(Origin::Signed(CHARLIE), 1, 2, 10_000, bsx_ksm_amm(), 10_000, 0),
        Ok(1)
    );
    // No entry for a farm the deposit never joined.
    assert_eq!(
        lm.withdraw_shares(Origin::Signed(CHARLIE), 1, 9, true, 10),
        Err(Error::DepositDataNotFound)
    );
    // Stopping an unknown pool finds no yield farm.
    assert_eq!(
        lm.stop_yield_farm(Origin::Signed(BOB), 1, 999, 10),
        Err(Error::YieldFarmNotFound)
    );
    // A second withdrawal finds nothing left to withdraw.
    assert!(lm.withdraw_shares(Origin::Signed(CHARLIE), 1, 2, true, 10).is_ok());
    assert_eq!(
        lm.withdraw_shares(Origin::Signed(CHARLIE), 1, 2, true, 10),
        Err(Error::CantFindDepositOwner)
    );
}

#[test]
fn purge_of_a_deleted_farm_returns_its_pot() {
    let mut lm = farm_with_curve(None);
    assert_eq!(
        lm.deposit_shares(Origin::Signed(CHARLIE), 1, 2, 10_000, bsx_ksm_amm(), 10_000, 0),
        Ok(1)
    );
    // One period's emission lands in the pot at the stop.
    assert_eq!(lm.stop_yield_farm(Origin::Signed(BOB), 1, 100, 10), Ok(2));
    assert_eq!(lm.destroy_yield_farm(Origin::Signed(BOB), 1, 2, 100), Ok(()));
    assert_eq!(lm.yield_farms.len(), 1);
    assert_books_balance(&lm);

    // A deleted farm pays nothing; the last withdrawal purges it and its
    // whole pot flows back into the undistributed budget.
    let out = lm.withdraw_shares(Origin::Signed(CHARLIE), 1, 2, true, 50).unwrap();
    assert_eq!(out.claimed, 0);
    assert!(out.yield_farm_purged);
    assert!(out.deposit_destroyed);
    assert_eq!(lm.yield_farms.len(), 0);
    assert_eq!(lm.global_farms[0].remaining_rewards, 500_000);
    assert_eq!(lm.global_farms[0].paid_rewards, 0);
    assert_books_balance(&lm);
    // The budget can now come back whole.
    assert_eq!(
        lm.destroy_global_farm(Origin::Signed(BOB), 1),
        Ok((BSX, 500_000, BOB))
    );
}

#[test]
fn withdrawal_without_the_pool_keeps_the_shares_locked() {
    let mut lm = farm_with_curve(None);
    assert_eq!(
        lm.deposit_shares(Origin::Signed(CHARLIE), 1, 2, 10_000, bsx_ksm_amm(), 10_000, 0),
        Ok(1)
    );
    let out = lm.withdraw_shares(Origin::Signed(CHARLIE), 1, 2, false, 10).unwrap();
    assert!(out.deposit_destroyed);
    assert!(!out.lp_tokens_unlocked);
    assert_eq!(out.withdrawn_amount, 10_000);
}

#[test]
fn two_depositors_split_the_emission_by_their_shares() {
    let mut lm = farm_with_curve(None);
    assert_eq!(
        lm.deposit_shares(Origin::Signed(CHARLIE), 1, 2, 7_500, bsx_ksm_amm(), 7_500, 0),
        Ok(1)
    );
    assert_eq!(
        lm.deposit_shares(Origin::Signed(BOB), 1, 2, 2_500, bsx_ksm_amm(), 2_500, 0),
        Ok(2)
    );
    assert_eq!(
        lm.claim_rewards(Origin::Signed(CHARLIE), 1, 2, 10),
        Ok((1, BSX, 3_750, 0))
    );
    assert_eq!(
        lm.claim_rewards(Origin::Signed(BOB), 2, 2, 10),
        Ok((1, BSX, 1_250, 0))
    );
    assert_eq!(lm.global_farms[0].paid_rewards, 5_000);
    assert_books_balance(&lm);
}
