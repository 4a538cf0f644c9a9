use liquidity_mining::engine::LiquidityMining;
use liquidity_mining::fixed::Perquintill;
use liquidity_mining::fixed::FixedU128;
use liquidity_mining::fixed::FIXED_ONE;
use liquidity_mining::loyalty::LoyaltyCurve;
use liquidity_mining::types::AmmPoolInfo;
use liquidity_mining::types::AssetPair;
use liquidity_mining::types::Error;
use liquidity_mining::types::FarmState;
use liquidity_mining::types::Origin;

const ONE: u128 = 1_000_000_000_000;
const BOB: u64 = 2;
const CHARLIE: u64 = 3;
const BSX: u32 = 0;
const KSM: u32 = 1;

fn fixed_one() -> FixedU128 {
    FixedU128 { inner: FIXED_ONE }
}

fn bsx_ksm_pair() -> AssetPair {
    AssetPair::new(BSX, KSM)
}

fn bsx_ksm_amm() -> Option<AmmPoolInfo> {
    Some(AmmPoolInfo { pool_id: 100, share_token: 5 })
}

/// One global farm (id 1, owner BOB) with one yield farm (id 2) for the
/// BSX/KSM pool.
fn two_farms() -> LiquidityMining {
    let mut lm = LiquidityMining::new(5, 1_000, 100);
    let created = lm.create_global_farm(
        Origin::Signed(BOB),
        500_000 * ONE,
        20_000,
        10,
        BSX,
        BSX,
        BOB,
        Perquintill::from_percent(1),
        ONE,
        fixed_one(),
        0,
    );
    assert_eq!(created, Ok((1, 5_000 * ONE)));
    let yf = lm.create_yield_farm(
        Origin::Signed(BOB),
        1,
        bsx_ksm_pair(),
        fixed_one(),
        None,
        bsx_ksm_amm(),
        0,
    );
    assert_eq!(yf, Ok(2));
    lm
}

#[test]
fn destroy_yield_farm_should_work() {
    let mut lm = two_farms();
    // A yield farm is destroyed from the stopped state.
    assert_eq!(lm.stop_yield_farm(Origin::Signed(BOB), 1, 100, 0), Ok(2));

    assert_eq!(lm.destroy_yield_farm(Origin::Signed(BOB), 1, 2, 100), Ok(()));

    // No entries were open, so the record is purged at once and the global
    // farm is empty again.
    assert_eq!(lm.yield_farms.len(), 0);
    assert_eq!(lm.global_farms[0].total_yield_farms_count, 0);
    assert_eq!(lm.global_farms[0].live_yield_farms_count, 0);
}

#[test]
fn destroy_yield_farm_should_fail_when_caller_is_not_signed() {
    let mut lm = two_farms();
    assert_eq!(lm.stop_yield_farm(Origin::Signed(BOB), 1, 100, 0), Ok(2));

    assert_eq!(
        lm.destroy_yield_farm(Origin::Unsigned, 1, 2, 100),
        Err(Error::BadOrigin)
    );
    // The farm is still there, untouched.
    assert_eq!(lm.yield_farms.len(), 1);
    assert_eq!(lm.yield_farms[0].state, FarmState::Stopped);
}

#[test]
fn stop_twice_fails_with_lifecycle_error_and_changes_nothing() {
    let mut lm = two_farms();
    assert_eq!(lm.stop_yield_farm(Origin::Signed(BOB), 1, 100, 0), Ok(2));
    let farm_before = lm.global_farms[0];
    let yield_before = lm.yield_farms[0];

    assert_eq!(
        lm.stop_yield_farm(Origin::Signed(BOB), 1, 100, 40),
        Err(Error::LiquidityMiningIsNotActive)
    );

    assert_eq!(lm.global_farms[0], farm_before);
    assert_eq!(lm.yield_farms[0], yield_before);
}

#[test]
fn resume_restores_deposits_without_backfilling() {
    let mut lm = two_farms();
    assert_eq!(lm.stop_yield_farm(Origin::Signed(BOB), 1, 100, 0), Ok(2));
    assert_eq!(
        lm.resume_yield_farm(Origin::Signed(BOB), 1, 2, fixed_one(), bsx_ksm_amm(), 50),
        Ok(())
    );
    assert_eq!(lm.yield_farms[0].state, FarmState::Active);
    // Nothing was distributed while stopped or at resume.
    assert_eq!(lm.global_farms[0].remaining_rewards, 500_000 * ONE);
}

#[test]
fn resume_of_active_farm_fails() {
    let mut lm = two_farms();
    assert_eq!(
        lm.resume_yield_farm(Origin::Signed(BOB), 1, 2, fixed_one(), bsx_ksm_amm(), 0),
        Err(Error::LiquidityMiningIsNotStopped)
    );
}

#[test]
fn destroy_of_active_farm_fails() {
    let mut lm = two_farms();
    assert_eq!(
        lm.destroy_yield_farm(Origin::Signed(BOB), 1, 2, 100),
        Err(Error::LiquidityMiningIsNotStopped)
    );
}

#[test]
fn only_the_owner_manages_farms() {
    let mut lm = two_farms();
    assert_eq!(
        lm.stop_yield_farm(Origin::Signed(CHARLIE), 1, 100, 0),
        Err(Error::Forbidden)
    );
    assert_eq!(
        lm.destroy_global_farm(Origin::Signed(CHARLIE), 1),
        Err(Error::Forbidden)
    );
}

#[test]
fn global_farm_creation_validates_its_parameters() {
    let mut lm = LiquidityMining::new(5, 1_000, 100);
    let pct = Perquintill::from_percent(1);
    assert_eq!(
        lm.create_global_farm(Origin::Signed(BOB), 999, 100, 10, BSX, BSX, BOB, pct, 1, fixed_one(), 0),
        Err(Error::InvalidTotalRewards)
    );
    assert_eq!(
        lm.create_global_farm(Origin::Signed(BOB), 1_000, 99, 10, BSX, BSX, BOB, pct, 1, fixed_one(), 0),
        Err(Error::InvalidPlannedYieldingPeriods)
    );
    assert_eq!(
        lm.create_global_farm(Origin::Signed(BOB), 1_000, 100, 0, BSX, BSX, BOB, pct, 1, fixed_one(), 0),
        Err(Error::InvalidBlocksPerPeriod)
    );
    assert_eq!(
        lm.create_global_farm(
            Origin::Signed(BOB),
            1_000,
            100,
            10,
            BSX,
            BSX,
            BOB,
            Perquintill::from_percent(0),
            1,
            fixed_one(),
            0
        ),
        Err(Error::InvalidYieldPerPeriod)
    );
    assert_eq!(lm.global_farms.len(), 0);
}

#[test]
fn yield_farm_creation_validates_the_pool_and_the_pair() {
    let mut lm = two_farms();
    // Unknown global farm.
    assert_eq!(
        lm.create_yield_farm(Origin::Signed(BOB), 7, bsx_ksm_pair(), fixed_one(), None, bsx_ksm_amm(), 0),
        Err(Error::GlobalFarmNotFound)
    );
    // The pool has no AMM behind it.
    assert_eq!(
        lm.create_yield_farm(Origin::Signed(BOB), 1, bsx_ksm_pair(), fixed_one(), None, None, 0),
        Err(Error::AmmPoolDoesNotExist)
    );
    // The pair misses the incentivized asset.
    assert_eq!(
        lm.create_yield_farm(
            Origin::Signed(BOB),
            1,
            AssetPair::new(KSM, 7),
            fixed_one(),
            None,
            Some(AmmPoolInfo { pool_id: 200, share_token: 6 }),
            0
        ),
        Err(Error::MissingIncentivizedAsset)
    );
    // A second farm for a pool that already has a live one.
    assert_eq!(
        lm.create_yield_farm(Origin::Signed(BOB), 1, bsx_ksm_pair(), fixed_one(), None, bsx_ksm_amm(), 0),
        Err(Error::YieldFarmAlreadyExists)
    );
    // A zero multiplier.
    assert_eq!(
        lm.create_yield_farm(
            Origin::Signed(BOB),
            1,
            bsx_ksm_pair(),
            FixedU128 { inner: 0 },
            None,
            Some(AmmPoolInfo { pool_id: 300, share_token: 7 }),
            0
        ),
        Err(Error::InvalidMultiplier)
    );
    // A loyalty curve starting at one.
    assert_eq!(
        lm.create_yield_farm(
            Origin::Signed(BOB),
            1,
            bsx_ksm_pair(),
            fixed_one(),
            Some(LoyaltyCurve { initial_reward_percentage: fixed_one(), scale_coef: 100 }),
            Some(AmmPoolInfo { pool_id: 300, share_token: 7 }),
            0
        ),
        Err(Error::InvalidLoyaltyCurve)
    );
}

#[test]
fn global_farm_destruction_requires_an_empty_farm() {
    let mut lm = two_farms();
    assert_eq!(
        lm.destroy_global_farm(Origin::Signed(BOB), 1),
        Err(Error::GlobalFarmIsNotEmpty)
    );
    assert_eq!(lm.stop_yield_farm(Origin::Signed(BOB), 1, 100, 0), Ok(2));
    assert_eq!(lm.destroy_yield_farm(Origin::Signed(BOB), 1, 2, 100), Ok(()));
    // Empty now: the whole untouched budget comes back.
    assert_eq!(
        lm.destroy_global_farm(Origin::Signed(BOB), 1),
        Ok((BSX, 500_000 * ONE, BOB))
    );
    assert_eq!(lm.global_farms.len(), 0);
    assert_eq!(
        lm.destroy_global_farm(Origin::Signed(BOB), 1),
        Err(Error::GlobalFarmNotFound)
    );
}

#[test]
fn update_yield_farm_changes_the_weight() {
    let mut lm = two_farms();
    assert_eq!(
        lm.deposit_shares(Origin::Signed(CHARLIE), 1, 2, 10_000 * ONE, bsx_ksm_amm(), 10_000 * ONE, 0),
        Ok(1)
    );
    assert_eq!(lm.global_farms[0].total_shares_z, 10_000 * ONE);
    let double = FixedU128 { inner: 2 * FIXED_ONE };
    assert_eq!(
        lm.update_yield_farm(Origin::Signed(BOB), 1, double, bsx_ksm_amm(), 0),
        Ok(2)
    );
    assert_eq!(lm.global_farms[0].total_shares_z, 20_000 * ONE);
    assert_eq!(lm.yield_farms[0].multiplier, double);
    // Only while active.
    assert_eq!(lm.stop_yield_farm(Origin::Signed(BOB), 1, 100, 0), Ok(2));
    assert_eq!(
        lm.update_yield_farm(Origin::Signed(BOB), 1, double, bsx_ksm_amm(), 0),
        Err(Error::LiquidityMiningIsNotActive)
    );
}
