//! The engine's data model: farms, deposits and errors.
//!
//! Records are kept in arenas and refer to each other by stable integer
//! ids only. The surrounding chain — the token ledger, the AMM pools, the
//! token that represents a deposit, and the block clock — stays outside the
//! engine; each call takes the facts it needs from them as plain values and
//! reports in its result the transfers the caller must perform.

use vstd::prelude::*;

verus! {

use crate::fixed::FIXED_ONE;
use crate::fixed::FixedU128;
use crate::fixed::Perquintill;
use crate::loyalty::LoyaltyCurve;

/// An account on the surrounding chain.
pub type AccountId = u64;

/// Identifier of a fungible asset.
pub type AssetId = u32;

/// An amount of some asset.
pub type Balance = u128;

/// A block number, the engine's logical clock.
pub type BlockNumber = u64;

/// A whole number of periods; a period is `blocks_per_period` blocks.
pub type Period = u64;

/// Identifier of a global or yield farm; both kinds draw from one sequence.
pub type FarmId = u32;

/// Identifier of a deposit, the id of the token that represents it.
pub type DepositId = u128;

/// Identifier of an AMM pool (the pool's account on the chain).
pub type PoolId = u64;

/// The origin of a call: farm and deposit operations demand a signature.
#[derive(Clone, Copy, Debug, PartialEq, Eq, Structural)]
pub enum Origin {
    Signed(AccountId),
    Unsigned,
}

/// A pair of assets identifying an AMM pool.
#[derive(Clone, Copy, Debug, PartialEq, Eq, Structural)]
pub struct AssetPair {
    pub asset_in: AssetId,
    pub asset_out: AssetId,
}

impl AssetPair {
    pub fn new(asset_in: AssetId, asset_out: AssetId) -> (r: AssetPair)
        ensures
            r.asset_in == asset_in,
            r.asset_out == asset_out,
    {
        AssetPair { asset_in, asset_out }
    }

    pub open spec fn spec_contains(self, asset: AssetId) -> bool {
        self.asset_in == asset || self.asset_out == asset
    }

    pub fn contains(self, asset: AssetId) -> (r: bool)
        ensures
            r == self.spec_contains(asset),
    {
        self.asset_in == asset || self.asset_out == asset
    }
}

/// What the AMM reports about the pool of an asset pair, handed to the
/// engine by the caller: the pool's id and its share token. Absent when no
/// pool exists for the pair.
#[derive(Clone, Copy, Debug, PartialEq, Eq, Structural)]
pub struct AmmPoolInfo {
    pub pool_id: PoolId,
    pub share_token: AssetId,
}

/// Lifecycle of a yield farm.
#[derive(Clone, Copy, Debug, PartialEq, Eq, Structural)]
pub enum FarmState {
    Active,
    Stopped,
    Deleted,
}

/// Why a call was rejected. A rejected call leaves the engine unchanged.
#[derive(Clone, Copy, Debug, PartialEq, Eq, Structural)]
pub enum Error {
    /// The call was not signed.
    BadOrigin,
    /// No global farm has the given id.
    GlobalFarmNotFound,
    /// No live yield farm matches the given ids and pool.
    YieldFarmNotFound,
    /// No deposit has the given id, so no owner can be found for it.
    CantFindDepositOwner,
    /// The caller does not own the deposit.
    NotDepositOwner,
    /// The caller does not own the global farm.
    Forbidden,
    /// The deposit has no entry for the given yield farm.
    YieldFarmEntryNotFound,
    /// The deposit has no entry for the given yield farm.
    DepositDataNotFound,
    /// The caller claims the asset pair has no AMM pool behind it.
    AmmPoolDoesNotExist,
    /// The caller's balance of pool shares is below the deposited amount.
    InsufficientAmmSharesBalance,
    /// The planned reward budget is below the configured minimum.
    InvalidTotalRewards,
    /// The planned number of periods is below the configured minimum.
    InvalidPlannedYieldingPeriods,
    /// A period must span at least one block.
    InvalidBlocksPerPeriod,
    /// The yield per period must not be zero.
    InvalidYieldPerPeriod,
    /// A yield farm's multiplier must not be zero.
    InvalidMultiplier,
    /// The pool's pair does not include the farm's incentivized asset.
    MissingIncentivizedAsset,
    /// A loyalty curve must start below one and have a positive scale.
    InvalidLoyaltyCurve,
    /// The deposited amount is below the global farm's minimum.
    InvalidDepositAmount,
    /// A global farm can only be destroyed after all its yield farms are gone.
    GlobalFarmIsNotEmpty,
    /// The global farm already runs a yield farm for this pool.
    YieldFarmAlreadyExists,
    /// The operation needs an active yield farm.
    LiquidityMiningIsNotActive,
    /// The operation needs a stopped yield farm.
    LiquidityMiningIsNotStopped,
    /// Rewards for this period were already claimed.
    DoubleClaim,
    /// The deposit already has an entry in this yield farm.
    DoubleEntry,
    /// The deposit already has the configured maximum number of entries.
    MaxEntriesPerDeposit,
    /// An intermediate value left the representable range.
    Arithmetic,
}

/// A reward budget with an emission schedule, shared by the yield farms
/// created under it.
///
/// The budget moves between four buckets and nowhere else: `remaining`
/// (undistributed), `pending` (emitted into the global accumulator, not yet
/// drawn by a yield farm), the yield farms' own `left_to_distribute` pots,
/// and `paid` (transferred to users). Their sum always equals
/// `total_rewards`.
#[derive(Clone, Copy, Debug, PartialEq, Eq, Structural)]
pub struct GlobalFarm {
    pub id: FarmId,
    pub owner: AccountId,
    /// Period of the last accumulator update.
    pub updated_at: Period,
    /// The planned budget, fixed at creation.
    pub total_rewards: Balance,
    /// Undistributed budget, held on the farm's custody account.
    pub remaining_rewards: Balance,
    /// Emitted into the global accumulator but not yet drawn by a yield farm.
    pub pending_rewards: Balance,
    /// Paid out to users over the farm's lifetime.
    pub paid_rewards: Balance,
    pub reward_currency: AssetId,
    pub yield_per_period: Perquintill,
    pub planned_yielding_periods: Period,
    pub blocks_per_period: BlockNumber,
    /// Every yield farm under this farm must trade this asset.
    pub incentivized_asset: AssetId,
    /// Fixed scalar converting raw shares to valued shares.
    pub price_adjustment: FixedU128,
    /// Cap on what one period may emit.
    pub max_reward_per_period: Balance,
    /// Smallest amount a single deposit may lock.
    pub min_deposit: Balance,
    /// Reward per weighted share, monotonically non-decreasing.
    pub accumulated_rpz: FixedU128,
    /// Total weighted shares over all active yield farms.
    pub total_shares_z: Balance,
    /// Yield farms not yet marked deleted.
    pub live_yield_farms_count: u32,
    /// Yield farms still in storage, deleted ones awaiting purge included.
    pub total_yield_farms_count: u32,
}

impl GlobalFarm {
    /// Structural soundness of a single record.
    pub open spec fn wf(self) -> bool {
        &&& self.blocks_per_period >= 1
        &&& self.yield_per_period.parts <= FIXED_ONE
    }

    /// The period the given block falls in.
    pub open spec fn spec_period_of(self, block: BlockNumber) -> Period {
        (block as int / self.blocks_per_period as int) as Period
    }

    pub fn period_of(&self, block: BlockNumber) -> (r: Period)
        requires
            self.blocks_per_period >= 1,
        ensures
            r == self.spec_period_of(block),
    {
        block / self.blocks_per_period
    }
}

/// An incentive program for one AMM pool's share token, drawing from one
/// global farm.
#[derive(Clone, Copy, Debug, PartialEq, Eq, Structural)]
pub struct YieldFarm {
    pub id: FarmId,
    pub global_farm_id: FarmId,
    /// The AMM pool whose share token this farm incentivizes.
    pub amm_pool_id: PoolId,
    /// The pair served by that pool, as given when the farm was created.
    pub assets: AssetPair,
    /// Period of the last accumulator sync.
    pub updated_at: Period,
    /// Raw shares locked in this farm.
    pub total_shares: Balance,
    /// Valued shares locked in this farm.
    pub total_valued_shares: Balance,
    /// Reward per valued share, synced from the global accumulator.
    pub accumulated_rpvs: FixedU128,
    /// The global accumulator value this farm has drawn up to.
    pub accumulated_rpz: FixedU128,
    pub loyalty_curve: Option<LoyaltyCurve>,
    /// Weight against the sibling yield farms of the same global farm.
    pub multiplier: FixedU128,
    pub state: FarmState,
    /// Open farm entries referencing this farm.
    pub entries_count: u64,
    /// Rewards drawn from the global farm, not yet claimed by entries.
    pub left_to_distribute: Balance,
}

impl YieldFarm {
    pub open spec fn wf(self) -> bool {
        match self.loyalty_curve {
            None => true,
            Some(c) => c.wf(),
        }
    }

    pub open spec fn is_active(self) -> bool {
        self.state == FarmState::Active
    }

    pub open spec fn is_stopped(self) -> bool {
        self.state == FarmState::Stopped
    }

    pub open spec fn is_deleted(self) -> bool {
        self.state == FarmState::Deleted
    }

    /// This farm's weight in the global farm: `multiplier * valued shares`.
    pub open spec fn spec_stake_in_global(self) -> Option<Balance> {
        self.multiplier.spec_mul_int(self.total_valued_shares)
    }

    pub fn stake_in_global(&self) -> (r: Option<Balance>)
        ensures
            r == self.spec_stake_in_global(),
    {
        self.multiplier.checked_mul_int(self.total_valued_shares)
    }
}

/// One deposit's stake inside one yield farm.
#[derive(Clone, Copy, Debug, PartialEq, Eq, Structural)]
pub struct FarmEntry {
    pub global_farm_id: FarmId,
    pub yield_farm_id: FarmId,
    /// The deposit's raw shares scaled by the global farm's price adjustment.
    pub valued_shares: Balance,
    /// The yield farm accumulator at entry time; the base of every claim.
    pub accumulated_rpvs: FixedU128,
    /// Total already paid to this entry; claims pay the difference.
    pub accumulated_claimed_rewards: Balance,
    /// The period the entry was created in; loyalty counts from here.
    pub entered_at: Period,
    /// The period of the last claim.
    pub updated_at: Period,
    /// Whether the yield farm was already stopped when the entry was made.
    pub stopped_at_creation: bool,
}

/// What a withdrawal did: the amounts moved and the records retired. The
/// caller performs the reported transfers — pay `claimed` to the owner,
/// return the shares from custody when `lp_tokens_unlocked`, and burn the
/// deposit's token when `deposit_destroyed`.
#[derive(Clone, Copy, Debug, PartialEq, Eq, Structural)]
pub struct WithdrawOutcome {
    pub global_farm_id: FarmId,
    pub reward_currency: AssetId,
    /// Reward paid out by the claim the withdrawal performed, if any.
    pub claimed: Balance,
    /// Accrued reward the loyalty curve withheld, returned to the global farm.
    pub unclaimable: Balance,
    /// The deposit's raw shares this entry covered.
    pub withdrawn_amount: Balance,
    /// The last entry was withdrawn and the deposit is gone.
    pub deposit_destroyed: bool,
    /// The yield farm was deleted and this was its last entry: it is purged.
    pub yield_farm_purged: bool,
    /// Shares leave custody only when the deposit is destroyed and the AMM
    /// pool still exists; with the pool gone only the bookkeeping clears.
    pub lp_tokens_unlocked: bool,
}

/// A user position: locked pool shares plus one farm entry per incentive
/// program the shares take part in. Represented on chain by a token whose
/// id is the deposit id; the engine mirrors its ownership.
#[derive(Debug)]
pub struct Deposit {
    pub id: DepositId,
    pub owner: AccountId,
    /// The locked raw shares, custodied by the engine's holding account.
    pub shares: Balance,
    /// The pool the shares belong to.
    pub amm_pool_id: PoolId,
    pub entries: Vec<FarmEntry>,
}

} // verus!
