//! Chain-wide primitive types: trade intentions, reserve identifiers, the
//! non-fungible class taxonomy with its permission table, trading fees, and
//! the marketplace's old royalty record with its conversion to basis points.

use vstd::prelude::*;

verus! {

use crate::types::AssetPair;
use crate::types::Balance;

/// Direction of a trade intention.
#[derive(Clone, Copy, Debug, PartialEq, Eq, Structural)]
pub enum IntentionType {
    SELL,
    BUY,
}

impl Default for IntentionType {
    fn default() -> (r: IntentionType)
        ensures
            r == IntentionType::SELL,
    {
        IntentionType::SELL
    }
}

/// A user's intention to exchange one asset of a pair for the other.
#[derive(Clone, Debug, PartialEq, Eq)]
pub struct ExchangeIntention<AccountId, Balance, IntentionID> {
    pub who: AccountId,
    pub assets: AssetPair,
    pub amount_in: Balance,
    pub amount_out: Balance,
    pub trade_limit: Balance,
    pub discount: bool,
    pub sell_or_buy: IntentionType,
    pub intention_id: IntentionID,
}

/// Namespaces for reserved balances.
#[derive(Clone, Copy, Debug, PartialEq, Eq, PartialOrd, Ord, Hash, Structural)]
pub enum ReserveIdentifier {
    Nft,
    Marketplace,
    /// Always the last variant; marks the number of identifiers.
    Count,
}

/// What a class of non-fungible tokens is used for.
#[derive(Clone, Copy, Debug, PartialEq, Eq, Structural)]
pub enum ClassType {
    Bare,
    Marketplace,
    LiquidityMining,
    Redeemable,
    Auction,
    HydraHeads,
}

impl Default for ClassType {
    fn default() -> (r: ClassType)
        ensures
            r == ClassType::Bare,
    {
        ClassType::Bare
    }
}

/// Which operations ordinary users may perform on each class type.
pub trait NftPermission<InnerClassType> {
    fn can_create(class_type: &InnerClassType) -> bool;

    fn can_mint(class_type: &InnerClassType) -> bool;

    fn can_transfer(class_type: &InnerClassType) -> bool;

    fn can_burn(class_type: &InnerClassType) -> bool;

    fn can_destroy(class_type: &InnerClassType) -> bool;

    fn has_deposit(class_type: &InnerClassType) -> bool;
}

/// The chain's permission table: users manage only bare and marketplace
/// classes themselves; liquidity-mining deposit tokens can only be
/// transferred.
#[derive(Clone, Copy, Debug, PartialEq, Eq, Structural)]
pub struct NftPermissions;

/// Whether a class type is one users fully manage themselves.
pub open spec fn user_managed(class_type: ClassType) -> bool {
    class_type == ClassType::Bare || class_type == ClassType::Marketplace
}

impl NftPermission<ClassType> for NftPermissions {
    fn can_create(class_type: &ClassType) -> (r: bool)
        ensures
            r == user_managed(*class_type),
    {
        matches!(*class_type, ClassType::Bare | ClassType::Marketplace)
    }

    fn can_mint(class_type: &ClassType) -> (r: bool)
        ensures
            r == user_managed(*class_type),
    {
        matches!(*class_type, ClassType::Bare | ClassType::Marketplace)
    }

    fn can_transfer(class_type: &ClassType) -> (r: bool)
        ensures
            r == (user_managed(*class_type) || *class_type == ClassType::LiquidityMining),
    {
        matches!(*class_type, ClassType::Bare | ClassType::Marketplace | ClassType::LiquidityMining)
    }

    fn can_burn(class_type: &ClassType) -> (r: bool)
        ensures
            r == user_managed(*class_type),
    {
        matches!(*class_type, ClassType::Bare | ClassType::Marketplace)
    }

    fn can_destroy(class_type: &ClassType) -> (r: bool)
        ensures
            r == user_managed(*class_type),
    {
        matches!(*class_type, ClassType::Bare | ClassType::Marketplace)
    }

    fn has_deposit(class_type: &ClassType) -> (r: bool)
        ensures
            r == user_managed(*class_type),
    {
        matches!(*class_type, ClassType::Bare | ClassType::Marketplace)
    }
}

/// A trading fee as a ratio of two small integers.
#[derive(Clone, Copy, Debug, PartialEq, Eq, Structural)]
pub struct Fee {
    pub numerator: u32,
    pub denominator: u32,
}

impl Default for Fee {
    /// The standard trading fee: two parts in a thousand.
    fn default() -> (r: Fee)
        ensures
            r == (Fee { numerator: 2, denominator: 1000 }),
    {
        Fee { numerator: 2, denominator: 1000 }
    }
}

/// Fee arithmetic on balances. Every operation returns `None` when a step
/// overflows or divides by zero, never a wrong amount.
pub trait WithFee where Self: core::marker::Sized {
    /// The amount with the fee added on top.
    fn with_fee(&self, fee: Fee) -> Option<Self>;

    /// The amount a gross value had before the fee was added.
    fn without_fee(&self, fee: Fee) -> Option<Self>;

    /// The fee alone.
    fn just_fee(&self, fee: Fee) -> Option<Self>;

    /// The fee alone, at the discounted rate of seven parts in ten thousand.
    fn discounted_fee(&self) -> Option<Self>;
}

/// `floor(amount * (den + num) / den)`: the amount plus its fee.
pub open spec fn spec_with_fee(amount: Balance, fee: Fee) -> Option<Balance> {
    if fee.denominator + fee.numerator > u32::MAX {
        None
    } else if amount * ((fee.denominator + fee.numerator) as u128) > u128::MAX {
        None
    } else if fee.denominator == 0 {
        None
    } else {
        Some(
            (amount * ((fee.denominator + fee.numerator) as u128) / (
            fee.denominator as int)) as Balance,
        )
    }
}

/// `floor(amount * den / (den + num))`: the pre-fee amount of a gross value.
pub open spec fn spec_without_fee(amount: Balance, fee: Fee) -> Option<Balance> {
    if amount * (fee.denominator as u128) > u128::MAX {
        None
    } else if fee.denominator + fee.numerator > u32::MAX || fee.denominator + fee.numerator == 0 {
        None
    } else {
        Some(
            (amount * (fee.denominator as u128) / ((fee.denominator
                + fee.numerator) as int)) as Balance,
        )
    }
}

/// `floor(amount * num / den)`: the fee alone.
pub open spec fn spec_just_fee(amount: Balance, fee: Fee) -> Option<Balance> {
    if amount * (fee.numerator as u128) > u128::MAX {
        None
    } else if fee.denominator == 0 {
        None
    } else {
        Some((amount * (fee.numerator as u128) / (fee.denominator as int)) as Balance)
    }
}

impl WithFee for Balance {
    fn with_fee(&self, fee: Fee) -> (r: Option<Balance>)
        ensures
            r == spec_with_fee(*self, fee),
    {
        let scale: u32 = match fee.denominator.checked_add(fee.numerator) {
            Some(v) => v,
            None => {
                return None;
            },
        };
        let gross: Balance = match self.checked_mul(scale as u128) {
            Some(v) => v,
            None => {
                return None;
            },
        };
        gross.checked_div(fee.denominator as u128)
    }

    fn without_fee(&self, fee: Fee) -> (r: Option<Balance>)
        ensures
            r == spec_without_fee(*self, fee),
    {
        let net: Balance = match self.checked_mul(fee.denominator as u128) {
            Some(v) => v,
            None => {
                return None;
            },
        };
        let scale: u32 = match fee.denominator.checked_add(fee.numerator) {
            Some(v) => v,
            None => {
                return None;
            },
        };
        net.checked_div(scale as u128)
    }

    fn just_fee(&self, fee: Fee) -> (r: Option<Balance>)
        ensures
            r == spec_just_fee(*self, fee),
    {
        let scaled: Balance = match self.checked_mul(fee.numerator as u128) {
            Some(v) => v,
            None => {
                return None;
            },
        };
        scaled.checked_div(fee.denominator as u128)
    }

    fn discounted_fee(&self) -> (r: Option<Balance>)
        ensures
            r == spec_just_fee(*self, Fee { numerator: 7, denominator: 10000 }),
    {
        let fee: Fee = Fee { numerator: 7, denominator: 10000 };
        self.just_fee(fee)
    }
}

/// The marketplace's royalty record before royalties moved from whole
/// percents to basis points.
#[derive(Debug, PartialEq, Eq)]
pub struct OldRoyalty<AccountId> {
    pub author: AccountId,
    /// Royalty in percent, in the range 0 to 99.
    pub royalty: u8,
}

/// Converts a whole-percent royalty to basis points, as the storage
/// migration does for every marketplace item.
pub fn royalty_to_basis_points(royalty: u8) -> (r: u16)
    ensures
        r == royalty * 100,
{
    (royalty as u16) * 100
}

} // verus!
