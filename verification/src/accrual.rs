//! The reward accrual algorithm.
//!
//! Rewards flow through a two-level accumulator scheme. A global sync turns
//! elapsed periods into emitted reward and raises the global "reward per
//! weighted share" accumulator; a yield-farm sync draws that farm's share of
//! the emission into its own pot and raises its "reward per valued share"
//! accumulator; entry settlement pays a single entry from the pot, scaled by
//! the loyalty multiplier.
//!
//! Every function here is pure: it takes records and returns the updated
//! records, so a caller can stage a whole operation and commit it only when
//! every step succeeded. All divisions truncate; what truncation leaves
//! behind stays in the earlier bucket and is never lost.

use vstd::prelude::*;

verus! {

use crate::fixed::FIXED_ONE;
use crate::fixed::FixedU128;
use crate::fixed::mul_div_spec;
use crate::fixed::lemma_mul_div_le_factor;
use crate::loyalty::loyalty_multiplier;
use crate::loyalty::loyalty_multiplier_spec;
use crate::types::Balance;
use crate::types::Error;
use crate::types::FarmEntry;
use crate::types::GlobalFarm;
use crate::types::Period;
use crate::types::YieldFarm;

/// What a global sync at period `now` turns the farm into.
///
/// If at least one period elapsed and weighted shares are staked, the farm
/// emits `min(yield_per_period * remaining, max_reward_per_period)` per
/// elapsed period, capped by what remains, moves that amount from
/// `remaining` to `pending`, and raises the global accumulator by
/// `emitted / total_shares_z`. With no stake the periods pass without
/// emission and the reward stays in `remaining`.
pub open spec fn spec_global_synced(g: GlobalFarm, now: Period) -> Result<GlobalFarm, Error> {
    if now <= g.updated_at {
        Ok(g)
    } else if g.total_shares_z == 0 || g.remaining_rewards == 0 {
        Ok(GlobalFarm { updated_at: now, ..g })
    } else {
        let periods = now - g.updated_at;
        let rate_part = g.yield_per_period.spec_mul_floor(g.remaining_rewards);
        let per_period = if rate_part <= g.max_reward_per_period {
            rate_part
        } else {
            g.max_reward_per_period
        };
        let wanted = if per_period * periods <= u128::MAX {
            per_period * periods
        } else {
            u128::MAX as int
        };
        let reward = if wanted <= g.remaining_rewards {
            wanted
        } else {
            g.remaining_rewards as int
        };
        if reward == 0 {
            Ok(GlobalFarm { updated_at: now, ..g })
        } else {
            match mul_div_spec(reward as u128, FIXED_ONE, g.total_shares_z) {
                None => Err(Error::Arithmetic),
                Some(delta) => {
                    if g.accumulated_rpz.inner + delta > u128::MAX || g.pending_rewards + reward
                        > u128::MAX {
                        Err(Error::Arithmetic)
                    } else {
                        Ok(
                            GlobalFarm {
                                updated_at: now,
                                remaining_rewards: (g.remaining_rewards - reward) as Balance,
                                pending_rewards: (g.pending_rewards + reward) as Balance,
                                accumulated_rpz: FixedU128 {
                                    inner: (g.accumulated_rpz.inner + delta) as u128,
                                },
                                ..g
                            },
                        )
                    }
                },
            }
        }
    }
}

/// Brings a global farm's accumulator up to period `now`.
pub fn global_synced(g: &GlobalFarm, now: Period) -> (r: Result<GlobalFarm, Error>)
    requires
        g.wf(),
    ensures
        r == spec_global_synced(*g, now),
        r matches Ok(g2) ==> g2.wf() && g2.remaining_rewards + g2.pending_rewards == g.remaining_rewards
            + g.pending_rewards && g2.paid_rewards == g.paid_rewards && g2.total_rewards
            == g.total_rewards && g2.id == g.id,
{
    if now <= g.updated_at {
        return Ok(*g);
    }
    if g.total_shares_z == 0 || g.remaining_rewards == 0 {
        return Ok(GlobalFarm { updated_at: now, ..*g });
    }
    let periods: u64 = now - g.updated_at;
    let rate_part: u128 = g.yield_per_period.mul_floor(g.remaining_rewards);
    let per_period: u128 = if rate_part <= g.max_reward_per_period {
        rate_part
    } else {
        g.max_reward_per_period
    };
    let wanted: u128 = match per_period.checked_mul(periods as u128) {
        Some(v) => v,
        None => u128::MAX,
    };
    let reward: u128 = if wanted <= g.remaining_rewards {
        wanted
    } else {
        g.remaining_rewards
    };
    if reward == 0 {
        return Ok(GlobalFarm { updated_at: now, ..*g });
    }
    let delta: u128 = match crate::fixed::mul_div(reward, FIXED_ONE, g.total_shares_z) {
        Some(v) => v,
        None => {
            return Err(Error::Arithmetic);
        },
    };
    let rpz: u128 = match g.accumulated_rpz.inner.checked_add(delta) {
        Some(v) => v,
        None => {
            return Err(Error::Arithmetic);
        },
    };
    let pending: u128 = match g.pending_rewards.checked_add(reward) {
        Some(v) => v,
        None => {
            return Err(Error::Arithmetic);
        },
    };
    Ok(
        GlobalFarm {
            updated_at: now,
            remaining_rewards: g.remaining_rewards - reward,
            pending_rewards: pending,
            accumulated_rpz: FixedU128 { inner: rpz },
            ..*g
        },
    )
}

/// What a yield-farm sync at period `now` turns the pair into.
///
/// An active farm draws `(global accumulator - last seen) * stake` from the
/// global farm's pending bucket into its own pot — never more than the
/// bucket holds — and raises its local accumulator by `drawn / valued
/// shares`. Stopped and deleted farms are left untouched; they accrue
/// nothing.
pub open spec fn spec_yield_synced(g: GlobalFarm, yf: YieldFarm, now: Period) -> Result<
    (GlobalFarm, YieldFarm),
    Error,
> {
    if !yf.is_active() || now <= yf.updated_at {
        Ok((g, yf))
    } else if yf.total_valued_shares == 0 {
        Ok((g, YieldFarm { updated_at: now, accumulated_rpz: g.accumulated_rpz, ..yf }))
    } else if g.accumulated_rpz.inner < yf.accumulated_rpz.inner {
        Err(Error::Arithmetic)
    } else {
        let delta_rpz = FixedU128 {
            inner: (g.accumulated_rpz.inner - yf.accumulated_rpz.inner) as u128,
        };
        match yf.spec_stake_in_global() {
            None => Err(Error::Arithmetic),
            Some(stake) => match delta_rpz.spec_mul_int(stake) {
                None => Err(Error::Arithmetic),
                Some(claimed) => {
                    let drawn = if claimed <= g.pending_rewards {
                        claimed
                    } else {
                        g.pending_rewards
                    };
                    if yf.left_to_distribute + drawn > u128::MAX {
                        Err(Error::Arithmetic)
                    } else {
                        match mul_div_spec(drawn, FIXED_ONE, yf.total_valued_shares) {
                            None => Err(Error::Arithmetic),
                            Some(delta_rpvs) => {
                                if yf.accumulated_rpvs.inner + delta_rpvs > u128::MAX {
                                    Err(Error::Arithmetic)
                                } else {
                                    Ok(
                                        (
                                            GlobalFarm {
                                                pending_rewards: (g.pending_rewards
                                                    - drawn) as Balance,
                                                ..g
                                            },
                                            YieldFarm {
                                                updated_at: now,
                                                accumulated_rpz: g.accumulated_rpz,
                                                accumulated_rpvs: FixedU128 {
                                                    inner: (yf.accumulated_rpvs.inner
                                                        + delta_rpvs) as u128,
                                                },
                                                left_to_distribute: (yf.left_to_distribute
                                                    + drawn) as Balance,
                                                ..yf
                                            },
                                        ),
                                    )
                                }
                            },
                        }
                    }
                },
            },
        }
    }
}

/// Brings a yield farm's accumulator and pot up to period `now`.
pub fn yield_synced(g: &GlobalFarm, yf: &YieldFarm, now: Period) -> (r: Result<
    (GlobalFarm, YieldFarm),
    Error,
>)
    requires
        g.wf(),
        yf.wf(),
    ensures
        r == spec_yield_synced(*g, *yf, now),
        r matches Ok(p) ==> p.0.wf() && p.1.wf() && p.0.pending_rewards + p.1.left_to_distribute
            == g.pending_rewards + yf.left_to_distribute && p.0.remaining_rewards
            == g.remaining_rewards && p.0.paid_rewards == g.paid_rewards && p.0.total_rewards
            == g.total_rewards && p.0.id == g.id && p.1.id == yf.id && p.1.global_farm_id
            == yf.global_farm_id && p.1.state == yf.state && p.1.entries_count == yf.entries_count
            && p.1.total_shares == yf.total_shares && p.1.total_valued_shares
            == yf.total_valued_shares && p.1.multiplier == yf.multiplier && p.1.amm_pool_id
            == yf.amm_pool_id,
{
    if !matches!(yf.state, crate::types::FarmState::Active) || now <= yf.updated_at {
        return Ok((*g, *yf));
    }
    if yf.total_valued_shares == 0 {
        return Ok((*g, YieldFarm { updated_at: now, accumulated_rpz: g.accumulated_rpz, ..*yf }));
    }
    if g.accumulated_rpz.inner < yf.accumulated_rpz.inner {
        return Err(Error::Arithmetic);
    }
    let delta_rpz: FixedU128 = FixedU128 { inner: g.accumulated_rpz.inner - yf.accumulated_rpz.inner };
    let stake: u128 = match yf.stake_in_global() {
        Some(v) => v,
        None => {
            return Err(Error::Arithmetic);
        },
    };
    let claimed: u128 = match delta_rpz.checked_mul_int(stake) {
        Some(v) => v,
        None => {
            return Err(Error::Arithmetic);
        },
    };
    let drawn: u128 = if claimed <= g.pending_rewards {
        claimed
    } else {
        g.pending_rewards
    };
    let left: u128 = match yf.left_to_distribute.checked_add(drawn) {
        Some(v) => v,
        None => {
            return Err(Error::Arithmetic);
        },
    };
    let delta_rpvs: u128 = match crate::fixed::mul_div(drawn, FIXED_ONE, yf.total_valued_shares) {
        Some(v) => v,
        None => {
            return Err(Error::Arithmetic);
        },
    };
    let rpvs: u128 = match yf.accumulated_rpvs.inner.checked_add(delta_rpvs) {
        Some(v) => v,
        None => {
            return Err(Error::Arithmetic);
        },
    };
    Ok(
        (
            GlobalFarm { pending_rewards: g.pending_rewards - drawn, ..*g },
            YieldFarm {
                updated_at: now,
                accumulated_rpz: g.accumulated_rpz,
                accumulated_rpvs: FixedU128 { inner: rpvs },
                left_to_distribute: left,
                ..*yf
            },
        ),
    )
}

/// A successful global sync never leaves the farm behind the clock.
pub proof fn lemma_global_synced_advances(g: GlobalFarm, now: Period)
    ensures
        spec_global_synced(g, now) matches Ok(g2) ==> g2.updated_at >= now,
{
}

/// A successful sync never leaves an active yield farm behind the clock.
pub proof fn lemma_yield_synced_advances(g: GlobalFarm, yf: YieldFarm, now: Period)
    ensures
        spec_yield_synced(g, yf, now) matches Ok(p) ==> (yf.is_active() ==> p.1.updated_at >= now),
{
}

/// What an entry has accrued against a (synced) yield farm at period `now`.
///
/// `max_rewards` is the full accrual since entry; the loyalty multiplier
/// decides how much of it is claimable today. The entry is paid the
/// claimable part minus what earlier claims already paid; the rest of the
/// accrual stays unclaimable until withdrawal.
pub open spec fn spec_entry_rewards(entry: FarmEntry, yf: YieldFarm, now: Period) -> Result<
    (Balance, Balance),
    Error,
> {
    if yf.accumulated_rpvs.inner < entry.accumulated_rpvs.inner || now < entry.entered_at {
        Err(Error::Arithmetic)
    } else {
        let delta = FixedU128 {
            inner: (yf.accumulated_rpvs.inner - entry.accumulated_rpvs.inner) as u128,
        };
        match delta.spec_mul_int(entry.valued_shares) {
            None => Err(Error::Arithmetic),
            Some(max_rewards) => {
                let periods = (now - entry.entered_at) as u64;
                let loyalty = loyalty_multiplier_spec(periods, yf.loyalty_curve);
                let claimable = loyalty * max_rewards / (FIXED_ONE as int);
                if claimable < entry.accumulated_claimed_rewards {
                    Err(Error::Arithmetic)
                } else {
                    Ok(
                        (
                            (claimable - entry.accumulated_claimed_rewards) as Balance,
                            (max_rewards - claimable) as Balance,
                        ),
                    )
                }
            },
        }
    }
}

/// Computes what an entry can be paid now and what stays unclaimable.
/// The paid and unclaimable parts together never exceed the full accrual.
pub fn entry_rewards(entry: &FarmEntry, yf: &YieldFarm, now: Period) -> (r: Result<
    (Balance, Balance),
    Error,
>)
    requires
        yf.wf(),
    ensures
        r == spec_entry_rewards(*entry, *yf, now),
{
    if yf.accumulated_rpvs.inner < entry.accumulated_rpvs.inner || now < entry.entered_at {
        return Err(Error::Arithmetic);
    }
    let delta: FixedU128 = FixedU128 {
        inner: yf.accumulated_rpvs.inner - entry.accumulated_rpvs.inner,
    };
    let max_rewards: u128 = match delta.checked_mul_int(entry.valued_shares) {
        Some(v) => v,
        None => {
            return Err(Error::Arithmetic);
        },
    };
    let periods: u64 = now - entry.entered_at;
    let loyalty: FixedU128 = loyalty_multiplier(periods, &yf.loyalty_curve);
    proof {
        lemma_mul_div_le_factor(loyalty.inner as int, max_rewards as int, FIXED_ONE as int);
    }
    let claimable: u128 = match loyalty.checked_mul_int(max_rewards) {
        Some(v) => v,
        None => {
            proof {
                assert(false);
            }
            0
        },
    };
    let user_rewards: u128 = match claimable.checked_sub(entry.accumulated_claimed_rewards) {
        Some(v) => v,
        None => {
            return Err(Error::Arithmetic);
        },
    };
    Ok((user_rewards, max_rewards - claimable))
}

} // verus!
