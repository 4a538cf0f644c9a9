//! The farm registries and the lifecycle controller.
//!
//! `LiquidityMining` owns three arenas — global farms, yield farms and
//! deposits — and exposes one method per external call. Every method either
//! succeeds and commits a staged set of record updates, or fails and leaves
//! the whole state exactly as it was.
//!
//! The well-formedness predicate `wf` carries the conservation law: for
//! every global farm, `remaining + pending + (sum of its yield farms' pots)
//! + paid == total_rewards`. Reward only ever moves between those buckets,
//! so nothing is minted and nothing is lost.

use vstd::prelude::*;

verus! {

use crate::types::AccountId;
use crate::types::Balance;
use crate::types::DepositId;
use crate::types::FarmId;
use crate::types::GlobalFarm;
use crate::types::Period;
use crate::types::PoolId;
use crate::types::YieldFarm;
use crate::types::Deposit;
use crate::types::FarmEntry;
use crate::types::Error;
use crate::types::Origin;
use crate::types::AmmPoolInfo;
use crate::types::AssetId;
use crate::types::BlockNumber;
use crate::types::FarmState;
use crate::types::WithdrawOutcome;
use crate::fixed::FixedU128;
use crate::fixed::Perquintill;
use crate::loyalty::LoyaltyCurve;
use crate::accrual::spec_global_synced;
use crate::accrual::spec_yield_synced;
use crate::accrual::spec_entry_rewards;
use crate::accrual::global_synced;
use crate::accrual::yield_synced;
use crate::accrual::entry_rewards;

/// Sum of the `left_to_distribute` pots of the yield farms belonging to the
/// global farm `gid`.
pub open spec fn left_sum(yfs: Seq<YieldFarm>, gid: FarmId) -> int
    decreases yfs.len(),
{
    if yfs.len() == 0 {
        0
    } else {
        yf_contrib(yfs[0], gid) + left_sum(yfs.drop_first(), gid)
    }
}

/// What one yield farm record contributes to its global farm's books.
pub open spec fn yf_contrib(yf: YieldFarm, gid: FarmId) -> int {
    if yf.global_farm_id == gid {
        yf.left_to_distribute as int
    } else {
        0
    }
}

/// How many yield farm records belong to the global farm `gid`.
pub open spec fn count_yfs(yfs: Seq<YieldFarm>, gid: FarmId) -> int
    decreases yfs.len(),
{
    if yfs.len() == 0 {
        0
    } else {
        (if yfs[0].global_farm_id == gid {
            1int
        } else {
            0int
        }) + count_yfs(yfs.drop_first(), gid)
    }
}

/// The books of one global farm balance: its budget sits in exactly four
/// buckets.
pub open spec fn farm_balanced(g: GlobalFarm, yfs: Seq<YieldFarm>) -> bool {
    g.remaining_rewards + g.pending_rewards + left_sum(yfs, g.id) + g.paid_rewards
        == g.total_rewards
}

pub proof fn lemma_left_sum_nonneg(yfs: Seq<YieldFarm>, gid: FarmId)
    ensures
        left_sum(yfs, gid) >= 0,
        count_yfs(yfs, gid) >= 0,
    decreases yfs.len(),
{
    if yfs.len() > 0 {
        lemma_left_sum_nonneg(yfs.drop_first(), gid);
    }
}

/// A farm with no yield farms on the books has an empty pot sum.
pub proof fn lemma_left_sum_empty(yfs: Seq<YieldFarm>, gid: FarmId)
    requires
        count_yfs(yfs, gid) == 0,
    ensures
        left_sum(yfs, gid) == 0,
    decreases yfs.len(),
{
    if yfs.len() > 0 {
        lemma_left_sum_nonneg(yfs.drop_first(), gid);
        lemma_left_sum_empty(yfs.drop_first(), gid);
    }
}

/// No record matches a never-issued farm id.
pub proof fn lemma_count_zero_when_unmatched(yfs: Seq<YieldFarm>, gid: FarmId)
    requires
        forall|i: int| 0 <= i < yfs.len() ==> yfs[i].global_farm_id != gid,
    ensures
        count_yfs(yfs, gid) == 0,
    decreases yfs.len(),
{
    if yfs.len() > 0 {
        assert(forall|i: int|
            0 <= i < yfs.drop_first().len() ==> yfs.drop_first()[i] == yfs[i + 1]);
        lemma_count_zero_when_unmatched(yfs.drop_first(), gid);
    }
}

/// Replacing one record changes the sums by the difference of its
/// contributions, for every global farm id at once.
pub proof fn lemma_sums_update(yfs: Seq<YieldFarm>, i: int, yf2: YieldFarm, gid: FarmId)
    requires
        0 <= i < yfs.len(),
    ensures
        left_sum(yfs.update(i, yf2), gid) == left_sum(yfs, gid) - yf_contrib(yfs[i], gid)
            + yf_contrib(yf2, gid),
        count_yfs(yfs.update(i, yf2), gid) == count_yfs(yfs, gid) - (
        if yfs[i].global_farm_id == gid {
            1int
        } else {
            0int
        }) + (if yf2.global_farm_id == gid {
            1int
        } else {
            0int
        }),
    decreases yfs.len(),
{
    let upd = yfs.update(i, yf2);
    assert(upd.len() == yfs.len());
    if i == 0 {
        assert(upd.drop_first() =~= yfs.drop_first());
    } else {
        assert(upd[0] == yfs[0]);
        assert(upd.drop_first() =~= yfs.drop_first().update(i - 1, yf2));
        lemma_sums_update(yfs.drop_first(), i - 1, yf2, gid);
    }
}

/// Appending a record adds its contribution to the sums.
pub proof fn lemma_sums_push(yfs: Seq<YieldFarm>, yf: YieldFarm, gid: FarmId)
    ensures
        left_sum(yfs.push(yf), gid) == left_sum(yfs, gid) + yf_contrib(yf, gid),
        count_yfs(yfs.push(yf), gid) == count_yfs(yfs, gid) + (
        if yf.global_farm_id == gid {
            1int
        } else {
            0int
        }),
    decreases yfs.len(),
{
    let p = yfs.push(yf);
    assert(p.len() == yfs.len() + 1);
    assert(left_sum(p, gid) == yf_contrib(p[0], gid) + left_sum(p.drop_first(), gid));
    assert(count_yfs(p, gid) == (if p[0].global_farm_id == gid {
        1int
    } else {
        0int
    }) + count_yfs(p.drop_first(), gid));
    if yfs.len() == 0 {
        assert(p[0] == yf);
        assert(p.drop_first() =~= Seq::<YieldFarm>::empty());
        assert(left_sum(p.drop_first(), gid) == 0);
        assert(count_yfs(p.drop_first(), gid) == 0);
        assert(left_sum(yfs, gid) == 0);
        assert(count_yfs(yfs, gid) == 0);
    } else {
        assert(p[0] == yfs[0]);
        assert(p.drop_first() =~= yfs.drop_first().push(yf));
        lemma_sums_push(yfs.drop_first(), yf, gid);
        assert(left_sum(yfs, gid) == yf_contrib(yfs[0], gid) + left_sum(yfs.drop_first(), gid));
        assert(count_yfs(yfs, gid) == (if yfs[0].global_farm_id == gid {
            1int
        } else {
            0int
        }) + count_yfs(yfs.drop_first(), gid));
    }
}

/// Removing a record subtracts its contribution from the sums.
pub proof fn lemma_sums_remove(yfs: Seq<YieldFarm>, i: int, gid: FarmId)
    requires
        0 <= i < yfs.len(),
    ensures
        left_sum(yfs.remove(i), gid) == left_sum(yfs, gid) - yf_contrib(yfs[i], gid),
        count_yfs(yfs.remove(i), gid) == count_yfs(yfs, gid) - (
        if yfs[i].global_farm_id == gid {
            1int
        } else {
            0int
        }),
    decreases yfs.len(),
{
    let rm = yfs.remove(i);
    if i == 0 {
        assert(rm =~= yfs.drop_first());
    } else {
        assert(rm[0] == yfs[0]);
        assert(rm.drop_first() =~= yfs.drop_first().remove(i - 1));
        lemma_sums_remove(yfs.drop_first(), i - 1, gid);
    }
}

/// One record's pot never exceeds the sum over its global farm, and a farm
/// with a record on the books counts at least that record.
pub proof fn lemma_left_sum_at_least(yfs: Seq<YieldFarm>, gid: FarmId, i: int)
    requires
        0 <= i < yfs.len(),
    ensures
        left_sum(yfs, gid) >= yf_contrib(yfs[i], gid),
        count_yfs(yfs, gid) >= (if yfs[i].global_farm_id == gid {
            1int
        } else {
            0int
        }),
    decreases yfs.len(),
{
    lemma_left_sum_nonneg(yfs.drop_first(), gid);
    if i > 0 {
        lemma_left_sum_at_least(yfs.drop_first(), gid, i - 1);
    }
}

/// Replacing one global farm record and one of its yield farm records keeps
/// the engine well-formed, as long as the pair's ids stay put, deletion is
/// never undone, and the move only shifts budget between the pair's buckets.
pub proof fn lemma_wf_pair_update(
    pre: LiquidityMining,
    post: LiquidityMining,
    gi: int,
    yi: int,
    g2: GlobalFarm,
    yf2: YieldFarm,
)
    requires
        pre.wf(),
        0 <= gi < pre.global_farms@.len(),
        0 <= yi < pre.yield_farms@.len(),
        pre.global_farms@[gi].id == pre.yield_farms@[yi].global_farm_id,
        g2.id == pre.global_farms@[gi].id,
        g2.wf(),
        g2.total_rewards == pre.global_farms@[gi].total_rewards,
        g2.total_yield_farms_count == pre.global_farms@[gi].total_yield_farms_count,
        yf2.id == pre.yield_farms@[yi].id,
        yf2.global_farm_id == pre.yield_farms@[yi].global_farm_id,
        yf2.amm_pool_id == pre.yield_farms@[yi].amm_pool_id,
        yf2.wf(),
        pre.yield_farms@[yi].is_deleted() ==> yf2.is_deleted(),
        g2.remaining_rewards + g2.pending_rewards + yf2.left_to_distribute + g2.paid_rewards
            == pre.global_farms@[gi].remaining_rewards + pre.global_farms@[gi].pending_rewards
            + pre.yield_farms@[yi].left_to_distribute + pre.global_farms@[gi].paid_rewards,
        post.global_farms@ == pre.global_farms@.update(gi, g2),
        post.yield_farms@ == pre.yield_farms@.update(yi, yf2),
        post.deposits@ == pre.deposits@,
        post.farm_id_sequencer == pre.farm_id_sequencer,
        post.deposit_id_sequencer == pre.deposit_id_sequencer,
        post.max_entries_per_deposit == pre.max_entries_per_deposit,
    ensures
        post.wf(),
{
    let gs = pre.global_farms@;
    let ys = pre.yield_farms@;
    let gid = gs[gi].id;
    assert forall|k: int| 0 <= k < gs.len() implies farm_balanced(
        #[trigger] post.global_farms@[k],
        post.yield_farms@,
    ) && post.global_farms@[k].total_yield_farms_count == count_yfs(
        post.yield_farms@,
        post.global_farms@[k].id,
    ) by {
        lemma_sums_update(ys, yi, yf2, gs[k].id);
        if k != gi {
            assert(gs[k].id != gid);
            assert(yf_contrib(ys[yi], gs[k].id) == 0);
            assert(yf_contrib(yf2, gs[k].id) == 0);
            assert(post.global_farms@[k] == gs[k]);
        } else {
            assert(post.global_farms@[k] == g2);
        }
    }
}

/// Valued shares one deposit stakes in the yield farm `yid`.
pub open spec fn entry_valued_sum(es: Seq<FarmEntry>, yid: FarmId) -> int
    decreases es.len(),
{
    if es.len() == 0 {
        0
    } else {
        entry_contrib(es[0], yid) + entry_valued_sum(es.drop_first(), yid)
    }
}

/// What one farm entry contributes to its yield farm's share total.
pub open spec fn entry_contrib(e: FarmEntry, yid: FarmId) -> int {
    if e.yield_farm_id == yid {
        e.valued_shares as int
    } else {
        0
    }
}

/// How many of one deposit's entries are staked in the yield farm `yid`.
pub open spec fn entry_count_sum(es: Seq<FarmEntry>, yid: FarmId) -> int
    decreases es.len(),
{
    if es.len() == 0 {
        0
    } else {
        (if es[0].yield_farm_id == yid {
            1int
        } else {
            0int
        }) + entry_count_sum(es.drop_first(), yid)
    }
}

/// How many open entries across all deposits are staked in `yid`.
pub open spec fn deposit_count_sum(ds: Seq<Deposit>, yid: FarmId) -> int
    decreases ds.len(),
{
    if ds.len() == 0 {
        0
    } else {
        entry_count_sum(ds[0].entries@, yid) + deposit_count_sum(ds.drop_first(), yid)
    }
}

/// What one farm entry adds to its yield farm's entry count.
pub open spec fn entry_count_contrib(e: FarmEntry, yid: FarmId) -> int {
    if e.yield_farm_id == yid {
        1int
    } else {
        0int
    }
}

/// Valued shares all deposits together stake in the yield farm `yid`.
pub open spec fn valued_sum(ds: Seq<Deposit>, yid: FarmId) -> int
    decreases ds.len(),
{
    if ds.len() == 0 {
        0
    } else {
        entry_valued_sum(ds[0].entries@, yid) + valued_sum(ds.drop_first(), yid)
    }
}

pub proof fn lemma_entry_valued_sum_nonneg(es: Seq<FarmEntry>, yid: FarmId)
    ensures
        entry_valued_sum(es, yid) >= 0,
    decreases es.len(),
{
    if es.len() > 0 {
        lemma_entry_valued_sum_nonneg(es.drop_first(), yid);
    }
}

/// No entry of any deposit stakes in a farm none of them references.
pub proof fn lemma_entry_valued_sum_unmatched(es: Seq<FarmEntry>, yid: FarmId)
    requires
        forall|k: int| 0 <= k < es.len() ==> es[k].yield_farm_id != yid,
    ensures
        entry_valued_sum(es, yid) == 0,
        entry_count_sum(es, yid) == 0,
    decreases es.len(),
{
    if es.len() > 0 {
        assert(forall|k: int| 0 <= k < es.drop_first().len() ==> es.drop_first()[k] == es[k + 1]);
        lemma_entry_valued_sum_unmatched(es.drop_first(), yid);
    }
}

/// Replacing, appending or dropping one entry moves the per-farm sum by
/// that entry's contribution.
pub proof fn lemma_entry_valued_sum_update(es: Seq<FarmEntry>, i: int, e2: FarmEntry, yid: FarmId)
    requires
        0 <= i < es.len(),
    ensures
        entry_valued_sum(es.update(i, e2), yid) == entry_valued_sum(es, yid) - entry_contrib(
            es[i],
            yid,
        ) + entry_contrib(e2, yid),
        entry_count_sum(es.update(i, e2), yid) == entry_count_sum(es, yid) - entry_count_contrib(
            es[i],
            yid,
        ) + entry_count_contrib(e2, yid),
    decreases es.len(),
{
    let upd = es.update(i, e2);
    if i == 0 {
        assert(upd.drop_first() =~= es.drop_first());
    } else {
        assert(upd[0] == es[0]);
        assert(upd.drop_first() =~= es.drop_first().update(i - 1, e2));
        lemma_entry_valued_sum_update(es.drop_first(), i - 1, e2, yid);
    }
}

pub proof fn lemma_entry_valued_sum_push(es: Seq<FarmEntry>, e: FarmEntry, yid: FarmId)
    ensures
        entry_valued_sum(es.push(e), yid) == entry_valued_sum(es, yid) + entry_contrib(e, yid),
        entry_count_sum(es.push(e), yid) == entry_count_sum(es, yid) + entry_count_contrib(e, yid),
    decreases es.len(),
{
    let p = es.push(e);
    assert(p.len() == es.len() + 1);
    assert(entry_valued_sum(p, yid) == entry_contrib(p[0], yid) + entry_valued_sum(
        p.drop_first(),
        yid,
    ));
    assert(entry_count_sum(p, yid) == entry_count_contrib(p[0], yid) + entry_count_sum(
        p.drop_first(),
        yid,
    ));
    if es.len() == 0 {
        assert(p[0] == e);
        assert(p.drop_first() =~= Seq::<FarmEntry>::empty());
    } else {
        assert(p[0] == es[0]);
        assert(p.drop_first() =~= es.drop_first().push(e));
        lemma_entry_valued_sum_push(es.drop_first(), e, yid);
    }
}

pub proof fn lemma_entry_valued_sum_remove(es: Seq<FarmEntry>, i: int, yid: FarmId)
    requires
        0 <= i < es.len(),
    ensures
        entry_valued_sum(es.remove(i), yid) == entry_valued_sum(es, yid) - entry_contrib(
            es[i],
            yid,
        ),
        entry_count_sum(es.remove(i), yid) == entry_count_sum(es, yid) - entry_count_contrib(
            es[i],
            yid,
        ),
    decreases es.len(),
{
    let rm = es.remove(i);
    if i == 0 {
        assert(rm =~= es.drop_first());
    } else {
        assert(rm[0] == es[0]);
        assert(rm.drop_first() =~= es.drop_first().remove(i - 1));
        lemma_entry_valued_sum_remove(es.drop_first(), i - 1, yid);
    }
}

/// Changing one deposit's entries moves the per-farm sum by the difference
/// of the deposit's own sums.
pub proof fn lemma_valued_sum_update(ds: Seq<Deposit>, i: int, d2: Deposit, yid: FarmId)
    requires
        0 <= i < ds.len(),
    ensures
        valued_sum(ds.update(i, d2), yid) == valued_sum(ds, yid) - entry_valued_sum(
            ds[i].entries@,
            yid,
        ) + entry_valued_sum(d2.entries@, yid),
        deposit_count_sum(ds.update(i, d2), yid) == deposit_count_sum(ds, yid) - entry_count_sum(
            ds[i].entries@,
            yid,
        ) + entry_count_sum(d2.entries@, yid),
    decreases ds.len(),
{
    let upd = ds.update(i, d2);
    if i == 0 {
        assert(upd.drop_first() =~= ds.drop_first());
    } else {
        assert(upd[0] == ds[0]);
        assert(upd.drop_first() =~= ds.drop_first().update(i - 1, d2));
        lemma_valued_sum_update(ds.drop_first(), i - 1, d2, yid);
    }
}

pub proof fn lemma_valued_sum_push(ds: Seq<Deposit>, d: Deposit, yid: FarmId)
    ensures
        valued_sum(ds.push(d), yid) == valued_sum(ds, yid) + entry_valued_sum(d.entries@, yid),
        deposit_count_sum(ds.push(d), yid) == deposit_count_sum(ds, yid) + entry_count_sum(
            d.entries@,
            yid,
        ),
    decreases ds.len(),
{
    let p = ds.push(d);
    assert(p.len() == ds.len() + 1);
    assert(valued_sum(p, yid) == entry_valued_sum(p[0].entries@, yid) + valued_sum(
        p.drop_first(),
        yid,
    ));
    assert(deposit_count_sum(p, yid) == entry_count_sum(p[0].entries@, yid) + deposit_count_sum(
        p.drop_first(),
        yid,
    ));
    if ds.len() == 0 {
        assert(p[0] == d);
        assert(p.drop_first() =~= Seq::<Deposit>::empty());
    } else {
        assert(p[0] == ds[0]);
        assert(p.drop_first() =~= ds.drop_first().push(d));
        lemma_valued_sum_push(ds.drop_first(), d, yid);
    }
}

pub proof fn lemma_valued_sum_remove(ds: Seq<Deposit>, i: int, yid: FarmId)
    requires
        0 <= i < ds.len(),
    ensures
        valued_sum(ds.remove(i), yid) == valued_sum(ds, yid) - entry_valued_sum(
            ds[i].entries@,
            yid,
        ),
        deposit_count_sum(ds.remove(i), yid) == deposit_count_sum(ds, yid) - entry_count_sum(
            ds[i].entries@,
            yid,
        ),
    decreases ds.len(),
{
    let rm = ds.remove(i);
    if i == 0 {
        assert(rm =~= ds.drop_first());
    } else {
        assert(rm[0] == ds[0]);
        assert(rm.drop_first() =~= ds.drop_first().remove(i - 1));
        lemma_valued_sum_remove(ds.drop_first(), i - 1, yid);
    }
}

/// No deposit stakes anything in a farm whose id was never issued.
pub proof fn lemma_valued_sum_unmatched(ds: Seq<Deposit>, yid: FarmId)
    requires
        forall|i: int, k: int|
            0 <= i < ds.len() && 0 <= k < (#[trigger] ds[i]).entries@.len() ==> (
            #[trigger] ds[i].entries@[k]).yield_farm_id != yid,
    ensures
        valued_sum(ds, yid) == 0,
        deposit_count_sum(ds, yid) == 0,
    decreases ds.len(),
{
    if ds.len() > 0 {
        lemma_entry_valued_sum_unmatched(ds[0].entries@, yid);
        assert(forall|i: int| 0 <= i < ds.drop_first().len() ==> ds.drop_first()[i] == ds[i + 1]);
        lemma_valued_sum_unmatched(ds.drop_first(), yid);
    }
}

/// Conservation of rewards. Every operation requires and preserves `wf`, so
/// in any reachable engine state each global farm's planned budget is
/// exactly accounted for: what is still undistributed, what the accumulator
/// has emitted but no yield farm has drawn, what sits in its yield farms'
/// pots, and what was paid to users add up to `total_rewards`. In
/// particular, rewards paid out plus rewards still held never exceed the
/// budget: nothing is minted, and truncation remainders stay in the earlier
/// buckets instead of vanishing.
pub proof fn lemma_conservation(lm: LiquidityMining, gi: int)
    requires
        lm.wf(),
        0 <= gi < lm.global_farms@.len(),
    ensures
        ({
            let g = lm.global_farms@[gi];
            &&& g.remaining_rewards + g.pending_rewards + left_sum(lm.yield_farms@, g.id)
                + g.paid_rewards == g.total_rewards
            &&& left_sum(lm.yield_farms@, g.id) >= 0
            &&& g.paid_rewards + g.remaining_rewards + g.pending_rewards <= g.total_rewards
        }),
{
    lemma_left_sum_nonneg(lm.yield_farms@, lm.global_farms@[gi].id);
}

/// Idempotence of stop. If a stop succeeded, and `post` is the state the
/// call's contract describes, then stopping the same yield farm again —
/// whatever block the second call arrives in — is rejected with the
/// lifecycle error. `stop_yield_farm`'s contract then guarantees the failed
/// second call leaves the engine unchanged.
pub proof fn lemma_stop_idempotent(
    pre: LiquidityMining,
    post: LiquidityMining,
    origin: Origin,
    global_farm_id: FarmId,
    amm_pool_id: PoolId,
    block1: BlockNumber,
    block2: BlockNumber,
)
    requires
        pre.wf(),
        post.wf(),
        pre.spec_stop_yield_farm(origin, global_farm_id, amm_pool_id, block1) matches Ok(v) && ({
            let (gi, yi, g4, yf3) = v;
            &&& post.global_farms@ == pre.global_farms@.update(gi, g4)
            &&& post.yield_farms@ == pre.yield_farms@.update(yi, yf3)
        }),
    ensures
        post.spec_stop_yield_farm(origin, global_farm_id, amm_pool_id, block2) == Err::<
            (int, int, GlobalFarm, YieldFarm),
            Error,
        >(Error::LiquidityMiningIsNotActive),
{
    let who = origin->Signed_0;
    let (gi, yi, g4, yf3) = pre.spec_stop_yield_farm(origin, global_farm_id, amm_pool_id, block1)->Ok_0;
    let gs0 = pre.global_farms@;
    let ys0 = pre.yield_farms@;
    let gs1 = post.global_farms@;
    let ys1 = post.yield_farms@;
    assert(0 <= gi < gs0.len() && gs0[gi].id == global_farm_id);
    assert(0 <= yi < ys0.len() && live_pool_match(ys0[yi], global_farm_id, amm_pool_id));
    assert(g4.id == global_farm_id && g4.owner == gs0[gi].owner);
    assert(yf3.is_stopped() && yf3.global_farm_id == global_farm_id && yf3.amm_pool_id
        == amm_pool_id);
    assert(gs1[gi].id == global_farm_id);
    assert(live_pool_match(ys1[yi], global_farm_id, amm_pool_id));
    let gic = choose|i: int| 0 <= i < gs1.len() && gs1[i].id == global_farm_id;
    assert(gic == gi);
    let yic = choose|j: int|
        0 <= j < ys1.len() && live_pool_match(ys1[j], global_farm_id, amm_pool_id);
    assert(yic == yi);
    assert(gs0[gi].owner == who);
    assert(!ys1[yi].is_active());
}

/// The double-claim guard. If a claim succeeded, and `post` is the state the
/// call's contract describes, then a second claim on the same entry in the
/// same period is rejected with the double-claim error; `claim_rewards`'s
/// contract then guarantees the failed second call leaves the engine
/// unchanged. Only the turn of the period unlocks the next claim.
pub proof fn lemma_double_claim_guard(
    pre: LiquidityMining,
    post: LiquidityMining,
    origin: Origin,
    deposit_id: DepositId,
    yield_farm_id: FarmId,
    block1: BlockNumber,
    block2: BlockNumber,
)
    requires
        pre.wf(),
        post.wf(),
        pre.spec_claim_rewards(origin, deposit_id, yield_farm_id, block1) matches Ok(v) && ({
            let (gi, yi, di, ei, g4, yf3, e2, user, uncl) = v;
            &&& post.global_farms@ == pre.global_farms@.update(gi, g4)
            &&& post.yield_farms@ == pre.yield_farms@.update(yi, yf3)
            &&& post.deposits@.len() == pre.deposits@.len()
            &&& (forall|k: int|
                0 <= k < pre.deposits@.len() && k != di ==> post.deposits@[k] == pre.deposits@[k])
            &&& post.deposits@[di].id == pre.deposits@[di].id
            &&& post.deposits@[di].owner == pre.deposits@[di].owner
            &&& post.deposits@[di].entries@ == pre.deposits@[di].entries@.update(ei, e2)
            // the second call falls in the same period
            &&& g4.spec_period_of(block2) == g4.spec_period_of(block1)
        }),
    ensures
        post.spec_claim_rewards(origin, deposit_id, yield_farm_id, block2) == Err::<
            (int, int, int, int, GlobalFarm, YieldFarm, FarmEntry, Balance, Balance),
            Error,
        >(Error::DoubleClaim),
{
    let who = origin->Signed_0;
    let (gi, yi, di, ei, g4, yf3, e2, user, uncl) = pre.spec_claim_rewards(
        origin,
        deposit_id,
        yield_farm_id,
        block1,
    )->Ok_0;
    let ds0 = pre.deposits@;
    let ds1 = post.deposits@;
    let ys1 = post.yield_farms@;
    let gs1 = post.global_farms@;
    assert(0 <= di < ds0.len() && ds0[di].id == deposit_id);
    assert(ds1[di].id == deposit_id);
    let dic = choose|i: int| 0 <= i < ds1.len() && ds1[i].id == deposit_id;
    assert(dic == di);
    assert(0 <= ei < ds0[di].entries@.len() && ds0[di].entries@[ei].yield_farm_id
        == yield_farm_id);
    assert(ds1[di].entries@[ei] == e2 && e2.yield_farm_id == yield_farm_id);
    let eic = choose|k: int|
        0 <= k < ds1[di].entries@.len() && ds1[di].entries@[k].yield_farm_id == yield_farm_id;
    assert(eic == ei);
    assert(0 <= yi < pre.yield_farms@.len() && pre.yield_farms@[yi].id == yield_farm_id);
    assert(yf3.id == yield_farm_id);
    assert(ys1[yi] == yf3);
    let yic = choose|j: int| 0 <= j < ys1.len() && ys1[j].id == yield_farm_id;
    assert(yic == yi);
    assert(0 <= gi < pre.global_farms@.len() && pre.global_farms@[gi].id
        == pre.yield_farms@[yi].global_farm_id);
    assert(yf3.global_farm_id == pre.yield_farms@[yi].global_farm_id);
    assert(g4.id == yf3.global_farm_id);
    assert(gs1[gi] == g4);
    let gic = choose|i: int| 0 <= i < gs1.len() && gs1[i].id == yf3.global_farm_id;
    assert(gic == gi);
    assert(yf3.is_active());
    assert(e2.updated_at == g4.spec_period_of(block1));
}

/// The other face of the double-claim guard: withdrawing in the same period
/// as a successful claim pays no reward a second time. The withdrawal itself
/// cannot fail on a double claim — it settles with the non-failing variant —
/// but what it settles is zero.
pub proof fn lemma_withdraw_after_claim_pays_zero(
    pre: LiquidityMining,
    post: LiquidityMining,
    origin: Origin,
    deposit_id: DepositId,
    yield_farm_id: FarmId,
    amm_pool_exists: bool,
    block1: BlockNumber,
    block2: BlockNumber,
)
    requires
        pre.wf(),
        post.wf(),
        pre.spec_claim_rewards(origin, deposit_id, yield_farm_id, block1) matches Ok(v) && ({
            let (gi, yi, di, ei, g4, yf3, e2, user, uncl) = v;
            &&& post.global_farms@ == pre.global_farms@.update(gi, g4)
            &&& post.yield_farms@ == pre.yield_farms@.update(yi, yf3)
            &&& post.deposits@.len() == pre.deposits@.len()
            &&& (forall|k: int|
                0 <= k < pre.deposits@.len() && k != di ==> post.deposits@[k] == pre.deposits@[k])
            &&& post.deposits@[di].id == pre.deposits@[di].id
            &&& post.deposits@[di].owner == pre.deposits@[di].owner
            &&& post.deposits@[di].shares == pre.deposits@[di].shares
            &&& post.deposits@[di].amm_pool_id == pre.deposits@[di].amm_pool_id
            &&& post.deposits@[di].entries@ == pre.deposits@[di].entries@.update(ei, e2)
            &&& g4.spec_period_of(block2) == g4.spec_period_of(block1)
        }),
    ensures
        post.spec_withdraw_shares(origin, deposit_id, yield_farm_id, amm_pool_exists, block2)
            matches Ok(w) ==> w.6.claimed == 0,
{
    let who = origin->Signed_0;
    let (gi, yi, di, ei, g4, yf3, e2, user, uncl) = pre.spec_claim_rewards(
        origin,
        deposit_id,
        yield_farm_id,
        block1,
    )->Ok_0;
    let ds0 = pre.deposits@;
    let ds1 = post.deposits@;
    let ys1 = post.yield_farms@;
    let gs1 = post.global_farms@;
    // The second call finds the very records the claim left behind.
    assert(0 <= di < ds0.len() && ds0[di].id == deposit_id);
    assert(ds1[di].id == deposit_id);
    let dic = choose|i: int| 0 <= i < ds1.len() && ds1[i].id == deposit_id;
    assert(dic == di);
    assert(0 <= ei < ds0[di].entries@.len());
    assert(ds1[di].entries@[ei] == e2 && e2.yield_farm_id == yield_farm_id);
    let eic = choose|k: int|
        0 <= k < ds1[di].entries@.len() && ds1[di].entries@[k].yield_farm_id == yield_farm_id;
    assert(eic == ei);
    assert(0 <= yi < pre.yield_farms@.len() && pre.yield_farms@[yi].id == yield_farm_id);
    assert(ys1[yi] == yf3 && yf3.id == yield_farm_id);
    let yic = choose|j: int| 0 <= j < ys1.len() && ys1[j].id == yield_farm_id;
    assert(yic == yi);
    assert(0 <= gi < pre.global_farms@.len() && pre.global_farms@[gi].id
        == pre.yield_farms@[yi].global_farm_id);
    assert(yf3.global_farm_id == pre.yield_farms@[yi].global_farm_id);
    assert(gs1[gi] == g4 && g4.id == yf3.global_farm_id);
    let gic = choose|i: int| 0 <= i < gs1.len() && gs1[i].id == yf3.global_farm_id;
    assert(gic == gi);
    // The claim left both accumulators already at the current period, so the
    // withdrawal's settlement syncs nothing.
    let g = pre.global_farms@[gi];
    let yf = pre.yield_farms@[yi];
    let e = ds0[di].entries@[ei];
    let period1 = g.spec_period_of(block1);
    let period2 = g4.spec_period_of(block2);
    assert(g4.blocks_per_period == g.blocks_per_period);
    assert(period2 == period1);
    crate::accrual::lemma_global_synced_advances(g, period1);
    crate::accrual::lemma_yield_synced_advances(
        spec_global_synced(g, period1)->Ok_0,
        yf,
        period1,
    );
    assert(g4.updated_at >= period2);
    assert(yf3.updated_at >= period2);
    assert(spec_global_synced(g4, period2) == Ok::<GlobalFarm, Error>(g4));
    assert(spec_yield_synced(g4, yf3, period2) == Ok::<(GlobalFarm, YieldFarm), Error>((g4, yf3)));
    // Same accumulators, same loyalty, so the claimable amount is what the
    // claim already paid: nothing is owed.
    let yf2 = spec_yield_synced(spec_global_synced(g, period1)->Ok_0, yf, period1)->Ok_0.1;
    assert(yf3.accumulated_rpvs == yf2.accumulated_rpvs && yf3.loyalty_curve == yf2.loyalty_curve);
    assert(e2.accumulated_rpvs == e.accumulated_rpvs && e2.valued_shares == e.valued_shares
        && e2.entered_at == e.entered_at);
    assert(spec_entry_rewards(e, yf2, period1) == Ok::<(Balance, Balance), Error>((user, uncl)));
    let d = FixedU128 { inner: (yf3.accumulated_rpvs.inner - e.accumulated_rpvs.inner) as u128 };
    let max1 = d.spec_mul_int(e.valued_shares)->Some_0;
    let loyal = crate::loyalty::loyalty_multiplier_spec(
        ((period1 - e.entered_at) as u64),
        yf3.loyalty_curve,
    );
    assert(yf3.wf());
    crate::loyalty::lemma_loyalty_bounds_for(((period1 - e.entered_at) as u64), yf3.loyalty_curve);
    crate::fixed::lemma_mul_div_le_factor(loyal, max1 as int, crate::fixed::FIXED_ONE as int);
    assert(user == loyal * max1 / (crate::fixed::FIXED_ONE as int)
        - e.accumulated_claimed_rewards);
    assert(e2.accumulated_claimed_rewards == e.accumulated_claimed_rewards + user);
    match spec_entry_rewards(e2, yf3, period2) {
        Err(_) => {},
        Ok((user2, uncl2)) => {
            assert(user2 == loyal * max1 / (crate::fixed::FIXED_ONE as int)
                - e2.accumulated_claimed_rewards);
            assert(user2 == 0);
        },
    }
}

/// Dropping a whole deposit, or one entry out of a deposit, keeps the engine
/// well-formed: both only shrink what the uniqueness clauses range over.
pub proof fn lemma_wf_deposits_shrink(
    mid: LiquidityMining,
    post: LiquidityMining,
    di: int,
    ei: int,
    destroyed: bool,
)
    requires
        mid.wf(),
        0 <= di < mid.deposits@.len(),
        destroyed ==> post.deposits@ == mid.deposits@.remove(di),
        !destroyed ==> 0 <= ei < mid.deposits@[di].entries@.len() && post.deposits@.len()
            == mid.deposits@.len() && (forall|k: int|
            0 <= k < mid.deposits@.len() && k != di ==> post.deposits@[k] == mid.deposits@[k])
            && post.deposits@[di].id == mid.deposits@[di].id && post.deposits@[di].entries@
            == mid.deposits@[di].entries@.remove(ei),
        post.global_farms@ == mid.global_farms@,
        post.yield_farms@ == mid.yield_farms@,
        post.farm_id_sequencer == mid.farm_id_sequencer,
        post.deposit_id_sequencer == mid.deposit_id_sequencer,
        post.max_entries_per_deposit == mid.max_entries_per_deposit,
    ensures
        post.wf(),
{
    let ds = mid.deposits@;
    if destroyed {
        let rm = post.deposits@;
        assert forall|i: int, j: int| 0 <= i < j < rm.len() implies (#[trigger] rm[i]).id != (
        #[trigger] rm[j]).id by {
            let i0 = if i < di {
                i
            } else {
                i + 1
            };
            let j0 = if j < di {
                j
            } else {
                j + 1
            };
            assert(rm[i] == ds[i0] && rm[j] == ds[j0]);
        }
        assert forall|i: int| 0 <= i < rm.len() implies (#[trigger] rm[i]).id
            <= post.deposit_id_sequencer by {
            let i0 = if i < di {
                i
            } else {
                i + 1
            };
            assert(rm[i] == ds[i0]);
        }
        assert forall|i: int, a: int, b: int|
            0 <= i < rm.len() && 0 <= a < b < (#[trigger] rm[i]).entries@.len() implies (
        #[trigger] rm[i].entries@[a]).yield_farm_id != (#[trigger] rm[i].entries@[b]).yield_farm_id by {
            let i0 = if i < di {
                i
            } else {
                i + 1
            };
            assert(rm[i] == ds[i0]);
        }
    } else {
        let es = ds[di].entries@;
        let rm = post.deposits@[di].entries@;
        assert forall|a: int, b: int| 0 <= a < b < rm.len() implies (
        #[trigger] rm[a]).yield_farm_id != (#[trigger] rm[b]).yield_farm_id by {
            let a0 = if a < ei {
                a
            } else {
                a + 1
            };
            let b0 = if b < ei {
                b
            } else {
                b + 1
            };
            assert(rm[a] == es[a0] && rm[b] == es[b0]);
        }
    }
}

/// The whole engine: configuration plus the three record arenas.
pub struct LiquidityMining {
    pub global_farms: Vec<GlobalFarm>,
    pub yield_farms: Vec<YieldFarm>,
    pub deposits: Vec<Deposit>,
    /// Last id issued to a farm; global and yield farms share the sequence.
    pub farm_id_sequencer: FarmId,
    /// Last id issued to a deposit.
    pub deposit_id_sequencer: DepositId,
    /// How many farm entries one deposit may hold; at least one.
    pub max_entries_per_deposit: u32,
    /// Smallest budget a global farm may be created with.
    pub min_total_farm_rewards: Balance,
    /// Smallest planned period count a global farm may be created with.
    pub min_planned_yielding_periods: Period,
}

impl LiquidityMining {
    /// Structural soundness of the whole engine; every public call both
    /// requires and preserves it. It carries uniqueness of all ids, the
    /// census of yield farms per global farm, and the conservation law.
    pub open spec fn wf(self) -> bool {
        let gs = self.global_farms@;
        let ys = self.yield_farms@;
        let ds = self.deposits@;
        &&& forall|i: int, j: int| 0 <= i < j < gs.len() ==> gs[i].id != gs[j].id
        &&& forall|i: int|
            0 <= i < gs.len() ==> (#[trigger] gs[i]).wf() && gs[i].id <= self.farm_id_sequencer
                && gs[i].id >= 1
        &&& forall|i: int, j: int| 0 <= i < j < ys.len() ==> ys[i].id != ys[j].id
        &&& forall|i: int|
            0 <= i < ys.len() ==> (#[trigger] ys[i]).wf() && ys[i].id <= self.farm_id_sequencer
                && ys[i].global_farm_id <= self.farm_id_sequencer
        &&& forall|i: int, j: int|
            0 <= i < j < ds.len() ==> (#[trigger] ds[i]).id != (#[trigger] ds[j]).id
        &&& forall|i: int| 0 <= i < ds.len() ==> (#[trigger] ds[i]).id <= self.deposit_id_sequencer
        &&& forall|i: int, a: int, b: int|
            0 <= i < ds.len() && 0 <= a < b < (#[trigger] ds[i]).entries@.len() ==> (#[trigger] ds[i].entries@[a]).yield_farm_id != (#[trigger] ds[i].entries@[b]).yield_farm_id
        &&& forall|i: int, j: int|
            0 <= i < j < ys.len() && !(#[trigger] ys[i]).is_deleted() && !(#[trigger] ys[j]).is_deleted()
                ==> !(ys[i].global_farm_id == ys[j].global_farm_id && ys[i].amm_pool_id
                == ys[j].amm_pool_id)
        &&& forall|i: int|
            0 <= i < gs.len() ==> farm_balanced(#[trigger] gs[i], ys) && gs[i].total_yield_farms_count
                == count_yfs(ys, gs[i].id)
        &&& self.max_entries_per_deposit >= 1
    }

    /// The share census: every yield farm's `total_valued_shares` is exactly
    /// the sum of the valued shares of the open entries staked in it, its
    /// `entries_count` is exactly the number of those entries, and no entry
    /// references a farm id that was never issued. Every public call
    /// requires and preserves this, so share totals can never drift from the
    /// entries they stand for, and a deleted farm is purged exactly when its
    /// last entry is withdrawn.
    pub open spec fn shares_consistent(self) -> bool {
        let ys = self.yield_farms@;
        let ds = self.deposits@;
        &&& forall|j: int|
            0 <= j < ys.len() ==> (#[trigger] ys[j]).total_valued_shares == valued_sum(
                ds,
                ys[j].id,
            ) && ys[j].entries_count == deposit_count_sum(ds, ys[j].id)
        &&& forall|i: int, k: int|
            0 <= i < ds.len() && 0 <= k < (#[trigger] ds[i]).entries@.len() ==> (
            #[trigger] ds[i].entries@[k]).yield_farm_id <= self.farm_id_sequencer
    }

    /// An empty engine with the given configuration.
    pub fn new(
        max_entries_per_deposit: u32,
        min_total_farm_rewards: Balance,
        min_planned_yielding_periods: Period,
    ) -> (r: LiquidityMining)
        requires
            max_entries_per_deposit >= 1,
        ensures
            r.wf(),
            r.shares_consistent(),
            r.global_farms@.len() == 0,
            r.yield_farms@.len() == 0,
            r.deposits@.len() == 0,
            r.farm_id_sequencer == 0,
            r.deposit_id_sequencer == 0,
            r.max_entries_per_deposit == max_entries_per_deposit,
            r.min_total_farm_rewards == min_total_farm_rewards,
            r.min_planned_yielding_periods == min_planned_yielding_periods,
    {
        LiquidityMining {
            global_farms: Vec::new(),
            yield_farms: Vec::new(),
            deposits: Vec::new(),
            farm_id_sequencer: 0,
            deposit_id_sequencer: 0,
            max_entries_per_deposit,
            min_total_farm_rewards,
            min_planned_yielding_periods,
        }
    }
}

impl LiquidityMining {
    /// The engine's configuration and everything not named is untouched.
    pub open spec fn same_config(self, other: LiquidityMining) -> bool {
        &&& self.max_entries_per_deposit == other.max_entries_per_deposit
        &&& self.min_total_farm_rewards == other.min_total_farm_rewards
        &&& self.min_planned_yielding_periods == other.min_planned_yielding_periods
    }

    /// The operation touched only the global farm arena.
    pub open spec fn only_globals_changed(self, other: LiquidityMining) -> bool {
        &&& self.yield_farms@ == other.yield_farms@
        &&& self.deposits@ == other.deposits@
        &&& self.deposit_id_sequencer == other.deposit_id_sequencer
    }

    /// What `create_global_farm` does: the record it creates, or the error
    /// and why. `max_reward_per_period` is the budget times the yield per
    /// period, truncated; the whole budget starts in the `remaining` bucket.
    pub open spec fn spec_create_global_farm(
        self,
        origin: Origin,
        total_rewards: Balance,
        planned_yielding_periods: Period,
        blocks_per_period: BlockNumber,
        incentivized_asset: AssetId,
        reward_currency: AssetId,
        owner: AccountId,
        yield_per_period: Perquintill,
        min_deposit: Balance,
        price_adjustment: FixedU128,
        current_block: BlockNumber,
    ) -> Result<GlobalFarm, Error> {
        match origin {
            Origin::Unsigned => Err(Error::BadOrigin),
            Origin::Signed(_) => {
                if total_rewards < self.min_total_farm_rewards {
                    Err(Error::InvalidTotalRewards)
                } else if planned_yielding_periods < self.min_planned_yielding_periods {
                    Err(Error::InvalidPlannedYieldingPeriods)
                } else if blocks_per_period < 1 {
                    Err(Error::InvalidBlocksPerPeriod)
                } else if yield_per_period.parts == 0 {
                    Err(Error::InvalidYieldPerPeriod)
                } else if self.farm_id_sequencer == u32::MAX {
                    Err(Error::Arithmetic)
                } else {
                    Ok(
                        GlobalFarm {
                            id: (self.farm_id_sequencer + 1) as FarmId,
                            owner,
                            updated_at: (current_block as int / blocks_per_period as int) as Period,
                            total_rewards,
                            remaining_rewards: total_rewards,
                            pending_rewards: 0,
                            paid_rewards: 0,
                            reward_currency,
                            yield_per_period,
                            planned_yielding_periods,
                            blocks_per_period,
                            incentivized_asset,
                            price_adjustment,
                            max_reward_per_period: yield_per_period.spec_mul_floor(total_rewards),
                            min_deposit,
                            accumulated_rpz: FixedU128 { inner: 0 },
                            total_shares_z: 0,
                            live_yield_farms_count: 0,
                            total_yield_farms_count: 0,
                        },
                    )
                }
            },
        }
    }

    /// Creates a new reward program. The caller must hold the privileged
    /// creator role, modelled as a signed origin; the budget is transferred
    /// to the farm's custody account by the caller on success.
    ///
    /// Returns the new farm's id and the cap on one period's emission.
    pub fn create_global_farm(
        &mut self,
        origin: Origin,
        total_rewards: Balance,
        planned_yielding_periods: Period,
        blocks_per_period: BlockNumber,
        incentivized_asset: AssetId,
        reward_currency: AssetId,
        owner: AccountId,
        yield_per_period: Perquintill,
        min_deposit: Balance,
        price_adjustment: FixedU128,
        current_block: BlockNumber,
    ) -> (r: Result<(FarmId, Balance), Error>)
        requires
            old(self).wf(),
            old(self).shares_consistent(),
            yield_per_period.wf(),
        ensures
            final(self).wf(),
            final(self).shares_consistent(),
            final(self).same_config(*old(self)),
            match old(self).spec_create_global_farm(
                origin,
                total_rewards,
                planned_yielding_periods,
                blocks_per_period,
                incentivized_asset,
                reward_currency,
                owner,
                yield_per_period,
                min_deposit,
                price_adjustment,
                current_block,
            ) {
                Err(e) => r == Err::<(FarmId, Balance), _>(e) && *final(self) == *old(self),
                Ok(gf) => r == Ok::<_, Error>((gf.id, gf.max_reward_per_period))
                    && final(self).global_farms@ == old(self).global_farms@.push(gf)
                    && final(self).only_globals_changed(*old(self))
                    && final(self).farm_id_sequencer == old(self).farm_id_sequencer + 1,
            },
    {
        let who: AccountId = match origin {
            Origin::Signed(a) => a,
            Origin::Unsigned => {
                return Err(Error::BadOrigin);
            },
        };
        if total_rewards < self.min_total_farm_rewards {
            return Err(Error::InvalidTotalRewards);
        }
        if planned_yielding_periods < self.min_planned_yielding_periods {
            return Err(Error::InvalidPlannedYieldingPeriods);
        }
        if blocks_per_period < 1 {
            return Err(Error::InvalidBlocksPerPeriod);
        }
        if yield_per_period.parts == 0 {
            return Err(Error::InvalidYieldPerPeriod);
        }
        if self.farm_id_sequencer == u32::MAX {
            return Err(Error::Arithmetic);
        }
        let id: FarmId = self.farm_id_sequencer + 1;
        let max_reward_per_period: Balance = yield_per_period.mul_floor(total_rewards);
        let gf: GlobalFarm = GlobalFarm {
            id,
            owner,
            updated_at: current_block / blocks_per_period,
            total_rewards,
            remaining_rewards: total_rewards,
            pending_rewards: 0,
            paid_rewards: 0,
            reward_currency,
            yield_per_period,
            planned_yielding_periods,
            blocks_per_period,
            incentivized_asset,
            price_adjustment,
            max_reward_per_period,
            min_deposit,
            accumulated_rpz: FixedU128 { inner: 0 },
            total_shares_z: 0,
            live_yield_farms_count: 0,
            total_yield_farms_count: 0,
        };
        proof {
            lemma_count_zero_when_unmatched(self.yield_farms@, id);
            lemma_left_sum_empty(self.yield_farms@, id);
        }
        self.farm_id_sequencer = id;
        self.global_farms.push(gf);
        Ok((id, max_reward_per_period))
    }

    /// What `destroy_global_farm` does: the index of the record it removes
    /// and the record itself, or the error and why.
    pub open spec fn spec_destroy_global_farm(self, origin: Origin, farm_id: FarmId) -> Result<
        (int, GlobalFarm),
        Error,
    > {
        let gs = self.global_farms@;
        match origin {
            Origin::Unsigned => Err(Error::BadOrigin),
            Origin::Signed(who) => {
                if !(exists|i: int| 0 <= i < gs.len() && gs[i].id == farm_id) {
                    Err(Error::GlobalFarmNotFound)
                } else {
                    let gi = choose|i: int| 0 <= i < gs.len() && gs[i].id == farm_id;
                    if gs[gi].owner != who {
                        Err(Error::Forbidden)
                    } else if gs[gi].total_yield_farms_count != 0 {
                        Err(Error::GlobalFarmIsNotEmpty)
                    } else {
                        Ok((gi, gs[gi]))
                    }
                }
            },
        }
    }

    /// Destroys an empty reward program. Only the owner may do so, and only
    /// after every yield farm under it has been destroyed and purged.
    ///
    /// Returns the reward currency, the undistributed budget the caller must
    /// transfer back to the owner, and the owner account.
    pub fn destroy_global_farm(&mut self, origin: Origin, farm_id: FarmId) -> (r:
        Result<(AssetId, Balance, AccountId), Error>)
        requires
            old(self).wf(),
            old(self).shares_consistent(),
        ensures
            final(self).wf(),
            final(self).shares_consistent(),
            final(self).same_config(*old(self)),
            match old(self).spec_destroy_global_farm(origin, farm_id) {
                Err(e) => r == Err::<(AssetId, Balance, AccountId), _>(e)
                    && *final(self) == *old(self),
                Ok((gi, g)) => r == Ok::<_, Error>(
                    (
                        g.reward_currency,
                        (g.remaining_rewards + g.pending_rewards) as Balance,
                        g.owner,
                    ),
                ) && final(self).global_farms@ == old(self).global_farms@.remove(gi)
                    && final(self).only_globals_changed(*old(self))
                    && final(self).farm_id_sequencer == old(self).farm_id_sequencer,
            },
    {
        let who: AccountId = match origin {
            Origin::Signed(a) => a,
            Origin::Unsigned => {
                return Err(Error::BadOrigin);
            },
        };
        let gi: usize = match find_global(&self.global_farms, farm_id) {
            Some(i) => i,
            None => {
                return Err(Error::GlobalFarmNotFound);
            },
        };
        proof {
            let gic = choose|i: int|
                0 <= i < self.global_farms@.len() && self.global_farms@[i].id == farm_id;
            assert(gic == gi as int);
        }
        let g: GlobalFarm = self.global_farms[gi];
        if g.owner != who {
            return Err(Error::Forbidden);
        }
        if g.total_yield_farms_count != 0 {
            return Err(Error::GlobalFarmIsNotEmpty);
        }
        proof {
            // An empty farm has an empty pot sum, so the whole residue is
            // `remaining + pending`, and their sum fits because the books
            // balance against `total_rewards`.
            lemma_left_sum_empty(self.yield_farms@, g.id);
            assert(g.remaining_rewards + g.pending_rewards <= g.total_rewards);
        }
        let undistributed: Balance = g.remaining_rewards + g.pending_rewards;
        self.global_farms.remove(gi);
        Ok((g.reward_currency, undistributed, who))
    }

    /// What `create_yield_farm` does: the index of the global farm, its
    /// synced record with raised farm counts, and the new yield farm record;
    /// or the error and why.
    pub open spec fn spec_create_yield_farm(
        self,
        origin: Origin,
        global_farm_id: FarmId,
        asset_pair: crate::types::AssetPair,
        multiplier: FixedU128,
        loyalty_curve: Option<LoyaltyCurve>,
        amm: Option<AmmPoolInfo>,
        current_block: BlockNumber,
    ) -> Result<(int, GlobalFarm, YieldFarm), Error> {
        let gs = self.global_farms@;
        let ys = self.yield_farms@;
        match origin {
            Origin::Unsigned => Err(Error::BadOrigin),
            Origin::Signed(who) => match amm {
                None => Err(Error::AmmPoolDoesNotExist),
                Some(pool) => {
                    if !(exists|i: int| 0 <= i < gs.len() && gs[i].id == global_farm_id) {
                        Err(Error::GlobalFarmNotFound)
                    } else {
                        let gi = choose|i: int| 0 <= i < gs.len() && gs[i].id == global_farm_id;
                        let g = gs[gi];
                        if g.owner != who {
                            Err(Error::Forbidden)
                        } else if multiplier.inner == 0 {
                            Err(Error::InvalidMultiplier)
                        } else if !(match loyalty_curve {
                            None => true,
                            Some(c) => c.wf(),
                        }) {
                            Err(Error::InvalidLoyaltyCurve)
                        } else if !asset_pair.spec_contains(g.incentivized_asset) {
                            Err(Error::MissingIncentivizedAsset)
                        } else if exists|j: int|
                            0 <= j < ys.len() && live_pool_match(ys[j], global_farm_id, pool.pool_id) {
                            Err(Error::YieldFarmAlreadyExists)
                        } else if self.farm_id_sequencer == u32::MAX || g.total_yield_farms_count
                            == u32::MAX || g.live_yield_farms_count == u32::MAX {
                            Err(Error::Arithmetic)
                        } else {
                            match spec_global_synced(g, g.spec_period_of(current_block)) {
                                Err(e) => Err(e),
                                Ok(g2) => Ok(
                                    (
                                        gi,
                                        GlobalFarm {
                                            live_yield_farms_count: (g2.live_yield_farms_count
                                                + 1) as u32,
                                            total_yield_farms_count: (g2.total_yield_farms_count
                                                + 1) as u32,
                                            ..g2
                                        },
                                        YieldFarm {
                                            id: (self.farm_id_sequencer + 1) as FarmId,
                                            global_farm_id,
                                            amm_pool_id: pool.pool_id,
                                            assets: asset_pair,
                                            updated_at: g.spec_period_of(current_block),
                                            total_shares: 0,
                                            total_valued_shares: 0,
                                            accumulated_rpvs: FixedU128 { inner: 0 },
                                            accumulated_rpz: g2.accumulated_rpz,
                                            loyalty_curve,
                                            multiplier,
                                            state: FarmState::Active,
                                            entries_count: 0,
                                            left_to_distribute: 0,
                                        },
                                    ),
                                ),
                            }
                        }
                    }
                },
            },
        }
    }

    /// Adds a yield farm for the given pool to a global farm. Only the farm
    /// owner may; the pool must exist, trade the incentivized asset, and not
    /// already have a live yield farm under this global farm.
    ///
    /// Returns the new yield farm's id.
    pub fn create_yield_farm(
        &mut self,
        origin: Origin,
        global_farm_id: FarmId,
        asset_pair: crate::types::AssetPair,
        multiplier: FixedU128,
        loyalty_curve: Option<LoyaltyCurve>,
        amm: Option<AmmPoolInfo>,
        current_block: BlockNumber,
    ) -> (r: Result<FarmId, Error>)
        requires
            old(self).wf(),
            old(self).shares_consistent(),
        ensures
            final(self).wf(),
            final(self).shares_consistent(),
            final(self).same_config(*old(self)),
            match old(self).spec_create_yield_farm(
                origin,
                global_farm_id,
                asset_pair,
                multiplier,
                loyalty_curve,
                amm,
                current_block,
            ) {
                Err(e) => r == Err::<FarmId, _>(e) && *final(self) == *old(self),
                Ok((gi, g3, yf)) => r == Ok::<_, Error>(yf.id)
                    && final(self).global_farms@ == old(self).global_farms@.update(gi, g3)
                    && final(self).yield_farms@ == old(self).yield_farms@.push(yf)
                    && final(self).deposits@ == old(self).deposits@
                    && final(self).farm_id_sequencer == old(self).farm_id_sequencer + 1
                    && final(self).deposit_id_sequencer == old(self).deposit_id_sequencer,
            },
    {
        let who: AccountId = match origin {
            Origin::Signed(a) => a,
            Origin::Unsigned => {
                return Err(Error::BadOrigin);
            },
        };
        let pool: AmmPoolInfo = match amm {
            Some(p) => p,
            None => {
                return Err(Error::AmmPoolDoesNotExist);
            },
        };
        let gi: usize = match find_global(&self.global_farms, global_farm_id) {
            Some(i) => i,
            None => {
                return Err(Error::GlobalFarmNotFound);
            },
        };
        proof {
            let gic = choose|i: int|
                0 <= i < self.global_farms@.len() && self.global_farms@[i].id == global_farm_id;
            assert(gic == gi as int);
        }
        let g: GlobalFarm = self.global_farms[gi];
        if g.owner != who {
            return Err(Error::Forbidden);
        }
        if multiplier.inner == 0 {
            return Err(Error::InvalidMultiplier);
        }
        let curve_ok: bool = match &loyalty_curve {
            None => true,
            Some(c) => c.initial_reward_percentage.inner < crate::fixed::FIXED_ONE && c.scale_coef
                >= 1,
        };
        if !curve_ok {
            return Err(Error::InvalidLoyaltyCurve);
        }
        if !asset_pair.contains(g.incentivized_asset) {
            return Err(Error::MissingIncentivizedAsset);
        }
        match find_yield_by_pool(&self.yield_farms, global_farm_id, pool.pool_id) {
            Some(_) => {
                return Err(Error::YieldFarmAlreadyExists);
            },
            None => {},
        };
        if self.farm_id_sequencer == u32::MAX || g.total_yield_farms_count == u32::MAX
            || g.live_yield_farms_count == u32::MAX {
            return Err(Error::Arithmetic);
        }
        let period: Period = g.period_of(current_block);
        let g2: GlobalFarm = match global_synced(&g, period) {
            Ok(v) => v,
            Err(e) => {
                return Err(e);
            },
        };
        let id: FarmId = self.farm_id_sequencer + 1;
        let g3: GlobalFarm = GlobalFarm {
            live_yield_farms_count: g2.live_yield_farms_count + 1,
            total_yield_farms_count: g2.total_yield_farms_count + 1,
            ..g2
        };
        let yf: YieldFarm = YieldFarm {
            id,
            global_farm_id,
            amm_pool_id: pool.pool_id,
            assets: asset_pair,
            updated_at: period,
            total_shares: 0,
            total_valued_shares: 0,
            accumulated_rpvs: FixedU128 { inner: 0 },
            accumulated_rpz: g2.accumulated_rpz,
            loyalty_curve,
            multiplier,
            state: FarmState::Active,
            entries_count: 0,
            left_to_distribute: 0,
        };
        let ghost pre = *self;
        self.farm_id_sequencer = id;
        self.global_farms[gi] = g3;
        self.yield_farms.push(yf);
        proof {
            let gs = pre.global_farms@;
            let ys = pre.yield_farms@;
            assert forall|k: int| 0 <= k < gs.len() implies farm_balanced(
                #[trigger] self.global_farms@[k],
                self.yield_farms@,
            ) && self.global_farms@[k].total_yield_farms_count == count_yfs(
                self.yield_farms@,
                self.global_farms@[k].id,
            ) by {
                lemma_sums_push(ys, yf, gs[k].id);
                if k != gi as int {
                    assert(self.global_farms@[k] == gs[k]);
                    assert(gs[k].id != global_farm_id);
                }
            }
            // The new farm starts with no valued shares, and no entry can
            // reference its never-issued id yet.
            assert forall|j: int| 0 <= j < self.yield_farms@.len() implies (
            #[trigger] self.yield_farms@[j]).total_valued_shares == valued_sum(
                self.deposits@,
                self.yield_farms@[j].id,
            ) && self.yield_farms@[j].entries_count == deposit_count_sum(
                self.deposits@,
                self.yield_farms@[j].id,
            ) by {
                if j == ys.len() {
                    lemma_valued_sum_unmatched(self.deposits@, id);
                } else {
                    assert(self.yield_farms@[j] == ys[j]);
                }
            }
        }
        Ok(id)
    }

    /// What `stop_yield_farm` does: the indexes of the global farm and its
    /// live yield farm for the pool, and their records after the final
    /// reward distribution, the stop, and the stake's removal from the
    /// global weighted total; or the error and why.
    pub open spec fn spec_stop_yield_farm(
        self,
        origin: Origin,
        global_farm_id: FarmId,
        amm_pool_id: PoolId,
        current_block: BlockNumber,
    ) -> Result<(int, int, GlobalFarm, YieldFarm), Error> {
        let gs = self.global_farms@;
        let ys = self.yield_farms@;
        match origin {
            Origin::Unsigned => Err(Error::BadOrigin),
            Origin::Signed(who) => {
                if !(exists|i: int| 0 <= i < gs.len() && gs[i].id == global_farm_id) {
                    Err(Error::GlobalFarmNotFound)
                } else {
                    let gi = choose|i: int| 0 <= i < gs.len() && gs[i].id == global_farm_id;
                    let g = gs[gi];
                    if !(exists|j: int|
                        0 <= j < ys.len() && live_pool_match(ys[j], global_farm_id, amm_pool_id)) {
                        Err(Error::YieldFarmNotFound)
                    } else {
                        let yi = choose|j: int|
                            0 <= j < ys.len() && live_pool_match(ys[j], global_farm_id, amm_pool_id);
                        let yf = ys[yi];
                        if g.owner != who {
                            Err(Error::Forbidden)
                        } else if !yf.is_active() {
                            Err(Error::LiquidityMiningIsNotActive)
                        } else {
                            let period = g.spec_period_of(current_block);
                            match spec_global_synced(g, period) {
                                Err(e) => Err(e),
                                Ok(g2) => match spec_yield_synced(g2, yf, period) {
                                    Err(e) => Err(e),
                                    Ok((g3, yf2)) => match yf2.spec_stake_in_global() {
                                        None => Err(Error::Arithmetic),
                                        Some(stake) => {
                                            if g3.total_shares_z < stake {
                                                Err(Error::Arithmetic)
                                            } else {
                                                Ok(
                                                    (
                                                        gi,
                                                        yi,
                                                        GlobalFarm {
                                                            total_shares_z: (g3.total_shares_z
                                                                - stake) as Balance,
                                                            ..g3
                                                        },
                                                        YieldFarm { state: FarmState::Stopped, ..yf2 },
                                                    ),
                                                )
                                            }
                                        },
                                    },
                                },
                            }
                        }
                    }
                }
            },
        }
    }

    /// Stops a yield farm: one final reward distribution, then the farm is
    /// frozen. Deposits and claims are rejected afterwards; withdrawals
    /// remain possible and no new reward accrues. Only the owner may stop,
    /// and only an active farm can be stopped — stopping twice fails with a
    /// lifecycle error and changes nothing.
    ///
    /// Returns the stopped yield farm's id.
    pub fn stop_yield_farm(
        &mut self,
        origin: Origin,
        global_farm_id: FarmId,
        amm_pool_id: PoolId,
        current_block: BlockNumber,
    ) -> (r: Result<FarmId, Error>)
        requires
            old(self).wf(),
            old(self).shares_consistent(),
        ensures
            final(self).wf(),
            final(self).shares_consistent(),
            final(self).same_config(*old(self)),
            match old(self).spec_stop_yield_farm(origin, global_farm_id, amm_pool_id, current_block) {
                Err(e) => r == Err::<FarmId, _>(e) && *final(self) == *old(self),
                Ok((gi, yi, g4, yf3)) => r == Ok::<_, Error>(yf3.id)
                    && final(self).global_farms@ == old(self).global_farms@.update(gi, g4)
                    && final(self).yield_farms@ == old(self).yield_farms@.update(yi, yf3)
                    && final(self).deposits@ == old(self).deposits@
                    && final(self).farm_id_sequencer == old(self).farm_id_sequencer
                    && final(self).deposit_id_sequencer == old(self).deposit_id_sequencer,
            },
    {
        let who: AccountId = match origin {
            Origin::Signed(a) => a,
            Origin::Unsigned => {
                return Err(Error::BadOrigin);
            },
        };
        let gi: usize = match find_global(&self.global_farms, global_farm_id) {
            Some(i) => i,
            None => {
                return Err(Error::GlobalFarmNotFound);
            },
        };
        proof {
            let gic = choose|i: int|
                0 <= i < self.global_farms@.len() && self.global_farms@[i].id == global_farm_id;
            assert(gic == gi as int);
        }
        let g: GlobalFarm = self.global_farms[gi];
        let yi: usize = match find_yield_by_pool(&self.yield_farms, global_farm_id, amm_pool_id) {
            Some(i) => i,
            None => {
                return Err(Error::YieldFarmNotFound);
            },
        };
        proof {
            let yic = choose|j: int|
                0 <= j < self.yield_farms@.len() && live_pool_match(
                    self.yield_farms@[j],
                    global_farm_id,
                    amm_pool_id,
                );
            assert(yic == yi as int);
        }
        let yf: YieldFarm = self.yield_farms[yi];
        if g.owner != who {
            return Err(Error::Forbidden);
        }
        if !matches!(yf.state, FarmState::Active) {
            return Err(Error::LiquidityMiningIsNotActive);
        }
        let period: Period = g.period_of(current_block);
        let g2: GlobalFarm = match global_synced(&g, period) {
            Ok(v) => v,
            Err(e) => {
                return Err(e);
            },
        };
        let (g3, yf2): (GlobalFarm, YieldFarm) = match yield_synced(&g2, &yf, period) {
            Ok(v) => v,
            Err(e) => {
                return Err(e);
            },
        };
        let stake: Balance = match yf2.stake_in_global() {
            Some(v) => v,
            None => {
                return Err(Error::Arithmetic);
            },
        };
        if g3.total_shares_z < stake {
            return Err(Error::Arithmetic);
        }
        let g4: GlobalFarm = GlobalFarm { total_shares_z: g3.total_shares_z - stake, ..g3 };
        let yf3: YieldFarm = YieldFarm { state: FarmState::Stopped, ..yf2 };
        let ghost pre = *self;
        self.global_farms[gi] = g4;
        self.yield_farms[yi] = yf3;
        proof {
            lemma_wf_pair_update(pre, *self, gi as int, yi as int, g4, yf3);
        }
        Ok(yf.id)
    }

    /// What `resume_yield_farm` does, or the error and why. The stopped
    /// interval is explicitly not backfilled: the farm re-enters the global
    /// accumulator at its current value.
    pub open spec fn spec_resume_yield_farm(
        self,
        origin: Origin,
        global_farm_id: FarmId,
        yield_farm_id: FarmId,
        multiplier: FixedU128,
        amm: Option<AmmPoolInfo>,
        current_block: BlockNumber,
    ) -> Result<(int, int, GlobalFarm, YieldFarm), Error> {
        let gs = self.global_farms@;
        let ys = self.yield_farms@;
        match origin {
            Origin::Unsigned => Err(Error::BadOrigin),
            Origin::Signed(who) => match amm {
                None => Err(Error::AmmPoolDoesNotExist),
                Some(pool) => {
                    if !(exists|i: int| 0 <= i < gs.len() && gs[i].id == global_farm_id) {
                        Err(Error::GlobalFarmNotFound)
                    } else {
                        let gi = choose|i: int| 0 <= i < gs.len() && gs[i].id == global_farm_id;
                        let g = gs[gi];
                        if !(exists|j: int| 0 <= j < ys.len() && ys[j].id == yield_farm_id) {
                            Err(Error::YieldFarmNotFound)
                        } else {
                            let yi = choose|j: int| 0 <= j < ys.len() && ys[j].id == yield_farm_id;
                            let yf = ys[yi];
                            if yf.global_farm_id != global_farm_id || yf.amm_pool_id != pool.pool_id
                                || yf.is_deleted() {
                                Err(Error::YieldFarmNotFound)
                            } else if g.owner != who {
                                Err(Error::Forbidden)
                            } else if !yf.is_stopped() {
                                Err(Error::LiquidityMiningIsNotStopped)
                            } else if multiplier.inner == 0 {
                                Err(Error::InvalidMultiplier)
                            } else {
                                let period = g.spec_period_of(current_block);
                                match spec_global_synced(g, period) {
                                    Err(e) => Err(e),
                                    Ok(g2) => match multiplier.spec_mul_int(
                                        yf.total_valued_shares,
                                    ) {
                                        None => Err(Error::Arithmetic),
                                        Some(stake) => {
                                            if g2.total_shares_z + stake > u128::MAX {
                                                Err(Error::Arithmetic)
                                            } else {
                                                Ok(
                                                    (
                                                        gi,
                                                        yi,
                                                        GlobalFarm {
                                                            total_shares_z: (g2.total_shares_z
                                                                + stake) as Balance,
                                                            ..g2
                                                        },
                                                        YieldFarm {
                                                            state: FarmState::Active,
                                                            multiplier,
                                                            accumulated_rpz: g2.accumulated_rpz,
                                                            updated_at: period,
                                                            ..yf
                                                        },
                                                    ),
                                                )
                                            }
                                        },
                                    },
                                }
                            }
                        }
                    }
                },
            },
        }
    }

    /// Resumes a stopped yield farm with a fresh multiplier. No reward is
    /// backfilled for the stopped interval.
    pub fn resume_yield_farm(
        &mut self,
        origin: Origin,
        global_farm_id: FarmId,
        yield_farm_id: FarmId,
        multiplier: FixedU128,
        amm: Option<AmmPoolInfo>,
        current_block: BlockNumber,
    ) -> (r: Result<(), Error>)
        requires
            old(self).wf(),
            old(self).shares_consistent(),
        ensures
            final(self).wf(),
            final(self).shares_consistent(),
            final(self).same_config(*old(self)),
            match old(self).spec_resume_yield_farm(
                origin,
                global_farm_id,
                yield_farm_id,
                multiplier,
                amm,
                current_block,
            ) {
                Err(e) => r == Err::<(), _>(e) && *final(self) == *old(self),
                Ok((gi, yi, g3, yf2)) => r == Ok::<_, Error>(())
                    && final(self).global_farms@ == old(self).global_farms@.update(gi, g3)
                    && final(self).yield_farms@ == old(self).yield_farms@.update(yi, yf2)
                    && final(self).deposits@ == old(self).deposits@
                    && final(self).farm_id_sequencer == old(self).farm_id_sequencer
                    && final(self).deposit_id_sequencer == old(self).deposit_id_sequencer,
            },
    {
        let who: AccountId = match origin {
            Origin::Signed(a) => a,
            Origin::Unsigned => {
                return Err(Error::BadOrigin);
            },
        };
        let pool: AmmPoolInfo = match amm {
            Some(p) => p,
            None => {
                return Err(Error::AmmPoolDoesNotExist);
            },
        };
        let gi: usize = match find_global(&self.global_farms, global_farm_id) {
            Some(i) => i,
            None => {
                return Err(Error::GlobalFarmNotFound);
            },
        };
        proof {
            let gic = choose|i: int|
                0 <= i < self.global_farms@.len() && self.global_farms@[i].id == global_farm_id;
            assert(gic == gi as int);
        }
        let g: GlobalFarm = self.global_farms[gi];
        let yi: usize = match find_yield_by_id(&self.yield_farms, yield_farm_id) {
            Some(i) => i,
            None => {
                return Err(Error::YieldFarmNotFound);
            },
        };
        proof {
            let yic = choose|j: int|
                0 <= j < self.yield_farms@.len() && self.yield_farms@[j].id == yield_farm_id;
            assert(yic == yi as int);
        }
        let yf: YieldFarm = self.yield_farms[yi];
        if yf.global_farm_id != global_farm_id || yf.amm_pool_id != pool.pool_id || matches!(
            yf.state,
            FarmState::Deleted,
        ) {
            return Err(Error::YieldFarmNotFound);
        }
        if g.owner != who {
            return Err(Error::Forbidden);
        }
        if !matches!(yf.state, FarmState::Stopped) {
            return Err(Error::LiquidityMiningIsNotStopped);
        }
        if multiplier.inner == 0 {
            return Err(Error::InvalidMultiplier);
        }
        let period: Period = g.period_of(current_block);
        let g2: GlobalFarm = match global_synced(&g, period) {
            Ok(v) => v,
            Err(e) => {
                return Err(e);
            },
        };
        let stake: Balance = match multiplier.checked_mul_int(yf.total_valued_shares) {
            Some(v) => v,
            None => {
                return Err(Error::Arithmetic);
            },
        };
        let z2: Balance = match g2.total_shares_z.checked_add(stake) {
            Some(v) => v,
            None => {
                return Err(Error::Arithmetic);
            },
        };
        let g3: GlobalFarm = GlobalFarm { total_shares_z: z2, ..g2 };
        let yf2: YieldFarm = YieldFarm {
            state: FarmState::Active,
            multiplier,
            accumulated_rpz: g2.accumulated_rpz,
            updated_at: period,
            ..yf
        };
        let ghost pre = *self;
        self.global_farms[gi] = g3;
        self.yield_farms[yi] = yf2;
        proof {
            lemma_wf_pair_update(pre, *self, gi as int, yi as int, g3, yf2);
        }
        Ok(())
    }

    /// What `destroy_yield_farm` does: either the farm is only marked
    /// deleted (entries still reference it), or — when it has no entries —
    /// it is purged at once and its pot returns to the global farm's
    /// `remaining` bucket.
    pub open spec fn spec_destroy_yield_farm(
        self,
        origin: Origin,
        global_farm_id: FarmId,
        yield_farm_id: FarmId,
        amm_pool_id: PoolId,
    ) -> Result<(int, int, GlobalFarm, Option<YieldFarm>), Error> {
        let gs = self.global_farms@;
        let ys = self.yield_farms@;
        match origin {
            Origin::Unsigned => Err(Error::BadOrigin),
            Origin::Signed(who) => {
                if !(exists|i: int| 0 <= i < gs.len() && gs[i].id == global_farm_id) {
                    Err(Error::GlobalFarmNotFound)
                } else {
                    let gi = choose|i: int| 0 <= i < gs.len() && gs[i].id == global_farm_id;
                    let g = gs[gi];
                    if !(exists|j: int| 0 <= j < ys.len() && ys[j].id == yield_farm_id) {
                        Err(Error::YieldFarmNotFound)
                    } else {
                        let yi = choose|j: int| 0 <= j < ys.len() && ys[j].id == yield_farm_id;
                        let yf = ys[yi];
                        if yf.global_farm_id != global_farm_id || yf.amm_pool_id != amm_pool_id
                            || yf.is_deleted() {
                            Err(Error::YieldFarmNotFound)
                        } else if g.owner != who {
                            Err(Error::Forbidden)
                        } else if !yf.is_stopped() {
                            Err(Error::LiquidityMiningIsNotStopped)
                        } else if g.live_yield_farms_count == 0 {
                            Err(Error::Arithmetic)
                        } else if yf.entries_count == 0 {
                            Ok(
                                (
                                    gi,
                                    yi,
                                    GlobalFarm {
                                        live_yield_farms_count: (g.live_yield_farms_count
                                            - 1) as u32,
                                        total_yield_farms_count: (g.total_yield_farms_count
                                            - 1) as u32,
                                        remaining_rewards: (g.remaining_rewards
                                            + yf.left_to_distribute) as Balance,
                                        ..g
                                    },
                                    None,
                                ),
                            )
                        } else {
                            Ok(
                                (
                                    gi,
                                    yi,
                                    GlobalFarm {
                                        live_yield_farms_count: (g.live_yield_farms_count
                                            - 1) as u32,
                                        ..g
                                    },
                                    Some(YieldFarm { state: FarmState::Deleted, ..yf }),
                                ),
                            )
                        }
                    }
                }
            },
        }
    }

    /// Destroys a stopped yield farm. While entries remain open the farm is
    /// only marked deleted; its unclaimed pot flows back to the global farm
    /// as those entries are withdrawn, and the record is purged with the
    /// last of them. A farm with no entries is purged immediately.
    pub fn destroy_yield_farm(
        &mut self,
        origin: Origin,
        global_farm_id: FarmId,
        yield_farm_id: FarmId,
        amm_pool_id: PoolId,
    ) -> (r: Result<(), Error>)
        requires
            old(self).wf(),
            old(self).shares_consistent(),
        ensures
            final(self).wf(),
            final(self).shares_consistent(),
            final(self).same_config(*old(self)),
            match old(self).spec_destroy_yield_farm(
                origin,
                global_farm_id,
                yield_farm_id,
                amm_pool_id,
            ) {
                Err(e) => r == Err::<(), _>(e) && *final(self) == *old(self),
                Ok((gi, yi, g2, marked)) => r == Ok::<_, Error>(())
                    && final(self).global_farms@ == old(self).global_farms@.update(gi, g2)
                    && final(self).yield_farms@ == (match marked {
                        Some(yf2) => old(self).yield_farms@.update(yi, yf2),
                        None => old(self).yield_farms@.remove(yi),
                    })
                    && final(self).deposits@ == old(self).deposits@
                    && final(self).farm_id_sequencer == old(self).farm_id_sequencer
                    && final(self).deposit_id_sequencer == old(self).deposit_id_sequencer,
            },
    {
        let who: AccountId = match origin {
            Origin::Signed(a) => a,
            Origin::Unsigned => {
                return Err(Error::BadOrigin);
            },
        };
        let gi: usize = match find_global(&self.global_farms, global_farm_id) {
            Some(i) => i,
            None => {
                return Err(Error::GlobalFarmNotFound);
            },
        };
        proof {
            let gic = choose|i: int|
                0 <= i < self.global_farms@.len() && self.global_farms@[i].id == global_farm_id;
            assert(gic == gi as int);
        }
        let g: GlobalFarm = self.global_farms[gi];
        let yi: usize = match find_yield_by_id(&self.yield_farms, yield_farm_id) {
            Some(i) => i,
            None => {
                return Err(Error::YieldFarmNotFound);
            },
        };
        proof {
            let yic = choose|j: int|
                0 <= j < self.yield_farms@.len() && self.yield_farms@[j].id == yield_farm_id;
            assert(yic == yi as int);
        }
        let yf: YieldFarm = self.yield_farms[yi];
        if yf.global_farm_id != global_farm_id || yf.amm_pool_id != amm_pool_id || matches!(
            yf.state,
            FarmState::Deleted,
        ) {
            return Err(Error::YieldFarmNotFound);
        }
        if g.owner != who {
            return Err(Error::Forbidden);
        }
        if !matches!(yf.state, FarmState::Stopped) {
            return Err(Error::LiquidityMiningIsNotStopped);
        }
        if g.live_yield_farms_count == 0 {
            return Err(Error::Arithmetic);
        }
        if yf.entries_count == 0 {
            proof {
                // The pot flows back into `remaining`; the books bound it.
                lemma_left_sum_at_least(self.yield_farms@, g.id, yi as int);
                lemma_left_sum_nonneg(self.yield_farms@, g.id);
            }
            let g2: GlobalFarm = GlobalFarm {
                live_yield_farms_count: g.live_yield_farms_count - 1,
                total_yield_farms_count: g.total_yield_farms_count - 1,
                remaining_rewards: g.remaining_rewards + yf.left_to_distribute,
                ..g
            };
            let ghost pre = *self;
            self.global_farms[gi] = g2;
            self.yield_farms.remove(yi);
            proof {
                let gs = pre.global_farms@;
                let ys = pre.yield_farms@;
                assert forall|k: int| 0 <= k < gs.len() implies farm_balanced(
                    #[trigger] self.global_farms@[k],
                    self.yield_farms@,
                ) && self.global_farms@[k].total_yield_farms_count == count_yfs(
                    self.yield_farms@,
                    self.global_farms@[k].id,
                ) by {
                    lemma_sums_remove(ys, yi as int, gs[k].id);
                    if k != gi as int {
                        assert(self.global_farms@[k] == gs[k]);
                        assert(gs[k].id != global_farm_id);
                        assert(yf_contrib(ys[yi as int], gs[k].id) == 0);
                    } else {
                        assert(self.global_farms@[k] == g2);
                    }
                }
            }
            Ok(())
        } else {
            let g2: GlobalFarm = GlobalFarm {
                live_yield_farms_count: g.live_yield_farms_count - 1,
                ..g
            };
            let yf2: YieldFarm = YieldFarm { state: FarmState::Deleted, ..yf };
            let ghost pre = *self;
            self.global_farms[gi] = g2;
            self.yield_farms[yi] = yf2;
            proof {
                lemma_wf_pair_update(pre, *self, gi as int, yi as int, g2, yf2);
            }
            Ok(())
        }
    }

    /// What `update_yield_farm` does: the records after the sync and the
    /// multiplier change, or the error and why. The sync comes first, so the
    /// change cannot move reward already accrued under the old weight.
    pub open spec fn spec_update_yield_farm(
        self,
        origin: Origin,
        global_farm_id: FarmId,
        multiplier: FixedU128,
        amm: Option<AmmPoolInfo>,
        current_block: BlockNumber,
    ) -> Result<(int, int, GlobalFarm, YieldFarm), Error> {
        let gs = self.global_farms@;
        let ys = self.yield_farms@;
        match origin {
            Origin::Unsigned => Err(Error::BadOrigin),
            Origin::Signed(who) => match amm {
                None => Err(Error::AmmPoolDoesNotExist),
                Some(pool) => {
                    if !(exists|i: int| 0 <= i < gs.len() && gs[i].id == global_farm_id) {
                        Err(Error::GlobalFarmNotFound)
                    } else {
                        let gi = choose|i: int| 0 <= i < gs.len() && gs[i].id == global_farm_id;
                        let g = gs[gi];
                        if !(exists|j: int|
                            0 <= j < ys.len() && live_pool_match(ys[j], global_farm_id, pool.pool_id)) {
                            Err(Error::YieldFarmNotFound)
                        } else {
                            let yi = choose|j: int|
                                0 <= j < ys.len() && live_pool_match(
                                    ys[j],
                                    global_farm_id,
                                    pool.pool_id,
                                );
                            let yf = ys[yi];
                            if g.owner != who {
                                Err(Error::Forbidden)
                            } else if !yf.is_active() {
                                Err(Error::LiquidityMiningIsNotActive)
                            } else if multiplier.inner == 0 {
                                Err(Error::InvalidMultiplier)
                            } else {
                                let period = g.spec_period_of(current_block);
                                match spec_global_synced(g, period) {
                                    Err(e) => Err(e),
                                    Ok(g2) => match spec_yield_synced(g2, yf, period) {
                                        Err(e) => Err(e),
                                        Ok((g3, yf2)) => match yf2.spec_stake_in_global() {
                                            None => Err(Error::Arithmetic),
                                            Some(old_stake) => match multiplier.spec_mul_int(
                                                yf2.total_valued_shares,
                                            ) {
                                                None => Err(Error::Arithmetic),
                                                Some(new_stake) => {
                                                    if g3.total_shares_z < old_stake
                                                        || g3.total_shares_z - old_stake + new_stake
                                                        > u128::MAX {
                                                        Err(Error::Arithmetic)
                                                    } else {
                                                        Ok(
                                                            (
                                                                gi,
                                                                yi,
                                                                GlobalFarm {
                                                                    total_shares_z: (
                                                                    g3.total_shares_z - old_stake
                                                                        + new_stake) as Balance,
                                                                    ..g3
                                                                },
                                                                YieldFarm { multiplier, ..yf2 },
                                                            ),
                                                        )
                                                    }
                                                },
                                            },
                                        },
                                    },
                                }
                            }
                        }
                    }
                },
            },
        }
    }

    /// Changes an active yield farm's weight. The farm is synced first, so
    /// reward accrued under the old weight is neither lost nor inflated.
    pub fn update_yield_farm(
        &mut self,
        origin: Origin,
        global_farm_id: FarmId,
        multiplier: FixedU128,
        amm: Option<AmmPoolInfo>,
        current_block: BlockNumber,
    ) -> (r: Result<FarmId, Error>)
        requires
            old(self).wf(),
            old(self).shares_consistent(),
        ensures
            final(self).wf(),
            final(self).shares_consistent(),
            final(self).same_config(*old(self)),
            match old(self).spec_update_yield_farm(
                origin,
                global_farm_id,
                multiplier,
                amm,
                current_block,
            ) {
                Err(e) => r == Err::<FarmId, _>(e) && *final(self) == *old(self),
                Ok((gi, yi, g4, yf3)) => r == Ok::<_, Error>(yf3.id)
                    && final(self).global_farms@ == old(self).global_farms@.update(gi, g4)
                    && final(self).yield_farms@ == old(self).yield_farms@.update(yi, yf3)
                    && final(self).deposits@ == old(self).deposits@
                    && final(self).farm_id_sequencer == old(self).farm_id_sequencer
                    && final(self).deposit_id_sequencer == old(self).deposit_id_sequencer,
            },
    {
        let who: AccountId = match origin {
            Origin::Signed(a) => a,
            Origin::Unsigned => {
                return Err(Error::BadOrigin);
            },
        };
        let pool: AmmPoolInfo = match amm {
            Some(p) => p,
            None => {
                return Err(Error::AmmPoolDoesNotExist);
            },
        };
        let gi: usize = match find_global(&self.global_farms, global_farm_id) {
            Some(i) => i,
            None => {
                return Err(Error::GlobalFarmNotFound);
            },
        };
        proof {
            let gic = choose|i: int|
                0 <= i < self.global_farms@.len() && self.global_farms@[i].id == global_farm_id;
            assert(gic == gi as int);
        }
        let g: GlobalFarm = self.global_farms[gi];
        let yi: usize = match find_yield_by_pool(&self.yield_farms, global_farm_id, pool.pool_id) {
            Some(i) => i,
            None => {
                return Err(Error::YieldFarmNotFound);
            },
        };
        proof {
            let yic = choose|j: int|
                0 <= j < self.yield_farms@.len() && live_pool_match(
                    self.yield_farms@[j],
                    global_farm_id,
                    pool.pool_id,
                );
            assert(yic == yi as int);
        }
        let yf: YieldFarm = self.yield_farms[yi];
        if g.owner != who {
            return Err(Error::Forbidden);
        }
        if !matches!(yf.state, FarmState::Active) {
            return Err(Error::LiquidityMiningIsNotActive);
        }
        if multiplier.inner == 0 {
            return Err(Error::InvalidMultiplier);
        }
        let period: Period = g.period_of(current_block);
        let g2: GlobalFarm = match global_synced(&g, period) {
            Ok(v) => v,
            Err(e) => {
                return Err(e);
            },
        };
        let (g3, yf2): (GlobalFarm, YieldFarm) = match yield_synced(&g2, &yf, period) {
            Ok(v) => v,
            Err(e) => {
                return Err(e);
            },
        };
        let old_stake: Balance = match yf2.stake_in_global() {
            Some(v) => v,
            None => {
                return Err(Error::Arithmetic);
            },
        };
        let new_stake: Balance = match multiplier.checked_mul_int(yf2.total_valued_shares) {
            Some(v) => v,
            None => {
                return Err(Error::Arithmetic);
            },
        };
        if g3.total_shares_z < old_stake {
            return Err(Error::Arithmetic);
        }
        let z2: Balance = match (g3.total_shares_z - old_stake).checked_add(new_stake) {
            Some(v) => v,
            None => {
                return Err(Error::Arithmetic);
            },
        };
        let g4: GlobalFarm = GlobalFarm { total_shares_z: z2, ..g3 };
        let yf3: YieldFarm = YieldFarm { multiplier, ..yf2 };
        let ghost pre = *self;
        self.global_farms[gi] = g4;
        self.yield_farms[yi] = yf3;
        proof {
            lemma_wf_pair_update(pre, *self, gi as int, yi as int, g4, yf3);
        }
        Ok(yf.id)
    }

    /// What `deposit_shares` does: the synced pair with the new stake added,
    /// the farm entry the new deposit starts with, and the new deposit's id;
    /// or the error and why. The valued shares are the raw shares scaled by
    /// the global farm's price adjustment.
    pub open spec fn spec_deposit_shares(
        self,
        origin: Origin,
        global_farm_id: FarmId,
        yield_farm_id: FarmId,
        shares_amount: Balance,
        amm: Option<AmmPoolInfo>,
        free_balance: Balance,
        current_block: BlockNumber,
    ) -> Result<(int, int, GlobalFarm, YieldFarm, FarmEntry, DepositId), Error> {
        let gs = self.global_farms@;
        let ys = self.yield_farms@;
        match origin {
            Origin::Unsigned => Err(Error::BadOrigin),
            Origin::Signed(who) => match amm {
                None => Err(Error::AmmPoolDoesNotExist),
                Some(pool) => {
                    if free_balance < shares_amount {
                        Err(Error::InsufficientAmmSharesBalance)
                    } else if !(exists|i: int| 0 <= i < gs.len() && gs[i].id == global_farm_id) {
                        Err(Error::GlobalFarmNotFound)
                    } else {
                        let gi = choose|i: int| 0 <= i < gs.len() && gs[i].id == global_farm_id;
                        let g = gs[gi];
                        if !(exists|j: int| 0 <= j < ys.len() && ys[j].id == yield_farm_id) {
                            Err(Error::YieldFarmNotFound)
                        } else {
                            let yi = choose|j: int| 0 <= j < ys.len() && ys[j].id == yield_farm_id;
                            let yf = ys[yi];
                            if yf.global_farm_id != global_farm_id || yf.amm_pool_id != pool.pool_id
                                || yf.is_deleted() {
                                Err(Error::YieldFarmNotFound)
                            } else if !yf.is_active() {
                                Err(Error::LiquidityMiningIsNotActive)
                            } else if shares_amount < g.min_deposit {
                                Err(Error::InvalidDepositAmount)
                            } else if self.deposit_id_sequencer == u128::MAX || yf.entries_count
                                == u64::MAX {
                                Err(Error::Arithmetic)
                            } else {
                                let period = g.spec_period_of(current_block);
                                match spec_global_synced(g, period) {
                                    Err(e) => Err(e),
                                    Ok(g2) => match spec_yield_synced(g2, yf, period) {
                                        Err(e) => Err(e),
                                        Ok((g3, yf2)) => match g.price_adjustment.spec_mul_int(
                                            shares_amount,
                                        ) {
                                            None => Err(Error::Arithmetic),
                                            Some(valued) => match yf.multiplier.spec_mul_int(
                                                valued,
                                            ) {
                                                None => Err(Error::Arithmetic),
                                                Some(stake) => {
                                                    if yf2.total_shares + shares_amount > u128::MAX
                                                        || yf2.total_valued_shares + valued
                                                        > u128::MAX || g3.total_shares_z + stake
                                                        > u128::MAX {
                                                        Err(Error::Arithmetic)
                                                    } else {
                                                        Ok(
                                                            (
                                                                gi,
                                                                yi,
                                                                GlobalFarm {
                                                                    total_shares_z: (
                                                                    g3.total_shares_z
                                                                        + stake) as Balance,
                                                                    ..g3
                                                                },
                                                                YieldFarm {
                                                                    total_shares: (yf2.total_shares
                                                                        + shares_amount) as Balance,
                                                                    total_valued_shares: (
                                                                    yf2.total_valued_shares
                                                                        + valued) as Balance,
                                                                    entries_count: (
                                                                    yf2.entries_count + 1) as u64,
                                                                    ..yf2
                                                                },
                                                                FarmEntry {
                                                                    global_farm_id,
                                                                    yield_farm_id,
                                                                    valued_shares: valued,
                                                                    accumulated_rpvs:
                                                                        yf2.accumulated_rpvs,
                                                                    accumulated_claimed_rewards: 0,
                                                                    entered_at: period,
                                                                    updated_at: period,
                                                                    stopped_at_creation: false,
                                                                },
                                                                (self.deposit_id_sequencer
                                                                    + 1) as DepositId,
                                                            ),
                                                        )
                                                    }
                                                },
                                            },
                                        },
                                    },
                                }
                            }
                        }
                    }
                },
            },
        }
    }

    /// Locks pool shares into an active yield farm, creating a new deposit
    /// with one farm entry. The caller locks the shares in the engine's
    /// custody account and mints the token that represents the deposit.
    ///
    /// Returns the new deposit's id.
    pub fn deposit_shares(
        &mut self,
        origin: Origin,
        global_farm_id: FarmId,
        yield_farm_id: FarmId,
        shares_amount: Balance,
        amm: Option<AmmPoolInfo>,
        free_balance: Balance,
        current_block: BlockNumber,
    ) -> (r: Result<DepositId, Error>)
        requires
            old(self).wf(),
            old(self).shares_consistent(),
        ensures
            final(self).wf(),
            final(self).shares_consistent(),
            final(self).same_config(*old(self)),
            match old(self).spec_deposit_shares(
                origin,
                global_farm_id,
                yield_farm_id,
                shares_amount,
                amm,
                free_balance,
                current_block,
            ) {
                Err(e) => r == Err::<DepositId, _>(e) && *final(self) == *old(self),
                Ok((gi, yi, g4, yf3, entry, did)) => r == Ok::<_, Error>(did)
                    && final(self).global_farms@ == old(self).global_farms@.update(gi, g4)
                    && final(self).yield_farms@ == old(self).yield_farms@.update(yi, yf3)
                    && final(self).deposits@.len() == old(self).deposits@.len() + 1
                    && final(self).deposits@.drop_last() =~= old(self).deposits@
                    && ({
                        let dep = final(self).deposits@.last();
                        dep.id == did && (match origin {
                            Origin::Signed(who) => dep.owner == who,
                            Origin::Unsigned => false,
                        }) && dep.shares == shares_amount && (match amm {
                            Some(pool) => dep.amm_pool_id == pool.pool_id,
                            None => false,
                        }) && dep.entries@.len() == 1 && dep.entries@[0] == entry
                    })
                    && final(self).farm_id_sequencer == old(self).farm_id_sequencer
                    && final(self).deposit_id_sequencer == old(self).deposit_id_sequencer + 1,
            },
    {
        let who: AccountId = match origin {
            Origin::Signed(a) => a,
            Origin::Unsigned => {
                return Err(Error::BadOrigin);
            },
        };
        let pool: AmmPoolInfo = match amm {
            Some(p) => p,
            None => {
                return Err(Error::AmmPoolDoesNotExist);
            },
        };
        if free_balance < shares_amount {
            return Err(Error::InsufficientAmmSharesBalance);
        }
        let gi: usize = match find_global(&self.global_farms, global_farm_id) {
            Some(i) => i,
            None => {
                return Err(Error::GlobalFarmNotFound);
            },
        };
        proof {
            let gic = choose|i: int|
                0 <= i < self.global_farms@.len() && self.global_farms@[i].id == global_farm_id;
            assert(gic == gi as int);
        }
        let g: GlobalFarm = self.global_farms[gi];
        let yi: usize = match find_yield_by_id(&self.yield_farms, yield_farm_id) {
            Some(i) => i,
            None => {
                return Err(Error::YieldFarmNotFound);
            },
        };
        proof {
            let yic = choose|j: int|
                0 <= j < self.yield_farms@.len() && self.yield_farms@[j].id == yield_farm_id;
            assert(yic == yi as int);
        }
        let yf: YieldFarm = self.yield_farms[yi];
        if yf.global_farm_id != global_farm_id || yf.amm_pool_id != pool.pool_id || matches!(
            yf.state,
            FarmState::Deleted,
        ) {
            return Err(Error::YieldFarmNotFound);
        }
        if !matches!(yf.state, FarmState::Active) {
            return Err(Error::LiquidityMiningIsNotActive);
        }
        if shares_amount < g.min_deposit {
            return Err(Error::InvalidDepositAmount);
        }
        if self.deposit_id_sequencer == u128::MAX || yf.entries_count == u64::MAX {
            return Err(Error::Arithmetic);
        }
        let period: Period = g.period_of(current_block);
        let g2: GlobalFarm = match global_synced(&g, period) {
            Ok(v) => v,
            Err(e) => {
                return Err(e);
            },
        };
        let (g3, yf2): (GlobalFarm, YieldFarm) = match yield_synced(&g2, &yf, period) {
            Ok(v) => v,
            Err(e) => {
                return Err(e);
            },
        };
        let valued: Balance = match g.price_adjustment.checked_mul_int(shares_amount) {
            Some(v) => v,
            None => {
                return Err(Error::Arithmetic);
            },
        };
        let stake: Balance = match yf.multiplier.checked_mul_int(valued) {
            Some(v) => v,
            None => {
                return Err(Error::Arithmetic);
            },
        };
        let total_shares: Balance = match yf2.total_shares.checked_add(shares_amount) {
            Some(v) => v,
            None => {
                return Err(Error::Arithmetic);
            },
        };
        let total_valued: Balance = match yf2.total_valued_shares.checked_add(valued) {
            Some(v) => v,
            None => {
                return Err(Error::Arithmetic);
            },
        };
        let z2: Balance = match g3.total_shares_z.checked_add(stake) {
            Some(v) => v,
            None => {
                return Err(Error::Arithmetic);
            },
        };
        let g4: GlobalFarm = GlobalFarm { total_shares_z: z2, ..g3 };
        let yf3: YieldFarm = YieldFarm {
            total_shares,
            total_valued_shares: total_valued,
            entries_count: yf2.entries_count + 1,
            ..yf2
        };
        let entry: FarmEntry = FarmEntry {
            global_farm_id,
            yield_farm_id,
            valued_shares: valued,
            accumulated_rpvs: yf2.accumulated_rpvs,
            accumulated_claimed_rewards: 0,
            entered_at: period,
            updated_at: period,
            stopped_at_creation: false,
        };
        let did: DepositId = self.deposit_id_sequencer + 1;
        let mut entries: Vec<FarmEntry> = Vec::new();
        entries.push(entry);
        let dep: Deposit = Deposit {
            id: did,
            owner: who,
            shares: shares_amount,
            amm_pool_id: pool.pool_id,
            entries,
        };
        let ghost pre = *self;
        self.global_farms[gi] = g4;
        self.yield_farms[yi] = yf3;
        proof {
            lemma_wf_pair_update(
                LiquidityMining { deposit_id_sequencer: pre.deposit_id_sequencer, ..pre },
                LiquidityMining { deposit_id_sequencer: pre.deposit_id_sequencer, ..*self },
                gi as int,
                yi as int,
                g4,
                yf3,
            );
        }
        self.deposit_id_sequencer = did;
        let ghost gdep = dep;
        self.deposits.push(dep);
        proof {
            assert(self.deposits@.drop_last() =~= pre.deposits@);
            assert(self.deposits@ == pre.deposits@.push(gdep));
            assert(gdep.entries@.len() == 1 && gdep.entries@[0] == entry);
            assert(gdep.entries@.drop_first() =~= Seq::<FarmEntry>::empty());
            // The new entry's stake lands in its farm's total and nowhere
            // else.
            assert forall|j: int| 0 <= j < self.yield_farms@.len() implies (
            #[trigger] self.yield_farms@[j]).total_valued_shares == valued_sum(
                self.deposits@,
                self.yield_farms@[j].id,
            ) && self.yield_farms@[j].entries_count == deposit_count_sum(
                self.deposits@,
                self.yield_farms@[j].id,
            ) by {
                let idj = self.yield_farms@[j].id;
                lemma_valued_sum_push(pre.deposits@, gdep, idj);
                assert(gdep.entries@.drop_first() =~= Seq::<FarmEntry>::empty());
                assert(entry_valued_sum(Seq::<FarmEntry>::empty(), idj) == 0);
                assert(entry_count_sum(Seq::<FarmEntry>::empty(), idj) == 0);
                assert(entry_valued_sum(gdep.entries@, idj) == entry_contrib(entry, idj));
                assert(entry_count_sum(gdep.entries@, idj) == entry_count_contrib(entry, idj));
                if j != yi as int {
                    assert(self.yield_farms@[j] == pre.yield_farms@[j]);
                    assert(self.yield_farms@[j].id != yield_farm_id);
                }
            }
            assert forall|i: int, k: int|
                0 <= i < self.deposits@.len() && 0 <= k < (
                #[trigger] self.deposits@[i]).entries@.len() implies (
            #[trigger] self.deposits@[i].entries@[k]).yield_farm_id
                <= self.farm_id_sequencer by {
                if i < pre.deposits@.len() {
                    assert(self.deposits@[i] == pre.deposits@[i]);
                } else {
                    assert(self.deposits@[i] == gdep);
                }
            }
        }
        Ok(did)
    }

    /// What `redeposit_lp_shares` does: a new farm entry over the deposit's
    /// existing shares in another yield farm serving the same pool; or the
    /// error and why. No tokens move; the entry count is bounded by the
    /// configured maximum and a farm may be entered only once per deposit.
    pub open spec fn spec_redeposit_lp_shares(
        self,
        origin: Origin,
        global_farm_id: FarmId,
        yield_farm_id: FarmId,
        deposit_id: DepositId,
        amm: Option<AmmPoolInfo>,
        current_block: BlockNumber,
    ) -> Result<(int, int, int, GlobalFarm, YieldFarm, FarmEntry, Balance), Error> {
        let gs = self.global_farms@;
        let ys = self.yield_farms@;
        let ds = self.deposits@;
        match origin {
            Origin::Unsigned => Err(Error::BadOrigin),
            Origin::Signed(who) => {
                if !(exists|i: int| 0 <= i < ds.len() && ds[i].id == deposit_id) {
                    Err(Error::CantFindDepositOwner)
                } else {
                    let di = choose|i: int| 0 <= i < ds.len() && ds[i].id == deposit_id;
                    let dep = ds[di];
                    if dep.owner != who {
                        Err(Error::NotDepositOwner)
                    } else {
                        match amm {
                            None => Err(Error::AmmPoolDoesNotExist),
                            Some(pool) => {
                                if !(exists|i: int|
                                    0 <= i < gs.len() && gs[i].id == global_farm_id) {
                                    Err(Error::GlobalFarmNotFound)
                                } else {
                                    let gi = choose|i: int|
                                        0 <= i < gs.len() && gs[i].id == global_farm_id;
                                    let g = gs[gi];
                                    if !(exists|j: int|
                                        0 <= j < ys.len() && ys[j].id == yield_farm_id) {
                                        Err(Error::YieldFarmNotFound)
                                    } else {
                                        let yi = choose|j: int|
                                            0 <= j < ys.len() && ys[j].id == yield_farm_id;
                                        let yf = ys[yi];
                                        if yf.global_farm_id != global_farm_id || yf.amm_pool_id
                                            != pool.pool_id || yf.amm_pool_id != dep.amm_pool_id
                                            || yf.is_deleted() {
                                            Err(Error::YieldFarmNotFound)
                                        } else if !yf.is_active() {
                                            Err(Error::LiquidityMiningIsNotActive)
                                        } else if dep.entries@.len()
                                            >= self.max_entries_per_deposit {
                                            Err(Error::MaxEntriesPerDeposit)
                                        } else if exists|k: int|
                                            0 <= k < dep.entries@.len()
                                                && dep.entries@[k].yield_farm_id == yield_farm_id {
                                            Err(Error::DoubleEntry)
                                        } else if yf.entries_count == u64::MAX {
                                            Err(Error::Arithmetic)
                                        } else {
                                            let period = g.spec_period_of(current_block);
                                            match spec_global_synced(g, period) {
                                                Err(e) => Err(e),
                                                Ok(g2) => match spec_yield_synced(g2, yf, period) {
                                                    Err(e) => Err(e),
                                                    Ok((g3, yf2)) => match g.price_adjustment.spec_mul_int(
                                                        dep.shares,
                                                    ) {
                                                        None => Err(Error::Arithmetic),
                                                        Some(valued) => match yf.multiplier.spec_mul_int(
                                                            valued,
                                                        ) {
                                                            None => Err(Error::Arithmetic),
                                                            Some(stake) => {
                                                                if yf2.total_shares + dep.shares
                                                                    > u128::MAX
                                                                    || yf2.total_valued_shares
                                                                    + valued > u128::MAX
                                                                    || g3.total_shares_z + stake
                                                                    > u128::MAX {
                                                                    Err(Error::Arithmetic)
                                                                } else {
                                                                    Ok(
                                                                        (
                                                                            gi,
                                                                            yi,
                                                                            di,
                                                                            GlobalFarm {
                                                                                total_shares_z: (
                                                                                g3.total_shares_z
                                                                                    + stake) as Balance,
                                                                                ..g3
                                                                            },
                                                                            YieldFarm {
                                                                                total_shares: (
                                                                                yf2.total_shares
                                                                                    + dep.shares) as Balance,
                                                                                total_valued_shares:
                                                                                    (
                                                                                yf2.total_valued_shares
                                                                                    + valued) as Balance,
                                                                                entries_count: (
                                                                                yf2.entries_count
                                                                                    + 1) as u64,
                                                                                ..yf2
                                                                            },
                                                                            FarmEntry {
                                                                                global_farm_id,
                                                                                yield_farm_id,
                                                                                valued_shares:
                                                                                    valued,
                                                                                accumulated_rpvs:
                                                                                    yf2.accumulated_rpvs,
                                                                                accumulated_claimed_rewards:
                                                                                    0,
                                                                                entered_at: period,
                                                                                updated_at: period,
                                                                                stopped_at_creation:
                                                                                    false,
                                                                            },
                                                                            dep.shares,
                                                                        ),
                                                                    )
                                                                }
                                                            },
                                                        },
                                                    },
                                                },
                                            }
                                        }
                                    }
                                }
                            },
                        }
                    }
                }
            },
        }
    }

    /// Adds a farm entry for an existing deposit's shares in a further
    /// yield farm serving the same pool, so one lock earns from several
    /// incentive programs at once. No tokens move.
    ///
    /// Returns the share amount the new entry covers.
    pub fn redeposit_lp_shares(
        &mut self,
        origin: Origin,
        global_farm_id: FarmId,
        yield_farm_id: FarmId,
        deposit_id: DepositId,
        amm: Option<AmmPoolInfo>,
        current_block: BlockNumber,
    ) -> (r: Result<Balance, Error>)
        requires
            old(self).wf(),
            old(self).shares_consistent(),
        ensures
            final(self).wf(),
            final(self).shares_consistent(),
            final(self).same_config(*old(self)),
            match old(self).spec_redeposit_lp_shares(
                origin,
                global_farm_id,
                yield_farm_id,
                deposit_id,
                amm,
                current_block,
            ) {
                Err(e) => r == Err::<Balance, _>(e) && *final(self) == *old(self),
                Ok((gi, yi, di, g4, yf3, entry, shares)) => r == Ok::<_, Error>(shares)
                    && final(self).global_farms@ == old(self).global_farms@.update(gi, g4)
                    && final(self).yield_farms@ == old(self).yield_farms@.update(yi, yf3)
                    && final(self).deposits@.len() == old(self).deposits@.len()
                    && (forall|k: int|
                        0 <= k < old(self).deposits@.len() && k != di ==> final(self).deposits@[k]
                            == old(self).deposits@[k])
                    && ({
                        let d0 = old(self).deposits@[di];
                        let d1 = final(self).deposits@[di];
                        d1.id == d0.id && d1.owner == d0.owner && d1.shares == d0.shares
                            && d1.amm_pool_id == d0.amm_pool_id && d1.entries@ == d0.entries@.push(
                            entry,
                        )
                    })
                    && final(self).farm_id_sequencer == old(self).farm_id_sequencer
                    && final(self).deposit_id_sequencer == old(self).deposit_id_sequencer,
            },
    {
        let who: AccountId = match origin {
            Origin::Signed(a) => a,
            Origin::Unsigned => {
                return Err(Error::BadOrigin);
            },
        };
        let di: usize = match find_deposit(&self.deposits, deposit_id) {
            Some(i) => i,
            None => {
                return Err(Error::CantFindDepositOwner);
            },
        };
        proof {
            let dic = choose|i: int|
                0 <= i < self.deposits@.len() && self.deposits@[i].id == deposit_id;
            assert(dic == di as int);
        }
        if self.deposits[di].owner != who {
            return Err(Error::NotDepositOwner);
        }
        let pool: AmmPoolInfo = match amm {
            Some(p) => p,
            None => {
                return Err(Error::AmmPoolDoesNotExist);
            },
        };
        let gi: usize = match find_global(&self.global_farms, global_farm_id) {
            Some(i) => i,
            None => {
                return Err(Error::GlobalFarmNotFound);
            },
        };
        proof {
            let gic = choose|i: int|
                0 <= i < self.global_farms@.len() && self.global_farms@[i].id == global_farm_id;
            assert(gic == gi as int);
        }
        let g: GlobalFarm = self.global_farms[gi];
        let yi: usize = match find_yield_by_id(&self.yield_farms, yield_farm_id) {
            Some(i) => i,
            None => {
                return Err(Error::YieldFarmNotFound);
            },
        };
        proof {
            let yic = choose|j: int|
                0 <= j < self.yield_farms@.len() && self.yield_farms@[j].id == yield_farm_id;
            assert(yic == yi as int);
        }
        let yf: YieldFarm = self.yield_farms[yi];
        let dep_shares: Balance = self.deposits[di].shares;
        let dep_pool: PoolId = self.deposits[di].amm_pool_id;
        if yf.global_farm_id != global_farm_id || yf.amm_pool_id != pool.pool_id || yf.amm_pool_id
            != dep_pool || matches!(yf.state, FarmState::Deleted) {
            return Err(Error::YieldFarmNotFound);
        }
        if !matches!(yf.state, FarmState::Active) {
            return Err(Error::LiquidityMiningIsNotActive);
        }
        if self.deposits[di].entries.len() >= self.max_entries_per_deposit as usize {
            return Err(Error::MaxEntriesPerDeposit);
        }
        match find_entry(&self.deposits[di].entries, yield_farm_id) {
            Some(_) => {
                return Err(Error::DoubleEntry);
            },
            None => {},
        };
        if yf.entries_count == u64::MAX {
            return Err(Error::Arithmetic);
        }
        let period: Period = g.period_of(current_block);
        let g2: GlobalFarm = match global_synced(&g, period) {
            Ok(v) => v,
            Err(e) => {
                return Err(e);
            },
        };
        let (g3, yf2): (GlobalFarm, YieldFarm) = match yield_synced(&g2, &yf, period) {
            Ok(v) => v,
            Err(e) => {
                return Err(e);
            },
        };
        let valued: Balance = match g.price_adjustment.checked_mul_int(dep_shares) {
            Some(v) => v,
            None => {
                return Err(Error::Arithmetic);
            },
        };
        let stake: Balance = match yf.multiplier.checked_mul_int(valued) {
            Some(v) => v,
            None => {
                return Err(Error::Arithmetic);
            },
        };
        let total_shares: Balance = match yf2.total_shares.checked_add(dep_shares) {
            Some(v) => v,
            None => {
                return Err(Error::Arithmetic);
            },
        };
        let total_valued: Balance = match yf2.total_valued_shares.checked_add(valued) {
            Some(v) => v,
            None => {
                return Err(Error::Arithmetic);
            },
        };
        let z2: Balance = match g3.total_shares_z.checked_add(stake) {
            Some(v) => v,
            None => {
                return Err(Error::Arithmetic);
            },
        };
        let g4: GlobalFarm = GlobalFarm { total_shares_z: z2, ..g3 };
        let yf3: YieldFarm = YieldFarm {
            total_shares,
            total_valued_shares: total_valued,
            entries_count: yf2.entries_count + 1,
            ..yf2
        };
        let entry: FarmEntry = FarmEntry {
            global_farm_id,
            yield_farm_id,
            valued_shares: valued,
            accumulated_rpvs: yf2.accumulated_rpvs,
            accumulated_claimed_rewards: 0,
            entered_at: period,
            updated_at: period,
            stopped_at_creation: false,
        };
        let ghost pre = *self;
        self.global_farms[gi] = g4;
        self.yield_farms[yi] = yf3;
        self.deposits[di].entries.push(entry);
        proof {
            lemma_wf_pair_update(
                LiquidityMining { deposits: pre.deposits, ..pre },
                LiquidityMining { deposits: pre.deposits, ..*self },
                gi as int,
                yi as int,
                g4,
                yf3,
            );
            let d2 = self.deposits@[di as int];
            assert(self.deposits@ =~= pre.deposits@.update(di as int, d2));
            assert(d2.entries@ == pre.deposits@[di as int].entries@.push(entry));
            // The redeposited stake lands in its farm's total and nowhere
            // else.
            assert forall|j: int| 0 <= j < self.yield_farms@.len() implies (
            #[trigger] self.yield_farms@[j]).total_valued_shares == valued_sum(
                self.deposits@,
                self.yield_farms@[j].id,
            ) && self.yield_farms@[j].entries_count == deposit_count_sum(
                self.deposits@,
                self.yield_farms@[j].id,
            ) by {
                let idj = self.yield_farms@[j].id;
                lemma_valued_sum_update(pre.deposits@, di as int, d2, idj);
                lemma_entry_valued_sum_push(pre.deposits@[di as int].entries@, entry, idj);
                if j != yi as int {
                    assert(self.yield_farms@[j] == pre.yield_farms@[j]);
                    assert(self.yield_farms@[j].id != yield_farm_id);
                }
            }
            assert forall|i: int, k: int|
                0 <= i < self.deposits@.len() && 0 <= k < (
                #[trigger] self.deposits@[i]).entries@.len() implies (
            #[trigger] self.deposits@[i].entries@[k]).yield_farm_id
                <= self.farm_id_sequencer by {
                if i != di as int {
                    assert(self.deposits@[i] == pre.deposits@[i]);
                } else if k < pre.deposits@[di as int].entries@.len() {
                    assert(self.deposits@[i].entries@[k] == pre.deposits@[i].entries@[k]);
                } else {
                    assert(self.deposits@[i].entries@[k] == entry);
                }
            }
        }
        Ok(dep_shares)
    }

    /// What `claim_rewards` does: the synced records, the settled entry, the
    /// amount paid and the amount the loyalty curve still withholds; or the
    /// error and why. Claiming is allowed only on an active farm and only
    /// once per period — a second claim in the same period fails.
    pub open spec fn spec_claim_rewards(
        self,
        origin: Origin,
        deposit_id: DepositId,
        yield_farm_id: FarmId,
        current_block: BlockNumber,
    ) -> Result<(int, int, int, int, GlobalFarm, YieldFarm, FarmEntry, Balance, Balance), Error> {
        let gs = self.global_farms@;
        let ys = self.yield_farms@;
        let ds = self.deposits@;
        match origin {
            Origin::Unsigned => Err(Error::BadOrigin),
            Origin::Signed(who) => {
                if !(exists|i: int| 0 <= i < ds.len() && ds[i].id == deposit_id) {
                    Err(Error::CantFindDepositOwner)
                } else {
                    let di = choose|i: int| 0 <= i < ds.len() && ds[i].id == deposit_id;
                    let dep = ds[di];
                    if dep.owner != who {
                        Err(Error::NotDepositOwner)
                    } else if !(exists|k: int|
                        0 <= k < dep.entries@.len() && dep.entries@[k].yield_farm_id
                            == yield_farm_id) {
                        Err(Error::YieldFarmEntryNotFound)
                    } else {
                        let ei = choose|k: int|
                            0 <= k < dep.entries@.len() && dep.entries@[k].yield_farm_id
                                == yield_farm_id;
                        let e = dep.entries@[ei];
                        if !(exists|j: int| 0 <= j < ys.len() && ys[j].id == yield_farm_id) {
                            Err(Error::YieldFarmNotFound)
                        } else {
                            let yi = choose|j: int| 0 <= j < ys.len() && ys[j].id == yield_farm_id;
                            let yf = ys[yi];
                            if !(exists|i: int| 0 <= i < gs.len() && gs[i].id == yf.global_farm_id) {
                                Err(Error::GlobalFarmNotFound)
                            } else {
                                let gi = choose|i: int|
                                    0 <= i < gs.len() && gs[i].id == yf.global_farm_id;
                                let g = gs[gi];
                                if !yf.is_active() {
                                    Err(Error::LiquidityMiningIsNotActive)
                                } else {
                                    let period = g.spec_period_of(current_block);
                                    if e.updated_at == period {
                                        Err(Error::DoubleClaim)
                                    } else {
                                        match spec_global_synced(g, period) {
                                            Err(er) => Err(er),
                                            Ok(g2) => match spec_yield_synced(g2, yf, period) {
                                                Err(er) => Err(er),
                                                Ok((g3, yf2)) => match spec_entry_rewards(
                                                    e,
                                                    yf2,
                                                    period,
                                                ) {
                                                    Err(er) => Err(er),
                                                    Ok((user, uncl)) => {
                                                        if yf2.left_to_distribute < user {
                                                            Err(Error::Arithmetic)
                                                        } else {
                                                            Ok(
                                                                (
                                                                    gi,
                                                                    yi,
                                                                    di,
                                                                    ei,
                                                                    GlobalFarm {
                                                                        paid_rewards: (
                                                                        g3.paid_rewards
                                                                            + user) as Balance,
                                                                        ..g3
                                                                    },
                                                                    YieldFarm {
                                                                        left_to_distribute: (
                                                                        yf2.left_to_distribute
                                                                            - user) as Balance,
                                                                        ..yf2
                                                                    },
                                                                    FarmEntry {
                                                                        accumulated_claimed_rewards:
                                                                            (
                                                                        e.accumulated_claimed_rewards
                                                                            + user) as Balance,
                                                                        updated_at: period,
                                                                        ..e
                                                                    },
                                                                    user,
                                                                    uncl,
                                                                ),
                                                            )
                                                        }
                                                    },
                                                },
                                            },
                                        }
                                    }
                                }
                            }
                        }
                    }
                }
            },
        }
    }

    /// Claims the deposit owner's accrued reward from one of the deposit's
    /// farm entries. The caller pays `claimed` out of the farm's custody
    /// account to the owner. Claiming twice in one period fails; what the
    /// loyalty curve withholds stays claimable later.
    ///
    /// Returns the global farm's id, the reward currency, the amount paid
    /// and the amount still unclaimable.
    pub fn claim_rewards(
        &mut self,
        origin: Origin,
        deposit_id: DepositId,
        yield_farm_id: FarmId,
        current_block: BlockNumber,
    ) -> (r: Result<(FarmId, AssetId, Balance, Balance), Error>)
        requires
            old(self).wf(),
            old(self).shares_consistent(),
        ensures
            final(self).wf(),
            final(self).shares_consistent(),
            final(self).same_config(*old(self)),
            match old(self).spec_claim_rewards(origin, deposit_id, yield_farm_id, current_block) {
                Err(e) => r == Err::<(FarmId, AssetId, Balance, Balance), _>(e) && *final(self)
                    == *old(self),
                Ok((gi, yi, di, ei, g4, yf3, e2, user, uncl)) => r == Ok::<_, Error>(
                    (g4.id, g4.reward_currency, user, uncl),
                )
                    && final(self).global_farms@ == old(self).global_farms@.update(gi, g4)
                    && final(self).yield_farms@ == old(self).yield_farms@.update(yi, yf3)
                    && final(self).deposits@.len() == old(self).deposits@.len()
                    && (forall|k: int|
                        0 <= k < old(self).deposits@.len() && k != di ==> final(self).deposits@[k]
                            == old(self).deposits@[k])
                    && ({
                        let d0 = old(self).deposits@[di];
                        let d1 = final(self).deposits@[di];
                        d1.id == d0.id && d1.owner == d0.owner && d1.shares == d0.shares
                            && d1.amm_pool_id == d0.amm_pool_id && d1.entries@
                            == d0.entries@.update(ei, e2)
                    })
                    && final(self).farm_id_sequencer == old(self).farm_id_sequencer
                    && final(self).deposit_id_sequencer == old(self).deposit_id_sequencer,
            },
    {
        let who: AccountId = match origin {
            Origin::Signed(a) => a,
            Origin::Unsigned => {
                return Err(Error::BadOrigin);
            },
        };
        let di: usize = match find_deposit(&self.deposits, deposit_id) {
            Some(i) => i,
            None => {
                return Err(Error::CantFindDepositOwner);
            },
        };
        proof {
            let dic = choose|i: int|
                0 <= i < self.deposits@.len() && self.deposits@[i].id == deposit_id;
            assert(dic == di as int);
        }
        if self.deposits[di].owner != who {
            return Err(Error::NotDepositOwner);
        }
        let ei: usize = match find_entry(&self.deposits[di].entries, yield_farm_id) {
            Some(i) => i,
            None => {
                return Err(Error::YieldFarmEntryNotFound);
            },
        };
        proof {
            let eic = choose|k: int|
                0 <= k < self.deposits@[di as int].entries@.len()
                    && self.deposits@[di as int].entries@[k].yield_farm_id == yield_farm_id;
            assert(eic == ei as int);
        }
        let e: FarmEntry = self.deposits[di].entries[ei];
        let yi: usize = match find_yield_by_id(&self.yield_farms, yield_farm_id) {
            Some(i) => i,
            None => {
                return Err(Error::YieldFarmNotFound);
            },
        };
        proof {
            let yic = choose|j: int|
                0 <= j < self.yield_farms@.len() && self.yield_farms@[j].id == yield_farm_id;
            assert(yic == yi as int);
        }
        let yf: YieldFarm = self.yield_farms[yi];
        let gi: usize = match find_global(&self.global_farms, yf.global_farm_id) {
            Some(i) => i,
            None => {
                return Err(Error::GlobalFarmNotFound);
            },
        };
        proof {
            let gic = choose|i: int|
                0 <= i < self.global_farms@.len() && self.global_farms@[i].id == yf.global_farm_id;
            assert(gic == gi as int);
        }
        let g: GlobalFarm = self.global_farms[gi];
        if !matches!(yf.state, FarmState::Active) {
            return Err(Error::LiquidityMiningIsNotActive);
        }
        let period: Period = g.period_of(current_block);
        if e.updated_at == period {
            return Err(Error::DoubleClaim);
        }
        let g2: GlobalFarm = match global_synced(&g, period) {
            Ok(v) => v,
            Err(er) => {
                return Err(er);
            },
        };
        let (g3, yf2): (GlobalFarm, YieldFarm) = match yield_synced(&g2, &yf, period) {
            Ok(v) => v,
            Err(er) => {
                return Err(er);
            },
        };
        let (user, uncl): (Balance, Balance) = match entry_rewards(&e, &yf2, period) {
            Ok(v) => v,
            Err(er) => {
                return Err(er);
            },
        };
        if yf2.left_to_distribute < user {
            return Err(Error::Arithmetic);
        }
        proof {
            // The pot is bounded by the farm's books, so paying out `user`
            // keeps `paid` under the fixed total budget.
            lemma_left_sum_at_least(self.yield_farms@, g.id, yi as int);
            lemma_left_sum_nonneg(self.yield_farms@, g.id);
            assert(g3.paid_rewards + user <= g.total_rewards);
            // What the entry has been paid in all never exceeds what it
            // accrued, which is a 128-bit value.
            crate::loyalty::lemma_loyalty_bounds_for(
                ((period - e.entered_at) as u64),
                yf2.loyalty_curve,
            );
            crate::fixed::lemma_mul_div_le_factor(
                crate::loyalty::loyalty_multiplier_spec(
                    ((period - e.entered_at) as u64),
                    yf2.loyalty_curve,
                ),
                (yf2.accumulated_rpvs.inner - e.accumulated_rpvs.inner) * e.valued_shares / (
                crate::fixed::FIXED_ONE as int),
                crate::fixed::FIXED_ONE as int,
            );
        }
        let g4: GlobalFarm = GlobalFarm { paid_rewards: g3.paid_rewards + user, ..g3 };
        let yf3: YieldFarm = YieldFarm { left_to_distribute: yf2.left_to_distribute - user, ..yf2 };
        let e2: FarmEntry = FarmEntry {
            accumulated_claimed_rewards: e.accumulated_claimed_rewards + user,
            updated_at: period,
            ..e
        };
        let ghost pre = *self;
        self.global_farms[gi] = g4;
        self.yield_farms[yi] = yf3;
        self.deposits[di].entries[ei] = e2;
        proof {
            lemma_wf_pair_update(
                LiquidityMining { deposits: pre.deposits, ..pre },
                LiquidityMining { deposits: pre.deposits, ..*self },
                gi as int,
                yi as int,
                g4,
                yf3,
            );
            // Settling an entry changes neither its farm nor its stake, so
            // the share census is untouched.
            let d2 = self.deposits@[di as int];
            assert(self.deposits@ =~= pre.deposits@.update(di as int, d2));
            assert(d2.entries@ == pre.deposits@[di as int].entries@.update(ei as int, e2));
            assert forall|j: int| 0 <= j < self.yield_farms@.len() implies (
            #[trigger] self.yield_farms@[j]).total_valued_shares == valued_sum(
                self.deposits@,
                self.yield_farms@[j].id,
            ) && self.yield_farms@[j].entries_count == deposit_count_sum(
                self.deposits@,
                self.yield_farms@[j].id,
            ) by {
                let idj = self.yield_farms@[j].id;
                lemma_valued_sum_update(pre.deposits@, di as int, d2, idj);
                lemma_entry_valued_sum_update(
                    pre.deposits@[di as int].entries@,
                    ei as int,
                    e2,
                    idj,
                );
                if j != yi as int {
                    assert(self.yield_farms@[j] == pre.yield_farms@[j]);
                }
            }
            assert forall|i: int, k: int|
                0 <= i < self.deposits@.len() && 0 <= k < (
                #[trigger] self.deposits@[i]).entries@.len() implies (
            #[trigger] self.deposits@[i].entries@[k]).yield_farm_id
                <= self.farm_id_sequencer by {
                if i != di as int {
                    assert(self.deposits@[i] == pre.deposits@[i]);
                } else if k != ei as int {
                    assert(self.deposits@[i].entries@[k] == pre.deposits@[i].entries@[k]);
                } else {
                    assert(self.deposits@[i].entries@[k] == e2);
                    assert(e2.yield_farm_id == pre.deposits@[i].entries@[k].yield_farm_id);
                }
            }
        }
        Ok((g.id, g.reward_currency, user, uncl))
    }

    /// What `withdraw_shares` does, or the error and why.
    ///
    /// Unless the yield farm is deleted, the withdrawal first settles the
    /// entry like a claim — without failing on a second claim in the same
    /// period, which simply pays zero — and returns the unclaimable part to
    /// the global farm's `remaining` bucket. The entry's stake then leaves
    /// the farm's totals, the entry leaves the deposit, a deleted farm that
    /// lost its last entry is purged with its pot returned, and a deposit
    /// that lost its last entry is destroyed.
    pub open spec fn spec_withdraw_shares(
        self,
        origin: Origin,
        deposit_id: DepositId,
        yield_farm_id: FarmId,
        amm_pool_exists: bool,
        current_block: BlockNumber,
    ) -> Result<
        (int, int, int, int, GlobalFarm, Option<YieldFarm>, WithdrawOutcome),
        Error,
    > {
        let gs = self.global_farms@;
        let ys = self.yield_farms@;
        let ds = self.deposits@;
        match origin {
            Origin::Unsigned => Err(Error::BadOrigin),
            Origin::Signed(who) => {
                if !(exists|i: int| 0 <= i < ds.len() && ds[i].id == deposit_id) {
                    Err(Error::CantFindDepositOwner)
                } else {
                    let di = choose|i: int| 0 <= i < ds.len() && ds[i].id == deposit_id;
                    let dep = ds[di];
                    if dep.owner != who {
                        Err(Error::NotDepositOwner)
                    } else if !(exists|k: int|
                        0 <= k < dep.entries@.len() && dep.entries@[k].yield_farm_id
                            == yield_farm_id) {
                        Err(Error::DepositDataNotFound)
                    } else {
                        let ei = choose|k: int|
                            0 <= k < dep.entries@.len() && dep.entries@[k].yield_farm_id
                                == yield_farm_id;
                        let e = dep.entries@[ei];
                        if !(exists|j: int| 0 <= j < ys.len() && ys[j].id == yield_farm_id) {
                            Err(Error::YieldFarmNotFound)
                        } else {
                            let yi = choose|j: int| 0 <= j < ys.len() && ys[j].id == yield_farm_id;
                            let yf = ys[yi];
                            if !(exists|i: int| 0 <= i < gs.len() && gs[i].id == yf.global_farm_id) {
                                Err(Error::GlobalFarmNotFound)
                            } else {
                                let gi = choose|i: int|
                                    0 <= i < gs.len() && gs[i].id == yf.global_farm_id;
                                let g = gs[gi];
                                let period = g.spec_period_of(current_block);
                                let step1 = self.spec_withdraw_settle(g, yf, e, period);
                                match step1 {
                                    Err(er) => Err(er),
                                    Ok((ga, yfa, user, uncl)) => {
                                        if yfa.total_shares < dep.shares
                                            || yfa.total_valued_shares < e.valued_shares
                                            || yfa.entries_count < 1 {
                                            Err(Error::Arithmetic)
                                        } else {
                                            let zres: Result<Balance, Error> = if yfa.is_active() {
                                                match yfa.multiplier.spec_mul_int(e.valued_shares) {
                                                    None => Err(Error::Arithmetic),
                                                    Some(stake) => {
                                                        if ga.total_shares_z < stake {
                                                            Err(Error::Arithmetic)
                                                        } else {
                                                            Ok(
                                                                (ga.total_shares_z
                                                                    - stake) as Balance,
                                                            )
                                                        }
                                                    },
                                                }
                                            } else {
                                                Ok(ga.total_shares_z)
                                            };
                                            match zres {
                                                Err(er) => Err(er),
                                                Ok(z2) => {
                                                    let yfb = YieldFarm {
                                                        total_shares: (yfa.total_shares
                                                            - dep.shares) as Balance,
                                                        total_valued_shares: (
                                                        yfa.total_valued_shares
                                                            - e.valued_shares) as Balance,
                                                        entries_count: (yfa.entries_count
                                                            - 1) as u64,
                                                        ..yfa
                                                    };
                                                    let gb = GlobalFarm {
                                                        total_shares_z: z2,
                                                        ..ga
                                                    };
                                                    let purged = yfb.is_deleted()
                                                        && yfb.entries_count == 0;
                                                    let gc = if purged {
                                                        GlobalFarm {
                                                            remaining_rewards: (gb.remaining_rewards
                                                                + yfb.left_to_distribute) as Balance,
                                                            total_yield_farms_count: (
                                                            gb.total_yield_farms_count - 1) as u32,
                                                            ..gb
                                                        }
                                                    } else {
                                                        gb
                                                    };
                                                    let destroyed = dep.entries@.len() == 1;
                                                    Ok(
                                                        (
                                                            gi,
                                                            yi,
                                                            di,
                                                            ei,
                                                            gc,
                                                            if purged {
                                                                None
                                                            } else {
                                                                Some(yfb)
                                                            },
                                                            WithdrawOutcome {
                                                                global_farm_id: g.id,
                                                                reward_currency: g.reward_currency,
                                                                claimed: user,
                                                                unclaimable: uncl,
                                                                withdrawn_amount: dep.shares,
                                                                deposit_destroyed: destroyed,
                                                                yield_farm_purged: purged,
                                                                lp_tokens_unlocked: destroyed
                                                                    && amm_pool_exists,
                                                            },
                                                        ),
                                                    )
                                                },
                                            }
                                        }
                                    },
                                }
                            }
                        }
                    }
                }
            },
        }
    }

    /// The settlement a withdrawal performs before the shares leave: the
    /// non-failing claim, and the return of the unclaimable part. A deleted
    /// farm settles nothing; a stopped farm settles against its frozen
    /// accumulator, so periods while stopped never pay.
    pub open spec fn spec_withdraw_settle(
        self,
        g: GlobalFarm,
        yf: YieldFarm,
        e: FarmEntry,
        period: Period,
    ) -> Result<(GlobalFarm, YieldFarm, Balance, Balance), Error> {
        if yf.is_deleted() {
            Ok((g, yf, 0, 0))
        } else {
            let sync: Result<(GlobalFarm, YieldFarm), Error> = if yf.is_active() {
                match spec_global_synced(g, period) {
                    Err(er) => Err(er),
                    Ok(g2) => spec_yield_synced(g2, yf, period),
                }
            } else {
                Ok((g, yf))
            };
            match sync {
                Err(er) => Err(er),
                Ok((g3, yf2)) => match spec_entry_rewards(e, yf2, period) {
                    Err(er) => Err(er),
                    Ok((user, uncl)) => {
                        if yf2.left_to_distribute < user + uncl {
                            Err(Error::Arithmetic)
                        } else {
                            Ok(
                                (
                                    GlobalFarm {
                                        remaining_rewards: (g3.remaining_rewards + uncl) as Balance,
                                        paid_rewards: (g3.paid_rewards + user) as Balance,
                                        ..g3
                                    },
                                    YieldFarm {
                                        left_to_distribute: (yf2.left_to_distribute - user
                                            - uncl) as Balance,
                                        ..yf2
                                    },
                                    user,
                                    uncl,
                                ),
                            )
                        }
                    },
                },
            }
        }
    }

    /// Withdraws a deposit's shares from one yield farm, with a non-failing
    /// claim first wherever the farm still exists. The caller pays
    /// `claimed` to the owner and, when `lp_tokens_unlocked`, returns the
    /// shares from custody; when the AMM pool is gone the shares cannot be
    /// returned and only the bookkeeping clears.
    #[verifier::rlimit(100)]
    pub fn withdraw_shares(
        &mut self,
        origin: Origin,
        deposit_id: DepositId,
        yield_farm_id: FarmId,
        amm_pool_exists: bool,
        current_block: BlockNumber,
    ) -> (r: Result<WithdrawOutcome, Error>)
        requires
            old(self).wf(),
            old(self).shares_consistent(),
        ensures
            final(self).wf(),
            final(self).shares_consistent(),
            final(self).same_config(*old(self)),
            match old(self).spec_withdraw_shares(
                origin,
                deposit_id,
                yield_farm_id,
                amm_pool_exists,
                current_block,
            ) {
                Err(e) => r == Err::<WithdrawOutcome, _>(e)
                    && *final(self) == *old(self),
                Ok((gi, yi, di, ei, gc, yfin, out)) => r == Ok::<_, Error>(out)
                    && final(self).global_farms@ == old(self).global_farms@.update(gi, gc)
                    && final(self).yield_farms@ == (match yfin {
                        Some(yfb) => old(self).yield_farms@.update(yi, yfb),
                        None => old(self).yield_farms@.remove(yi),
                    })
                    && (if out.deposit_destroyed {
                        final(self).deposits@ =~= old(self).deposits@.remove(di)
                    } else {
                        final(self).deposits@.len() == old(self).deposits@.len() && (forall|k: int|
                            0 <= k < old(self).deposits@.len() && k != di
                                ==> final(self).deposits@[k] == old(self).deposits@[k]) && ({
                            let d0 = old(self).deposits@[di];
                            let d1 = final(self).deposits@[di];
                            d1.id == d0.id && d1.owner == d0.owner && d1.shares == d0.shares
                                && d1.amm_pool_id == d0.amm_pool_id && d1.entries@
                                == d0.entries@.remove(ei)
                        })
                    })
                    && final(self).farm_id_sequencer == old(self).farm_id_sequencer
                    && final(self).deposit_id_sequencer == old(self).deposit_id_sequencer,
            },
    {
        let who: AccountId = match origin {
            Origin::Signed(a) => a,
            Origin::Unsigned => {
                return Err(Error::BadOrigin);
            },
        };
        let di: usize = match find_deposit(&self.deposits, deposit_id) {
            Some(i) => i,
            None => {
                return Err(Error::CantFindDepositOwner);
            },
        };
        proof {
            let dic = choose|i: int|
                0 <= i < self.deposits@.len() && self.deposits@[i].id == deposit_id;
            assert(dic == di as int);
        }
        if self.deposits[di].owner != who {
            return Err(Error::NotDepositOwner);
        }
        let ei: usize = match find_entry(&self.deposits[di].entries, yield_farm_id) {
            Some(i) => i,
            None => {
                return Err(Error::DepositDataNotFound);
            },
        };
        proof {
            let eic = choose|k: int|
                0 <= k < self.deposits@[di as int].entries@.len()
                    && self.deposits@[di as int].entries@[k].yield_farm_id == yield_farm_id;
            assert(eic == ei as int);
        }
        let e: FarmEntry = self.deposits[di].entries[ei];
        let dep_shares: Balance = self.deposits[di].shares;
        let dep_len: usize = self.deposits[di].entries.len();
        let yi: usize = match find_yield_by_id(&self.yield_farms, yield_farm_id) {
            Some(i) => i,
            None => {
                return Err(Error::YieldFarmNotFound);
            },
        };
        proof {
            let yic = choose|j: int|
                0 <= j < self.yield_farms@.len() && self.yield_farms@[j].id == yield_farm_id;
            assert(yic == yi as int);
        }
        let yf: YieldFarm = self.yield_farms[yi];
        let gi: usize = match find_global(&self.global_farms, yf.global_farm_id) {
            Some(i) => i,
            None => {
                return Err(Error::GlobalFarmNotFound);
            },
        };
        proof {
            let gic = choose|i: int|
                0 <= i < self.global_farms@.len() && self.global_farms@[i].id == yf.global_farm_id;
            assert(gic == gi as int);
        }
        let g: GlobalFarm = self.global_farms[gi];
        let period: Period = g.period_of(current_block);
        proof {
            lemma_left_sum_at_least(self.yield_farms@, g.id, yi as int);
            lemma_left_sum_nonneg(self.yield_farms@, g.id);
        }
        // Settlement: a non-failing claim plus the return of the
        // unclaimable part, staged into local records.
        let (ga, yfa, user, uncl): (GlobalFarm, YieldFarm, Balance, Balance) = if matches!(
            yf.state,
            FarmState::Deleted,
        ) {
            (g, yf, 0, 0)
        } else {
            let (g3, yf2): (GlobalFarm, YieldFarm) = if matches!(yf.state, FarmState::Active) {
                let g2: GlobalFarm = match global_synced(&g, period) {
                    Ok(v) => v,
                    Err(er) => {
                        return Err(er);
                    },
                };
                match yield_synced(&g2, &yf, period) {
                    Ok(v) => v,
                    Err(er) => {
                        return Err(er);
                    },
                }
            } else {
                (g, yf)
            };
            let (user, uncl): (Balance, Balance) = match entry_rewards(&e, &yf2, period) {
                Ok(v) => v,
                Err(er) => {
                    return Err(er);
                },
            };
            proof {
                // Paid plus withheld never exceeds the full accrual, a
                // 128-bit value, and both come out of the farm's pot.
                crate::loyalty::lemma_loyalty_bounds_for(
                    ((period - e.entered_at) as u64),
                    yf2.loyalty_curve,
                );
                crate::fixed::lemma_mul_div_le_factor(
                    crate::loyalty::loyalty_multiplier_spec(
                        ((period - e.entered_at) as u64),
                        yf2.loyalty_curve,
                    ),
                    (yf2.accumulated_rpvs.inner - e.accumulated_rpvs.inner) * e.valued_shares / (
                    crate::fixed::FIXED_ONE as int),
                    crate::fixed::FIXED_ONE as int,
                );
            }
            let owed: Balance = user + uncl;
            if yf2.left_to_distribute < owed {
                return Err(Error::Arithmetic);
            }
            proof {
                assert(farm_balanced(g, self.yield_farms@));
                assert(g3.remaining_rewards + g3.pending_rewards + g3.paid_rewards
                    + yf2.left_to_distribute <= g.total_rewards);
            }
            (
                GlobalFarm {
                    remaining_rewards: g3.remaining_rewards + uncl,
                    paid_rewards: g3.paid_rewards + user,
                    ..g3
                },
                YieldFarm { left_to_distribute: yf2.left_to_distribute - owed, ..yf2 },
                user,
                uncl,
            )
        };
        if yfa.total_shares < dep_shares || yfa.total_valued_shares < e.valued_shares
            || yfa.entries_count < 1 {
            return Err(Error::Arithmetic);
        }
        let z2: Balance = if matches!(yfa.state, FarmState::Active) {
            let stake: Balance = match yfa.multiplier.checked_mul_int(e.valued_shares) {
                Some(v) => v,
                None => {
                    return Err(Error::Arithmetic);
                },
            };
            if ga.total_shares_z < stake {
                return Err(Error::Arithmetic);
            }
            ga.total_shares_z - stake
        } else {
            ga.total_shares_z
        };
        let yfb: YieldFarm = YieldFarm {
            total_shares: yfa.total_shares - dep_shares,
            total_valued_shares: yfa.total_valued_shares - e.valued_shares,
            entries_count: yfa.entries_count - 1,
            ..yfa
        };
        let gb: GlobalFarm = GlobalFarm { total_shares_z: z2, ..ga };
        let purged: bool = matches!(yfb.state, FarmState::Deleted) && yfb.entries_count == 0;
        let gc: GlobalFarm = if purged {
            proof {
                assert(gb.remaining_rewards + yfb.left_to_distribute <= g.total_rewards);
                assert(count_yfs(self.yield_farms@, g.id) >= 1);
            }
            GlobalFarm {
                remaining_rewards: gb.remaining_rewards + yfb.left_to_distribute,
                total_yield_farms_count: gb.total_yield_farms_count - 1,
                ..gb
            }
        } else {
            gb
        };
        let destroyed: bool = dep_len == 1;
        let out: WithdrawOutcome = WithdrawOutcome {
            global_farm_id: g.id,
            reward_currency: g.reward_currency,
            claimed: user,
            unclaimable: uncl,
            withdrawn_amount: dep_shares,
            deposit_destroyed: destroyed,
            yield_farm_purged: purged,
            lp_tokens_unlocked: destroyed && amm_pool_exists,
        };
        // Commit.
        let ghost pre = *self;
        self.global_farms[gi] = gc;
        if purged {
            self.yield_farms.remove(yi);
            proof {
                let gs = pre.global_farms@;
                let ys = pre.yield_farms@;
                let rm = self.yield_farms@;
                assert forall|k: int| 0 <= k < gs.len() implies farm_balanced(
                    #[trigger] self.global_farms@[k],
                    self.yield_farms@,
                ) && self.global_farms@[k].total_yield_farms_count == count_yfs(
                    self.yield_farms@,
                    self.global_farms@[k].id,
                ) by {
                    lemma_sums_remove(ys, yi as int, gs[k].id);
                    if k != gi as int {
                        assert(self.global_farms@[k] == gs[k]);
                        assert(gs[k].id != g.id);
                        assert(yf_contrib(ys[yi as int], gs[k].id) == 0);
                    } else {
                        assert(self.global_farms@[k] == gc);
                    }
                }
                assert forall|i: int, j: int| 0 <= i < j < rm.len() implies rm[i].id != rm[j].id by {
                    let i0 = if i < yi as int {
                        i
                    } else {
                        i + 1
                    };
                    let j0 = if j < yi as int {
                        j
                    } else {
                        j + 1
                    };
                    assert(rm[i] == ys[i0] && rm[j] == ys[j0]);
                }
                assert forall|i: int| 0 <= i < rm.len() implies (#[trigger] rm[i]).wf() && rm[i].id
                    <= self.farm_id_sequencer && rm[i].global_farm_id
                    <= self.farm_id_sequencer by {
                    let i0 = if i < yi as int {
                        i
                    } else {
                        i + 1
                    };
                    assert(rm[i] == ys[i0]);
                }
                assert forall|i: int, j: int|
                    0 <= i < j < rm.len() && !(#[trigger] rm[i]).is_deleted() && !(
                #[trigger] rm[j]).is_deleted() implies !(rm[i].global_farm_id
                    == rm[j].global_farm_id && rm[i].amm_pool_id == rm[j].amm_pool_id) by {
                    let i0 = if i < yi as int {
                        i
                    } else {
                        i + 1
                    };
                    let j0 = if j < yi as int {
                        j
                    } else {
                        j + 1
                    };
                    assert(rm[i] == ys[i0] && rm[j] == ys[j0]);
                }
            }
        } else {
            self.yield_farms[yi] = yfb;
            proof {
                lemma_wf_pair_update(
                    LiquidityMining { deposits: pre.deposits, ..pre },
                    LiquidityMining { deposits: pre.deposits, ..*self },
                    gi as int,
                    yi as int,
                    gc,
                    yfb,
                );
            }
        }
        let ghost mid = *self;
        if destroyed {
            self.deposits.remove(di);
        } else {
            self.deposits[di].entries.remove(ei);
        }
        proof {
            lemma_wf_deposits_shrink(mid, *self, di as int, ei as int, destroyed);
            // The withdrawn entry leaves its farm's share total and the
            // deposit together, so the share census still balances.
            let es0 = pre.deposits@[di as int].entries@;
            assert(yfa.total_valued_shares == yf.total_valued_shares);
            assert forall|j: int| 0 <= j < self.yield_farms@.len() implies (
            #[trigger] self.yield_farms@[j]).total_valued_shares == valued_sum(
                self.deposits@,
                self.yield_farms@[j].id,
            ) && self.yield_farms@[j].entries_count == deposit_count_sum(
                self.deposits@,
                self.yield_farms@[j].id,
            ) by {
                let idj = self.yield_farms@[j].id;
                if destroyed {
                    lemma_valued_sum_remove(pre.deposits@, di as int, idj);
                    assert(es0.len() == 1 && es0[0] == e);
                    assert(es0.drop_first() =~= Seq::<FarmEntry>::empty());
                    assert(entry_valued_sum(Seq::<FarmEntry>::empty(), idj) == 0);
                    assert(entry_count_sum(Seq::<FarmEntry>::empty(), idj) == 0);
                    assert(entry_valued_sum(es0, idj) == entry_contrib(e, idj));
                    assert(entry_count_sum(es0, idj) == entry_count_contrib(e, idj));
                } else {
                    let d2 = self.deposits@[di as int];
                    assert(self.deposits@ =~= pre.deposits@.update(di as int, d2));
                    assert(d2.entries@ == es0.remove(ei as int));
                    lemma_valued_sum_update(pre.deposits@, di as int, d2, idj);
                    lemma_entry_valued_sum_remove(es0, ei as int, idj);
                }
                assert(valued_sum(self.deposits@, idj) == valued_sum(pre.deposits@, idj)
                    - entry_contrib(e, idj));
                assert(deposit_count_sum(self.deposits@, idj) == deposit_count_sum(
                    pre.deposits@,
                    idj,
                ) - entry_count_contrib(e, idj));
                if purged {
                    let j0 = if j < yi as int {
                        j
                    } else {
                        j + 1
                    };
                    assert(self.yield_farms@[j] == pre.yield_farms@[j0]);
                    assert(pre.yield_farms@[j0].id != yield_farm_id);
                    assert(entry_contrib(e, idj) == 0);
                    assert(entry_count_contrib(e, idj) == 0);
                } else {
                    if j != yi as int {
                        assert(self.yield_farms@[j] == pre.yield_farms@[j]);
                        assert(self.yield_farms@[j].id != yield_farm_id);
                        assert(entry_contrib(e, idj) == 0);
                        assert(entry_count_contrib(e, idj) == 0);
                    } else {
                        assert(self.yield_farms@[j] == yfb);
                        assert(entry_contrib(e, idj) == e.valued_shares);
                        assert(entry_count_contrib(e, idj) == 1);
                        assert(yfa.entries_count == yf.entries_count);
                    }
                }
            }
            assert forall|i: int, k: int|
                0 <= i < self.deposits@.len() && 0 <= k < (
                #[trigger] self.deposits@[i]).entries@.len() implies (
            #[trigger] self.deposits@[i].entries@[k]).yield_farm_id
                <= self.farm_id_sequencer by {
                let i0 = if destroyed && i >= di as int {
                    i + 1
                } else {
                    i
                };
                if i0 != di as int {
                    assert(self.deposits@[i].entries@[k] == pre.deposits@[i0].entries@[k]);
                } else {
                    let k0 = if k < ei as int {
                        k
                    } else {
                        k + 1
                    };
                    assert(self.deposits@[i].entries@[k] == pre.deposits@[i0].entries@[k0]);
                }
            }
        }
        Ok(out)
    }
}

/// Finds the index of the global farm with the given id.
pub(crate) fn find_global(farms: &Vec<GlobalFarm>, id: FarmId) -> (r: Option<usize>)
    ensures
        match r {
            Some(i) => i < farms@.len() && farms@[i as int].id == id,
            None => forall|j: int| 0 <= j < farms@.len() ==> farms@[j].id != id,
        },
{
    let mut i: usize = 0;
    while i < farms.len()
        invariant
            i <= farms@.len(),
            forall|j: int| 0 <= j < i ==> farms@[j].id != id,
        decreases farms@.len() - i,
    {
        if farms[i].id == id {
            return Some(i);
        }
        i = i + 1;
    }
    None
}

/// Finds the yield farm with the given id, whatever its state.
pub(crate) fn find_yield_by_id(yfs: &Vec<YieldFarm>, id: FarmId) -> (r: Option<usize>)
    ensures
        match r {
            Some(i) => i < yfs@.len() && yfs@[i as int].id == id,
            None => forall|j: int| 0 <= j < yfs@.len() ==> yfs@[j].id != id,
        },
{
    let mut i: usize = 0;
    while i < yfs.len()
        invariant
            i <= yfs@.len(),
            forall|j: int| 0 <= j < i ==> yfs@[j].id != id,
        decreases yfs@.len() - i,
    {
        if yfs[i].id == id {
            return Some(i);
        }
        i = i + 1;
    }
    None
}

/// Whether a record is the not-yet-deleted yield farm of `gid` for `pool`.
pub open spec fn live_pool_match(yf: YieldFarm, gid: FarmId, pool: PoolId) -> bool {
    yf.global_farm_id == gid && yf.amm_pool_id == pool && !yf.is_deleted()
}

/// Finds the not-yet-deleted yield farm a global farm runs for a pool.
pub(crate) fn find_yield_by_pool(yfs: &Vec<YieldFarm>, gid: FarmId, pool: PoolId) -> (r: Option<
    usize,
>)
    ensures
        match r {
            Some(i) => i < yfs@.len() && live_pool_match(yfs@[i as int], gid, pool),
            None => forall|j: int| 0 <= j < yfs@.len() ==> !live_pool_match(yfs@[j], gid, pool),
        },
{
    let mut i: usize = 0;
    while i < yfs.len()
        invariant
            i <= yfs@.len(),
            forall|j: int| 0 <= j < i ==> !live_pool_match(yfs@[j], gid, pool),
        decreases yfs@.len() - i,
    {
        if yfs[i].global_farm_id == gid && yfs[i].amm_pool_id == pool && !matches!(
            yfs[i].state,
            FarmState::Deleted,
        ) {
            return Some(i);
        }
        i = i + 1;
    }
    None
}

/// Finds the deposit with the given id.
pub(crate) fn find_deposit(deps: &Vec<Deposit>, id: DepositId) -> (r: Option<usize>)
    ensures
        match r {
            Some(i) => i < deps@.len() && deps@[i as int].id == id,
            None => forall|j: int| 0 <= j < deps@.len() ==> deps@[j].id != id,
        },
{
    let mut i: usize = 0;
    while i < deps.len()
        invariant
            i <= deps@.len(),
            forall|j: int| 0 <= j < i ==> deps@[j].id != id,
        decreases deps@.len() - i,
    {
        if deps[i].id == id {
            return Some(i);
        }
        i = i + 1;
    }
    None
}

/// Finds a deposit's entry for the given yield farm.
pub(crate) fn find_entry(entries: &Vec<FarmEntry>, yield_farm_id: FarmId) -> (r: Option<usize>)
    ensures
        match r {
            Some(i) => i < entries@.len() && entries@[i as int].yield_farm_id == yield_farm_id,
            None => forall|j: int|
                0 <= j < entries@.len() ==> entries@[j].yield_farm_id != yield_farm_id,
        },
{
    let mut i: usize = 0;
    while i < entries.len()
        invariant
            i <= entries@.len(),
            forall|j: int| 0 <= j < i ==> entries@[j].yield_farm_id != yield_farm_id,
        decreases entries@.len() - i,
    {
        if entries[i].yield_farm_id == yield_farm_id {
            return Some(i);
        }
        i = i + 1;
    }
    None
}

} // verus!
