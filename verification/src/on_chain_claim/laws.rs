//! What the claim contract promises across calls, proved over the
//! transition functions that its endpoints' contracts state.
use vstd::prelude::*;
use crate::common::{PaymentView, TxContext};
use super::address_info::{first_claim, AddressInfo};
use super::season_info::SeasonInfo;
use super::config::{
    claim_allowed, claim_fits, claimed, current_season, missed_epochs, repair_allowed,
    repair_fits, repairable, repaired, seasons_wf,
};
use super::contract::{
    claim_and_repair_outcome, claim_outcome, claim_state_wf, info_at, info_by_season,
    lemma_season_key_injective, season_key, ClaimError,
};

verus! {

/// A record that claims have produced: a streak of at least one, no longer
/// than the best streak nor than the number of epochs claimed.
pub open spec fn consistent(info: AddressInfo) -> bool {
    &&& 1 <= info.current_streak
    &&& info.current_streak <= info.best_streak
    &&& info.current_streak <= info.total_epochs_claimed
}

/// A first claim gives a consistent record.
pub proof fn lemma_first_claim_consistent(epoch: u64)
    ensures
        consistent(first_claim(epoch)),
{
}

/// A claim keeps a record consistent, counts one more epoch, moves the last
/// claimed epoch to the current one, and never lowers the best streak, which
/// is the larger of the old best and the new streak.
pub proof fn lemma_claim_keeps_record_consistent(info: AddressInfo, epoch: u64)
    requires
        consistent(info),
        claim_allowed(info, epoch),
        claim_fits(info, epoch),
    ensures
        consistent(claimed(info, epoch)),
        claimed(info, epoch).total_epochs_claimed == info.total_epochs_claimed + 1,
        claimed(info, epoch).last_epoch_claimed == epoch,
        claimed(info, epoch).best_streak >= info.best_streak,
        claimed(info, epoch).best_streak >= claimed(info, epoch).current_streak,
{
}

/// A repair keeps a record consistent and never lowers the best streak.
pub proof fn lemma_repair_keeps_record_consistent(info: AddressInfo, epoch: u64)
    requires
        consistent(info),
        repair_allowed(info, epoch),
        repair_fits(info, epoch),
    ensures
        consistent(repaired(info, epoch)),
        repaired(info, epoch).last_epoch_claimed == epoch,
        repaired(info, epoch).best_streak >= info.best_streak,
{
}

/// A claim in the epoch right after the last claim extends the streak by
/// one; a claim after a gap restarts it at one.
pub proof fn lemma_streak_extends_or_restarts(info: AddressInfo, epoch: u64)
    requires
        claim_allowed(info, epoch),
        claim_fits(info, epoch),
    ensures
        info.last_epoch_claimed + 1 == epoch ==> claimed(info, epoch).current_streak
            == info.current_streak + 1,
        info.last_epoch_claimed + 1 < epoch ==> claimed(info, epoch).current_streak == 1,
{
}

/// The record after claiming in each of the `n` epochs that follow the last
/// claim, one after the other.
pub open spec fn claims_run(info: AddressInfo, n: nat) -> AddressInfo
    decreases n,
{
    if n == 0 {
        info
    } else {
        claimed(claims_run(info, (n - 1) as nat), (info.last_epoch_claimed + n) as u64)
    }
}

proof fn lemma_claims_run_shape(info: AddressInfo, n: nat)
    requires
        info.last_epoch_claimed + n <= u64::MAX,
        info.current_streak + n <= u64::MAX,
        info.total_epochs_claimed + n <= u64::MAX,
    ensures
        n >= 1 ==> claims_run(info, n) == (AddressInfo {
            current_streak: (info.current_streak + n) as u64,
            last_epoch_claimed: (info.last_epoch_claimed + n) as u64,
            total_epochs_claimed: (info.total_epochs_claimed + n) as u64,
            best_streak: if info.best_streak < info.current_streak + n {
                (info.current_streak + n) as u64
            } else {
                info.best_streak
            },
        }),
        n == 0 ==> claims_run(info, n) == info,
    decreases n,
{
    if n >= 1 {
        lemma_claims_run_shape(info, (n - 1) as nat);
    }
}

/// Repairing a streak gives the record the user would have had by claiming
/// in every missed epoch and in the current one.
pub proof fn lemma_repair_equals_claiming_every_missed_epoch(info: AddressInfo, epoch: u64)
    requires
        repair_allowed(info, epoch),
        repair_fits(info, epoch),
    ensures
        repaired(info, epoch) == claims_run(
            info,
            (missed_epochs(epoch, info.last_epoch_claimed) + 1) as nat,
        ),
{
    let n = (missed_epochs(epoch, info.last_epoch_claimed) + 1) as nat;
    lemma_claims_run_shape(info, n);
}

/// A user who has just claimed cannot claim again in the same epoch.
pub proof fn lemma_second_claim_in_epoch_refused(s: super::contract::ClaimState, ctx: TxContext)
    requires
        claim_state_wf(s),
        claim_outcome(s, ctx) is Ok,
    ensures
        claim_outcome(claim_outcome(s, ctx)->Ok_0, ctx) == Err::<
            super::contract::ClaimState,
            ClaimError,
        >(ClaimError::EpochAlreadyClaimed),
{
}

/// A claim changes no other address's record, in any season.
pub proof fn lemma_claim_leaves_others_unchanged(
    s: super::contract::ClaimState,
    ctx: TxContext,
    other: u64,
    season_id: u16,
)
    requires
        claim_state_wf(s),
        claim_outcome(s, ctx) is Ok,
        other != ctx.caller,
    ensures
        info_by_season(claim_outcome(s, ctx)->Ok_0, other, season_id) == info_by_season(
            s,
            other,
            season_id,
        ),
{
    let id = current_season(s.seasons, ctx.block_epoch).id;
    lemma_season_key_injective(ctx.caller, id, other, season_id);
}

/// After a repair in the first season, for an address whose first-season
/// record is the one kept from before seasons, the address is no longer
/// repairable in that epoch and cannot claim again in it.
pub proof fn lemma_repair_closes_the_epoch(
    s: super::contract::ClaimState,
    ctx: TxContext,
    payment: PaymentView,
)
    requires
        claim_state_wf(s),
        claim_and_repair_outcome(s, ctx, payment) is Ok,
        current_season(s.seasons, ctx.block_epoch).id == 1,
        !s.address_info_by_season.contains_key(season_key(ctx.caller, 1)),
    ensures
        ({
            let s2 = claim_and_repair_outcome(s, ctx, payment)->Ok_0;
            &&& !repairable(info_at(s2, ctx.caller, ctx.block_epoch), ctx.block_epoch)
            &&& info_at(s2, ctx.caller, ctx.block_epoch).last_epoch_claimed == ctx.block_epoch
            &&& claim_outcome(s2, ctx) is Err
        }),
{
}


/// The current season is the latest season that has started: it has
/// started, and no season after it in the list has. This holds whenever
/// every season but the last has started, which adding seasons keeps, since
/// a new season must start after the epoch in which it is added.
pub proof fn lemma_current_season_is_latest_started(seasons: Seq<SeasonInfo>, epoch: u64)
    requires
        seasons_wf(seasons),
        forall|i: int| 0 <= i < seasons.len() - 1 ==> #[trigger] seasons[i].start_epoch <= epoch,
    ensures
        exists|k: int|
            0 <= k < seasons.len() && current_season(seasons, epoch) == #[trigger] seasons[k]
                && seasons[k].start_epoch <= epoch && forall|j: int|
                k < j < seasons.len() ==> #[trigger] seasons[j].start_epoch > epoch,
{
    let n = seasons.len() as int;
    if seasons[n - 1].start_epoch <= epoch {
        assert(current_season(seasons, epoch) == seasons[n - 1]);
    } else {
        assert(n >= 2);
        assert(seasons[n - 2].start_epoch <= epoch);
        assert(current_season(seasons, epoch) == seasons[n - 2]);
        assert forall|j: int| n - 2 < j < n implies #[trigger] seasons[j].start_epoch > epoch by {
            assert(j == n - 1);
        }
    }
}

/// A season that has not started yet is never the current one once the
/// season before it has started; in particular the season added last is
/// current exactly from its start epoch on.
pub proof fn lemma_last_season_current_from_its_start(seasons: Seq<SeasonInfo>, epoch: u64)
    requires
        seasons_wf(seasons),
    ensures
        (current_season(seasons, epoch) == seasons.last()) <==> (seasons.last().start_epoch <= epoch),
        current_season(seasons, epoch).start_epoch > epoch ==> seasons.len() >= 2
            && current_season(seasons, epoch) == seasons[seasons.len() - 2],
{
    let n = seasons.len() as int;
    if n >= 2 && seasons[n - 1].start_epoch > epoch {
        assert(seasons[n - 2].start_epoch < seasons[n - 1].start_epoch);
        assert(seasons[n - 2] != seasons[n - 1]);
    }
}

} // verus!
