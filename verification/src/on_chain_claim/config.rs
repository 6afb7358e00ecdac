//! The rules of the claim contract on plain values: missed epochs, the
//! current season, and what a claim or a repair does to a record.
use vstd::prelude::*;
use super::address_info::AddressInfo;
use super::season_info::SeasonInfo;

verus! {

/// The largest number of missed epochs that `canBeRepaired` reports as repairable.
pub const MAX_REPAIR_GAP: u64 = 5;

pub const FIRST_SEASON_ID: u16 = 1;

pub const FIRST_SEASON_START_EPOCH: u64 = 1400;

/// The epochs strictly between the last claim and the current epoch.
pub open spec fn missed_epochs(current_epoch: u64, last_epoch_claimed: u64) -> u64 {
    if current_epoch <= last_epoch_claimed {
        0
    } else {
        (current_epoch - last_epoch_claimed - 1) as u64
    }
}

pub fn get_missed_epochs(current_epoch: u64, last_epoch_claimed: u64) -> (r: u64)
    ensures
        r == missed_epochs(current_epoch, last_epoch_claimed),
{
    if current_epoch <= last_epoch_claimed {
        return 0;
    }
    current_epoch - last_epoch_claimed - 1
}

/// The seasons as the contract keeps them: numbered 1, 2, ... in order, the
/// first starting at epoch 0, each starting after the previous one.
pub open spec fn seasons_wf(seasons: Seq<SeasonInfo>) -> bool {
    &&& seasons.len() >= 1
    &&& seasons.len() <= u16::MAX
    &&& seasons[0].start_epoch == 0
    &&& forall|i: int| 0 <= i < seasons.len() ==> #[trigger] seasons[i].id == i + 1
    &&& forall|i: int, j: int|
        0 <= i < j < seasons.len() ==> seasons[i].start_epoch < seasons[j].start_epoch
}

/// The current season: the last one if it has started, else the one before it.
pub open spec fn current_season(seasons: Seq<SeasonInfo>, epoch: u64) -> SeasonInfo {
    if seasons.last().start_epoch <= epoch {
        seasons.last()
    } else {
        seasons[seasons.len() - 2]
    }
}

pub fn get_current_season(seasons: &Vec<SeasonInfo>, epoch: u64) -> (r: SeasonInfo)
    requires
        seasons_wf(seasons@),
    ensures
        r == current_season(seasons@, epoch),
{
    let n = seasons.len();
    let last = seasons[n - 1];
    if last.start_epoch <= epoch {
        return last;
    }
    seasons[n - 2]
}

/// Whether a claim in `epoch` is accepted for this record.
pub open spec fn claim_allowed(info: AddressInfo, epoch: u64) -> bool {
    info.last_epoch_claimed < epoch
}

/// A record after a claim in `epoch`: the streak grows by one when the last
/// claim was in the epoch before, else restarts at one.
pub open spec fn claimed(info: AddressInfo, epoch: u64) -> AddressInfo {
    let streak: int = if info.last_epoch_claimed + 1 == epoch {
        info.current_streak + 1
    } else {
        1
    };
    AddressInfo {
        current_streak: streak as u64,
        last_epoch_claimed: epoch,
        total_epochs_claimed: (info.total_epochs_claimed + 1) as u64,
        best_streak: if info.best_streak < streak {
            streak as u64
        } else {
            info.best_streak
        },
    }
}

/// Whether the counters of `claimed(info, epoch)` fit in 64 bits.
pub open spec fn claim_fits(info: AddressInfo, epoch: u64) -> bool {
    &&& info.total_epochs_claimed < u64::MAX
    &&& (info.last_epoch_claimed + 1 == epoch ==> info.current_streak < u64::MAX)
}

/// Whether `claimAndRepair` in `epoch` is accepted for this record: at least
/// one epoch was missed, and at most `MAX_REPAIR_GAP + 1`.
pub open spec fn repair_allowed(info: AddressInfo, epoch: u64) -> bool {
    let missed = missed_epochs(epoch, info.last_epoch_claimed);
    0 < missed && missed <= MAX_REPAIR_GAP + 1
}

/// A record after a repair in `epoch`: the missed epochs and the current one
/// count as claimed.
pub open spec fn repaired(info: AddressInfo, epoch: u64) -> AddressInfo {
    let gained: int = missed_epochs(epoch, info.last_epoch_claimed) + 1;
    let streak: int = info.current_streak + gained;
    AddressInfo {
        current_streak: streak as u64,
        last_epoch_claimed: epoch,
        total_epochs_claimed: (info.total_epochs_claimed + gained) as u64,
        best_streak: if info.best_streak < streak {
            streak as u64
        } else {
            info.best_streak
        },
    }
}

/// Whether the counters of `repaired(info, epoch)` fit in 64 bits.
pub open spec fn repair_fits(info: AddressInfo, epoch: u64) -> bool {
    let gained: int = missed_epochs(epoch, info.last_epoch_claimed) + 1;
    &&& info.current_streak + gained <= u64::MAX
    &&& info.total_epochs_claimed + gained <= u64::MAX
}

/// What the `canBeRepaired` view answers for a record: the address has
/// claimed before, and missed between 1 and `MAX_REPAIR_GAP` epochs.
pub open spec fn repairable(info: AddressInfo, epoch: u64) -> bool {
    let missed = missed_epochs(epoch, info.last_epoch_claimed);
    info.total_epochs_claimed != 0 && 0 < missed && missed <= MAX_REPAIR_GAP
}

} // verus!
