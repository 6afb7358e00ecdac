//! What the contract records of each address.
use vstd::prelude::*;

verus! {

/// The claim record of one address.
#[derive(Clone, Copy, Debug, PartialEq, Eq, Structural)]
pub struct AddressInfo {
    pub current_streak: u64,
    pub last_epoch_claimed: u64,
    pub total_epochs_claimed: u64,
    pub best_streak: u64,
}

/// The record of an address whose first claim is in `epoch`.
pub open spec fn first_claim(epoch: u64) -> AddressInfo {
    AddressInfo {
        current_streak: 1,
        last_epoch_claimed: epoch,
        total_epochs_claimed: 1,
        best_streak: 1,
    }
}

/// The record of an address that has never claimed.
pub open spec fn empty_info() -> AddressInfo {
    AddressInfo {
        current_streak: 0,
        last_epoch_claimed: 0,
        total_epochs_claimed: 0,
        best_streak: 0,
    }
}

impl AddressInfo {
    pub fn new(
        current_streak: u64,
        last_epoch_claimed: u64,
        total_epochs_claimed: u64,
        best_streak: u64,
    ) -> (r: Self)
        ensures
            r == (AddressInfo {
                current_streak,
                last_epoch_claimed,
                total_epochs_claimed,
                best_streak,
            }),
    {
        AddressInfo { current_streak, last_epoch_claimed, total_epochs_claimed, best_streak }
    }

    pub fn new_with_epoch(current_epoch: u64) -> (r: Self)
        ensures
            r == first_claim(current_epoch),
    {
        AddressInfo {
            current_streak: 1,
            last_epoch_claimed: current_epoch,
            total_epochs_claimed: 1,
            best_streak: 1,
        }
    }
}

impl Default for AddressInfo {
    fn default() -> (r: Self)
        ensures
            r == empty_info(),
    {
        AddressInfo {
            current_streak: 0,
            last_epoch_claimed: 0,
            total_epochs_claimed: 0,
            best_streak: 0,
        }
    }
}

} // verus!
