//! The seasons of the claim contract.
use vstd::prelude::*;

verus! {

/// A season, numbered from 1, and the epoch at which it starts.
#[derive(Clone, Copy, Debug, PartialEq, Eq, Structural)]
pub struct SeasonInfo {
    pub id: u16,
    pub start_epoch: u64,
}

impl SeasonInfo {
    pub fn new(id: u16, start_epoch: u64) -> (r: Self)
        ensures
            r == (SeasonInfo { id, start_epoch }),
    {
        SeasonInfo { id, start_epoch }
    }
}

} // verus!
