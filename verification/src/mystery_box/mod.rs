//! The mystery box: admins mint boxes, semi-fungible tokens whose
//! attributes list the rewards they may hold with their chances; a user who
//! opens a box burns it and wins one of the rewards, drawn at random, among
//! those not held back by a cooldown.
pub mod config;
pub mod contract;
pub mod laws;
pub mod rewards;
