//! The second mystery box: each reward has an id of its own and a cooldown
//! of its own, which lets it be won a number of times per period, or a
//! number of times in all.
pub mod config;
pub mod contract;
pub mod laws;
pub mod rewards;
