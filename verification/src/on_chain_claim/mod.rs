//! The on-chain claim contract: users claim once per epoch and keep a
//! streak of consecutive epochs, which they may repair for a fee.
pub mod address_info;
pub mod config;
pub mod contract;
pub mod laws;
pub mod season_info;
