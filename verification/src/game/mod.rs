//! The wager game: a creator opens a game for a fee, players join by paying
//! the wager, and once the waiting time is over an admin hands out the pot
//! or, for a game that did not gather enough players, pays everybody back.
pub mod contract;
pub mod laws;
pub mod types;
