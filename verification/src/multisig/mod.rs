//! The multisig wallet: board members and proposers propose actions, board
//! members sign them, and an action runs once enough board members signed.
pub mod action;
pub mod check_signature;
pub mod contract;
pub mod direct_sign;
pub mod discard;
pub mod error;
pub mod external_module;
pub mod laws;
pub mod perform;
pub mod propose;
pub mod sign;
pub mod signature;
pub mod state;
pub mod user_role;
pub mod views;
