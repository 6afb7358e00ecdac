//! Verified models of a collection of MultiversX smart contracts: the
//! on-chain claim streak contract, the multisig wallets, the mystery box,
//! the wager game, the NFT escrow and the pair mock.
//!
//! Each contract's storage is a plain Rust value, each endpoint a function
//! from that value, the transaction context and the arguments to a new value
//! and a result. A failing endpoint leaves the storage untouched, as the
//! blockchain reverts a failed transaction.
pub mod big_uint;
pub mod common;
pub mod game;
pub mod mystery_box;
pub mod mystery_box_v2;
pub mod nft_escrow;
pub mod multisig;
pub mod on_chain_claim;
pub mod pair_mock;
pub mod unordered_set;
