//! The NFT escrow: a user deposits an NFT in exchange for another NFT that
//! a named user holds; that user can accept the swap, and the creator can
//! cancel it and take the NFT back.
pub mod contract;
pub mod laws;
