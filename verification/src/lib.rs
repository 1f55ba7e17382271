//! Verified decision logic of an NFT staking program for Metaplex Core
//! collections: who may stake an asset, how staking and claiming rewrite the
//! asset's attributes, what a claim earns, and how a collection counts stakes.
//! Account decoding is done by `mpl_core`; the cross-program invocations that
//! carry out the decisions stand outside this library.
pub mod accounts;
pub mod attributes;
pub mod chars;
pub mod errors;
pub mod instructions;
pub mod laws;
pub mod state;
pub mod text;
