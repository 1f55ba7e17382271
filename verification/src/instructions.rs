//! The decisions of the program's instructions.
pub mod claim_rewards;
pub mod create_collection;
pub mod holder;
pub mod init_config;
pub mod mint_nft;
pub mod stake;
