//! The program's configuration account.
use vstd::prelude::*;

verus! {

/// The per-collection staking configuration.
#[derive(Debug, Clone, Copy, PartialEq, Eq, Structural)]
pub struct Config {
    /// Reward points minted per whole day that an asset stays staked.
    pub points_per_stake: u32,
    /// The freeze period chosen at configuration; claims do not consult it.
    pub freeze_period: u8,
    /// The bump seed of the rewards mint address.
    pub rewards_bump: u8,
    /// The bump seed of the configuration address.
    pub config_bump: u8,
}

} // verus!
