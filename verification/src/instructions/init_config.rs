//! Configuring staking for a collection that the program governs.
use vstd::prelude::*;

use crate::accounts::{decode_collection, decoded_collection, same_address, CollectionRecord};
use crate::errors::{InstructionError, StakingError};
use crate::state::Config;

verus! {

/// The bump seeds found for the addresses of a configuration.
#[derive(Debug, Clone, Copy)]
pub struct InitConfigBumps {
    pub prog_auth: u8,
    pub config: u8,
    pub rewards_mint: u8,
}

/// The configuration set up for a collection, or why it is refused: the
/// collection must decode and be updated by the program authority `prog_auth`.
pub open spec fn config_outcome(
    collection_record: Option<CollectionRecord>,
    prog_auth: Seq<u8>,
    points_per_stake: u32,
    freeze_period: u8,
    bumps: InitConfigBumps,
) -> Result<Config, InstructionError> {
    match collection_record {
        None => Err(InstructionError::AccountData),
        Some(c) => if c.update_authority@ != prog_auth {
            Err(InstructionError::Staking(StakingError::InvalidAuthority))
        } else {
            Ok(
                Config {
                    points_per_stake,
                    freeze_period,
                    rewards_bump: bumps.rewards_mint,
                    config_bump: bumps.config,
                },
            )
        },
    }
}

/// The accounts of a configuration, as the program reads them.
pub struct InitConfig {
    /// The program authority address derived for the collection.
    pub prog_auth: [u8; 32],
    /// The data of the collection account.
    pub collection_data: Vec<u8>,
}

impl InitConfig {
    /// The configuration set up, given the decoded collection.
    pub fn decide(
        &self,
        collection_record: Option<CollectionRecord>,
        points_per_stake: u32,
        freeze_period: u8,
        bumps: &InitConfigBumps,
    ) -> (r: Result<Config, InstructionError>)
        ensures
            r == config_outcome(collection_record, self.prog_auth@, points_per_stake, freeze_period, *bumps),
    {
        match collection_record {
            None => Err(InstructionError::AccountData),
            Some(c) => {
                if !same_address(&c.update_authority, &self.prog_auth) {
                    Err(InstructionError::Staking(StakingError::InvalidAuthority))
                } else {
                    Ok(
                        Config {
                            points_per_stake,
                            freeze_period,
                            rewards_bump: bumps.rewards_mint,
                            config_bump: bumps.config,
                        },
                    )
                }
            },
        }
    }

    /// The configuration to store for the collection, or why it is refused.
    pub fn init_config(&self, points_per_stake: u32, freeze_period: u8, bumps: &InitConfigBumps) -> (r: Result<
        Config,
        InstructionError,
    >)
        ensures
            r == config_outcome(
                decoded_collection(self.collection_data@),
                self.prog_auth@,
                points_per_stake,
                freeze_period,
                *bumps,
            ),
    {
        let collection_record = decode_collection(self.collection_data.as_slice());
        self.decide(collection_record, points_per_stake, freeze_period, bumps)
    }
}

} // verus!
