//! The account checks that staking and claiming both make first.
use vstd::prelude::*;

use crate::accounts::{
    decode_asset, decode_collection, decoded_asset, decoded_collection, same_address, AssetAuthority,
    AssetRecord, CollectionRecord,
};
use crate::errors::{InstructionError, StakingError};

verus! {

/// Whether the asset `asset` is updated through the collection `collection`.
pub open spec fn governed_by(asset: AssetRecord, collection: Seq<u8>) -> bool {
    match asset.update_authority {
        AssetAuthority::Collection(c) => c@ == collection,
        _ => false,
    }
}

/// The outcome of the checks on a holder's asset: the asset must decode and be
/// owned by `holder` and governed by the collection `collection`, and the
/// collection must decode and be updated by the program authority `prog_auth`.
pub open spec fn holder_check(
    asset: Option<AssetRecord>,
    collection_record: Option<CollectionRecord>,
    holder: Seq<u8>,
    collection: Seq<u8>,
    prog_auth: Seq<u8>,
) -> Result<(), InstructionError> {
    match asset {
        None => Err(InstructionError::AccountData),
        Some(a) => if a.owner@ != holder {
            Err(InstructionError::Staking(StakingError::InvalidOwner))
        } else if !governed_by(a, collection) {
            Err(InstructionError::Staking(StakingError::InvalidAuthority))
        } else {
            match collection_record {
                None => Err(InstructionError::AccountData),
                Some(c) => if c.update_authority@ != prog_auth {
                    Err(InstructionError::Staking(StakingError::InvalidAuthority))
                } else {
                    Ok(())
                },
            }
        },
    }
}

/// Checks that `holder` owns the asset, that the asset belongs to the
/// collection `collection`, and that the program authority `prog_auth` updates
/// the collection.
pub fn check_holder(
    asset: &Option<AssetRecord>,
    collection_record: &Option<CollectionRecord>,
    holder: &[u8; 32],
    collection: &[u8; 32],
    prog_auth: &[u8; 32],
) -> (r: Result<(), InstructionError>)
    ensures
        r == holder_check(*asset, *collection_record, holder@, collection@, prog_auth@),
{
    let a = match asset {
        None => {
            return Err(InstructionError::AccountData);
        },
        Some(a) => a,
    };
    if !same_address(&a.owner, holder) {
        return Err(InstructionError::Staking(StakingError::InvalidOwner));
    }
    let governed = match &a.update_authority {
        AssetAuthority::Collection(c) => same_address(c, collection),
        _ => false,
    };
    if !governed {
        return Err(InstructionError::Staking(StakingError::InvalidAuthority));
    }
    match collection_record {
        None => Err(InstructionError::AccountData),
        Some(c) => {
            if !same_address(&c.update_authority, prog_auth) {
                Err(InstructionError::Staking(StakingError::InvalidAuthority))
            } else {
                Ok(())
            }
        },
    }
}

/// Decodes the asset and collection account data and makes the holder checks
/// on them.
pub fn check_holder_accounts(
    asset_data: &[u8],
    collection_data: &[u8],
    holder: &[u8; 32],
    collection: &[u8; 32],
    prog_auth: &[u8; 32],
) -> (r: Result<(), InstructionError>)
    ensures
        r == holder_check(
            decoded_asset(asset_data@),
            decoded_collection(collection_data@),
            holder@,
            collection@,
            prog_auth@,
        ),
{
    let asset = decode_asset(asset_data);
    let collection_record = decode_collection(collection_data);
    check_holder(&asset, &collection_record, holder, collection, prog_auth)
}

} // verus!
