//! Minting an asset into a collection that the program governs.
use vstd::prelude::*;

use crate::accounts::{
    asset_fetch_stays_inside, asset_lookup_in_bounds, burn_delegate_found, has_burn_delegate, PluginKind,
};

verus! {

/// The asset to create: its name and uri, paid for by the payer and owned by
/// them, in the collection, created under the program authority's signature,
/// with no update authority of its own (`None`), so that the collection
/// governs it.
#[derive(Debug)]
pub struct AssetPlan {
    pub name: String,
    pub uri: String,
    pub payer: [u8; 32],
    pub owner: [u8; 32],
    pub collection: [u8; 32],
    pub authority: [u8; 32],
    pub update_authority: Option<[u8; 32]>,
}

/// The accounts and signers of a mint, as the program reads them.
pub struct Mint {
    /// The signer who pays for and receives the asset.
    pub payer: [u8; 32],
    /// The collection address.
    pub collection: [u8; 32],
    /// The program authority address derived for the collection.
    pub prog_auth: [u8; 32],
    /// The program that owns the asset account once it is created.
    pub asset_account_owner: [u8; 32],
}

impl Mint {
    /// The asset to create with `name` and `uri`.
    pub fn mint_nft(&self, name: String, uri: String) -> (p: AssetPlan)
        ensures
            p.name@ == name@,
            p.uri@ == uri@,
            p.payer@ == self.payer@,
            p.owner@ == self.payer@,
            p.collection@ == self.collection@,
            p.authority@ == self.prog_auth@,
            p.update_authority is None,
    {
        AssetPlan {
            name,
            uri,
            payer: self.payer,
            owner: self.payer,
            collection: self.collection,
            authority: self.prog_auth,
            update_authority: None,
        }
    }

    /// Whether looking for the BurnDelegate plugin on the created asset's data
    /// `asset_data` aborts, slicing the data past its end.
    pub open spec fn aborts(&self, asset_data: Seq<u8>) -> bool {
        !asset_fetch_stays_inside(asset_data, self.asset_account_owner@, PluginKind::BurnDelegate)
    }

    /// After the asset is created with the account data `asset_data`: `None`
    /// where looking for its BurnDelegate plugin aborts; otherwise the
    /// authority that adds that plugin (the payer), or no authority when the
    /// asset already has one.
    pub fn checked_burn_delegate_authority(&self, asset_data: &Vec<u8>) -> (r: Option<Option<[u8; 32]>>)
        ensures
            match r {
                None => self.aborts(asset_data@),
                Some(Some(a)) => !self.aborts(asset_data@) && !burn_delegate_found(
                    asset_data@,
                    self.asset_account_owner@,
                ) && a@ == self.payer@,
                Some(None) => !self.aborts(asset_data@) && burn_delegate_found(
                    asset_data@,
                    self.asset_account_owner@,
                ),
            },
    {
        if !asset_lookup_in_bounds(asset_data.as_slice(), &self.asset_account_owner, PluginKind::BurnDelegate) {
            return None;
        }
        if has_burn_delegate(asset_data.as_slice(), &self.asset_account_owner) {
            Some(None)
        } else {
            Some(Some(self.payer))
        }
    }

    /// After the asset is created with the account data `asset_data`: the
    /// authority that adds a BurnDelegate plugin to it (the payer), or `None`
    /// when the asset already has one.
    pub fn burn_delegate_authority(&self, asset_data: &Vec<u8>) -> (r: Option<[u8; 32]>)
        requires
            !self.aborts(asset_data@),
        ensures
            match r {
                Some(a) => !burn_delegate_found(asset_data@, self.asset_account_owner@) && a@ == self.payer@,
                None => burn_delegate_found(asset_data@, self.asset_account_owner@),
            },
    {
        match self.checked_burn_delegate_authority(asset_data) {
            Some(r) => r,
            None => {
                // `requires` rules out the abort, so this arm is never taken.
                proof {
                    assert(false);
                }
                None
            },
        }
    }
}

} // verus!
