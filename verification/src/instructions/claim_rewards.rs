//! Claiming the rewards of a staked asset: one reward per whole day since
//! rewards last started, after which they start again from the claim.
use vstd::prelude::*;

use crate::accounts::{
    asset_attributes, asset_fetch_stays_inside, asset_lookup_in_bounds, decode_asset, decode_collection, decoded_asset,
    decoded_collection, fetch_asset_attributes, AssetRecord, CollectionRecord, PluginKind,
};
use crate::attributes::{claim_attributes, claim_outcome, claimed_list, view_all, view_fetched, Attribute, AttributeView};
use crate::errors::{InstructionError, StakingError};
use crate::instructions::holder::{check_holder, check_holder_accounts, holder_check};
use crate::state::Config;

verus! {

/// What a successful claim does: mint `reward` reward tokens to the holder,
/// and replace the asset's attributes with `asset_attributes`.
#[derive(Debug)]
pub struct ClaimPlan {
    pub reward: u64,
    pub asset_attributes: Vec<Attribute>,
}

/// A claim's effects over attribute views.
pub struct ClaimPlanView {
    pub reward: u64,
    pub asset_attributes: Seq<AttributeView>,
}

impl View for ClaimPlan {
    type V = ClaimPlanView;

    open spec fn view(&self) -> ClaimPlanView {
        ClaimPlanView { reward: self.reward, asset_attributes: view_all(self.asset_attributes@) }
    }
}

/// The view of a claim's outcome.
pub open spec fn claim_result_view(r: Result<ClaimPlan, InstructionError>) -> Result<
    ClaimPlanView,
    InstructionError,
> {
    match r {
        Ok(p) => Ok(p@),
        Err(e) => Err(e),
    }
}

/// The outcome of a claim on an asset whose Attributes plugin holds
/// `attributes` (`None` when it has none), at `now`, at `points` per day.
pub open spec fn settlement(attributes: Option<Seq<AttributeView>>, now: int, points: int) -> Result<
    ClaimPlanView,
    StakingError,
> {
    match attributes {
        None => Err(StakingError::NotStaked),
        Some(s) => match claim_outcome(s, now, points) {
            Err(e) => Err(e),
            Ok(reward) => Ok(ClaimPlanView { reward, asset_attributes: claimed_list(s, now) }),
        },
    }
}

/// The outcome of a claim, given what the accounts hold.
pub open spec fn claim_decision(
    asset: Option<AssetRecord>,
    collection_record: Option<CollectionRecord>,
    attributes: Option<Seq<AttributeView>>,
    holder: Seq<u8>,
    collection: Seq<u8>,
    prog_auth: Seq<u8>,
    now: int,
    points: int,
) -> Result<ClaimPlanView, InstructionError> {
    match holder_check(asset, collection_record, holder, collection, prog_auth) {
        Err(e) => Err(e),
        Ok(_) => match settlement(attributes, now, points) {
            Err(e) => Err(InstructionError::Staking(e)),
            Ok(p) => Ok(p),
        },
    }
}

/// The reward and the new attributes of a claim at `now`, given the asset's
/// Attributes plugin if it has one; refused with `NotStaked` when it has none.
pub fn settle(fetched: Option<Vec<Attribute>>, now: i64, points_per_stake: u32) -> (r: Result<
    ClaimPlan,
    StakingError,
>)
    ensures
        match r {
            Ok(p) => settlement(view_fetched(fetched), now as int, points_per_stake as int) == Ok::<
                ClaimPlanView,
                StakingError,
            >(p@),
            Err(e) => settlement(view_fetched(fetched), now as int, points_per_stake as int) == Err::<
                ClaimPlanView,
                StakingError,
            >(e),
        },
{
    match fetched {
        None => Err(StakingError::NotStaked),
        Some(list) => match claim_attributes(&list, now, points_per_stake) {
            Err(e) => Err(e),
            Ok((reward, v)) => Ok(ClaimPlan { reward, asset_attributes: v }),
        },
    }
}

/// The accounts and signers of a claim, as the program reads them.
pub struct ClaimRewards {
    /// The signer who owns the staked asset.
    pub stakeholder: [u8; 32],
    /// The program authority address derived for the collection.
    pub prog_auth: [u8; 32],
    /// The collection address.
    pub collection: [u8; 32],
    /// The collection's staking configuration.
    pub config: Config,
    /// The data of the asset account.
    pub asset_data: Vec<u8>,
    /// The program that owns the asset account.
    pub asset_account_owner: [u8; 32],
    /// The data of the collection account.
    pub collection_data: Vec<u8>,
}

impl ClaimRewards {
    /// The outcome of a claim at `now`, over what the account data decodes to.
    pub open spec fn outcome(&self, now: int) -> Result<ClaimPlanView, InstructionError> {
        claim_decision(
            decoded_asset(self.asset_data@),
            decoded_collection(self.collection_data@),
            asset_attributes(self.asset_data@, self.asset_account_owner@),
            self.stakeholder@,
            self.collection@,
            self.prog_auth@,
            now,
            self.config.points_per_stake as int,
        )
    }

    /// The outcome of a claim at `now`, given the decoded accounts and the
    /// asset's Attributes plugin.
    pub fn decide(
        &self,
        asset: Option<AssetRecord>,
        collection_record: Option<CollectionRecord>,
        attributes: Option<Vec<Attribute>>,
        now: i64,
    ) -> (r: Result<ClaimPlan, InstructionError>)
        ensures
            claim_result_view(r) == claim_decision(
                asset,
                collection_record,
                view_fetched(attributes),
                self.stakeholder@,
                self.collection@,
                self.prog_auth@,
                now as int,
                self.config.points_per_stake as int,
            ),
    {
        match check_holder(&asset, &collection_record, &self.stakeholder, &self.collection, &self.prog_auth) {
            Err(e) => {
                return Err(e);
            },
            Ok(()) => {},
        }
        match settle(attributes, now, self.config.points_per_stake) {
            Err(e) => Err(InstructionError::Staking(e)),
            Ok(p) => Ok(p),
        }
    }

    /// Whether a claim aborts: after the account checks pass, the lookup of the
    /// asset's Attributes plugin would slice the account data past its end.
    pub open spec fn aborts(&self) -> bool {
        &&& holder_check(
            decoded_asset(self.asset_data@),
            decoded_collection(self.collection_data@),
            self.stakeholder@,
            self.collection@,
            self.prog_auth@,
        ) is Ok
        &&& !asset_fetch_stays_inside(self.asset_data@, self.asset_account_owner@, PluginKind::Attributes)
    }

    /// The holder checks of a claim, on the decoded accounts.
    pub fn check_accounts(&self) -> (r: Result<(), InstructionError>)
        ensures
            r == holder_check(
                decoded_asset(self.asset_data@),
                decoded_collection(self.collection_data@),
                self.stakeholder@,
                self.collection@,
                self.prog_auth@,
            ),
    {
        check_holder_accounts(
            self.asset_data.as_slice(),
            self.collection_data.as_slice(),
            &self.stakeholder,
            &self.collection,
            &self.prog_auth,
        )
    }

    /// A claim at `now` where it can be carried out; `None` where it aborts.
    pub fn checked_claim_rewards(&self, now: i64) -> (r: Option<Result<ClaimPlan, InstructionError>>)
        ensures
            match r {
                None => self.aborts(),
                Some(res) => !self.aborts() && claim_result_view(res) == self.outcome(now as int),
            },
    {
        let asset = decode_asset(self.asset_data.as_slice());
        let collection_record = decode_collection(self.collection_data.as_slice());
        match check_holder(&asset, &collection_record, &self.stakeholder, &self.collection, &self.prog_auth) {
            Err(e) => {
                return Some(Err(e));
            },
            Ok(()) => {},
        }
        if !asset_lookup_in_bounds(self.asset_data.as_slice(), &self.asset_account_owner, PluginKind::Attributes) {
            return None;
        }
        let attributes = fetch_asset_attributes(self.asset_data.as_slice(), &self.asset_account_owner);
        Some(self.decide(asset, collection_record, attributes, now))
    }

    /// The reward that a claim at `now` mints and the attributes it leaves, or
    /// why the claim is refused: the holder checks of staking, then the asset
    /// must be marked staked with a readable start time at least a day ago.
    pub fn claim_rewards(&self, now: i64) -> (r: Result<ClaimPlan, InstructionError>)
        requires
            !self.aborts(),
        ensures
            claim_result_view(r) == self.outcome(now as int),
    {
        match self.checked_claim_rewards(now) {
            Some(r) => r,
            None => {
                // `requires` rules out the abort, so this arm is never taken.
                proof {
                    assert(false);
                }
                Err(InstructionError::AccountData)
            },
        }
    }
}

} // verus!
