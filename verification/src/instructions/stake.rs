//! Staking an asset: mark it staked, freeze it, and count the stake on its
//! collection.
use vstd::prelude::*;

use crate::accounts::{
    asset_attributes, asset_fetch_stays_inside, asset_lookup_in_bounds, collection_attributes,
    collection_fetch_stays_inside, collection_lookup_in_bounds, decoded_asset, decoded_collection,
    decode_asset, decode_collection, fetch_asset_attributes, fetch_collection_attributes,
    freeze_delegate_found, has_freeze_delegate,
    AssetRecord, CollectionRecord, PluginKind,
};
use crate::attributes::{
    blocks_staking, count_attributes, count_fits, counted_list, stake_attributes, stake_count,
    stake_count_attribute, stake_time, stake_time_attribute, staked_flag, staked_flag_attribute,
    staked_list, view_all, view_fetched, Attribute, AttributeView,
};
use crate::errors::{InstructionError, StakingError};
use crate::instructions::holder::{check_holder, check_holder_accounts, holder_check};

verus! {

/// A write of an Attributes plugin.
#[derive(Debug)]
pub enum PluginWrite {
    /// Add the plugin, which the account does not have yet, with these attributes.
    Add(Vec<Attribute>),
    /// Replace the attributes of the account's plugin with these.
    Update(Vec<Attribute>),
}

/// A write of an Attributes plugin, over attribute views.
pub enum PluginWriteView {
    Add(Seq<AttributeView>),
    Update(Seq<AttributeView>),
}

impl View for PluginWrite {
    type V = PluginWriteView;

    open spec fn view(&self) -> PluginWriteView {
        match self {
            PluginWrite::Add(v) => PluginWriteView::Add(view_all(v@)),
            PluginWrite::Update(v) => PluginWriteView::Update(view_all(v@)),
        }
    }
}

/// How the asset gets frozen: both set the FreezeDelegate plugin to frozen.
#[derive(Debug, Clone, Copy, PartialEq, Eq, Structural)]
pub enum FreezeWrite {
    /// Add a FreezeDelegate plugin, signed by the stakeholder.
    AddByOwner,
    /// Update the existing FreezeDelegate plugin, signed by the program authority.
    UpdateByProgram,
}

/// The writes that a successful stake makes, in the order they are made.
#[derive(Debug)]
pub struct StakePlan {
    pub asset_attributes: PluginWrite,
    pub freeze: FreezeWrite,
    pub collection_attributes: PluginWrite,
}

/// A stake's writes over attribute views.
pub struct StakePlanView {
    pub asset_attributes: PluginWriteView,
    pub freeze: FreezeWrite,
    pub collection_attributes: PluginWriteView,
}

impl View for StakePlan {
    type V = StakePlanView;

    open spec fn view(&self) -> StakePlanView {
        StakePlanView {
            asset_attributes: self.asset_attributes@,
            freeze: self.freeze,
            collection_attributes: self.collection_attributes@,
        }
    }
}

/// The view of a stake's outcome.
pub open spec fn stake_result_view(r: Result<StakePlan, InstructionError>) -> Result<
    StakePlanView,
    InstructionError,
> {
    match r {
        Ok(p) => Ok(p@),
        Err(e) => Err(e),
    }
}

/// The asset's Attributes write when staking at `now`: a fresh plugin saying
/// `staked` is `true` from `now`, or the existing attributes rewritten; refused
/// when the asset is already staked.
pub open spec fn staking_write(fetched: Option<Seq<AttributeView>>, now: int) -> Result<
    PluginWriteView,
    StakingError,
> {
    match fetched {
        None => Ok(PluginWriteView::Add(seq![staked_flag(), stake_time(now)])),
        Some(s) => if blocks_staking(s) {
            Err(StakingError::AlreadyStaked)
        } else {
            Ok(PluginWriteView::Update(staked_list(s, now)))
        },
    }
}

/// How the asset gets frozen, given whether it has a FreezeDelegate plugin.
pub open spec fn freeze_choice(found: bool) -> FreezeWrite {
    if found {
        FreezeWrite::UpdateByProgram
    } else {
        FreezeWrite::AddByOwner
    }
}

/// The collection's Attributes write for one more stake.
pub open spec fn counting_write(fetched: Option<Seq<AttributeView>>) -> PluginWriteView {
    match fetched {
        None => PluginWriteView::Add(seq![stake_count(1)]),
        Some(s) => PluginWriteView::Update(counted_list(s)),
    }
}

/// The outcome of staking at `now`, given what the accounts hold.
pub open spec fn stake_decision(
    asset: Option<AssetRecord>,
    collection_record: Option<CollectionRecord>,
    attributes: Option<Seq<AttributeView>>,
    frozen: bool,
    counts: Option<Seq<AttributeView>>,
    holder: Seq<u8>,
    collection: Seq<u8>,
    prog_auth: Seq<u8>,
    now: int,
) -> Result<StakePlanView, InstructionError> {
    match holder_check(asset, collection_record, holder, collection, prog_auth) {
        Err(e) => Err(e),
        Ok(_) => match staking_write(attributes, now) {
            Err(e) => Err(InstructionError::Staking(e)),
            Ok(w) => Ok(
                StakePlanView {
                    asset_attributes: w,
                    freeze: freeze_choice(frozen),
                    collection_attributes: counting_write(counts),
                },
            ),
        },
    }
}

/// Whether staking gets as far as counting and the collection's count is
/// already the largest `u64`: the count cannot go up, and the program aborts.
pub open spec fn stake_overflows(
    asset: Option<AssetRecord>,
    collection_record: Option<CollectionRecord>,
    attributes: Option<Seq<AttributeView>>,
    counts: Option<Seq<AttributeView>>,
    holder: Seq<u8>,
    collection: Seq<u8>,
    prog_auth: Seq<u8>,
    now: int,
) -> bool {
    &&& holder_check(asset, collection_record, holder, collection, prog_auth) is Ok
    &&& staking_write(attributes, now) is Ok
    &&& counts matches Some(s) && !count_fits(s)
}

/// The asset's Attributes write when staking at `now`, given the plugin's
/// attributes if it has one.
pub fn begin_staking(fetched: Option<Vec<Attribute>>, now: i64) -> (r: Result<PluginWrite, StakingError>)
    ensures
        match r {
            Ok(w) => staking_write(view_fetched(fetched), now as int) == Ok::<
                PluginWriteView,
                StakingError,
            >(w@),
            Err(e) => staking_write(view_fetched(fetched), now as int) == Err::<
                PluginWriteView,
                StakingError,
            >(e),
        },
{
    match fetched {
        None => {
            let mut v: Vec<Attribute> = Vec::new();
            v.push(staked_flag_attribute());
            v.push(stake_time_attribute(now));
            assert(view_all(v@) =~= seq![staked_flag(), stake_time(now as int)]);
            Ok(PluginWrite::Add(v))
        },
        Some(list) => match stake_attributes(&list, now) {
            Ok(v) => Ok(PluginWrite::Update(v)),
            Err(e) => Err(e),
        },
    }
}

/// How the asset gets frozen, given whether it has a FreezeDelegate plugin.
pub fn freeze_write(found: bool) -> (w: FreezeWrite)
    ensures
        w == freeze_choice(found),
{
    if found {
        FreezeWrite::UpdateByProgram
    } else {
        FreezeWrite::AddByOwner
    }
}

/// Whether every stake count in `list` can be raised by one.
pub fn counts_fit(list: &Vec<Attribute>) -> (r: bool)
    ensures
        r == count_fits(view_all(list@)),
{
    let ghost s = view_all(list@);
    let mut i: usize = 0;
    while i < list.len()
        invariant
            0 <= i <= list.len(),
            s == view_all(list@),
            forall|j: int|
                0 <= j < i && #[trigger] s[j].key == crate::attributes::key_total_staked()
                    ==> crate::text::spec_parse_u64(s[j].value) != Some(u64::MAX),
        decreases list.len() - i,
    {
        let a = &list[i];
        assert(s[i as int] == a@);
        let key = crate::chars::chars_of(&a.key);
        if crate::chars::same_chars(&key, &crate::attributes::total_staked_key()) {
            let value = crate::chars::chars_of(&a.value);
            match crate::text::parse_u64(&value) {
                Some(n) => {
                    if n == u64::MAX {
                        assert(s[i as int].key == crate::attributes::key_total_staked());
                        assert(crate::text::spec_parse_u64(s[i as int].value) == Some(u64::MAX));
                        return false;
                    }
                },
                None => {},
            }
        }
        i = i + 1;
    }
    true
}

/// The collection's Attributes write for one more stake, given the plugin's
/// attributes if it has one.
pub fn count_staking(fetched: Option<Vec<Attribute>>) -> (w: PluginWrite)
    requires
        fetched matches Some(list) ==> count_fits(view_all(list@)),
    ensures
        w@ == counting_write(view_fetched(fetched)),
{
    match fetched {
        None => {
            let mut v: Vec<Attribute> = Vec::new();
            v.push(stake_count_attribute(1));
            assert(view_all(v@) =~= seq![stake_count(1)]);
            PluginWrite::Add(v)
        },
        Some(list) => PluginWrite::Update(count_attributes(&list)),
    }
}

/// The accounts and signers of a stake, as the program reads them.
pub struct Stake {
    /// The signer who owns the asset.
    pub stakeholder: [u8; 32],
    /// The program authority address derived for the collection.
    pub prog_auth: [u8; 32],
    /// The collection address.
    pub collection: [u8; 32],
    /// The data of the asset account.
    pub asset_data: Vec<u8>,
    /// The program that owns the asset account.
    pub asset_account_owner: [u8; 32],
    /// The data of the collection account.
    pub collection_data: Vec<u8>,
    /// The program that owns the collection account.
    pub collection_account_owner: [u8; 32],
}

/// The writes that follow a successful Attributes write: the freeze, and one
/// more stake counted on the collection.
fn finish_stake(asset_write: PluginWrite, frozen: bool, counts: Option<Vec<Attribute>>) -> (p: StakePlan)
    requires
        counts matches Some(list) ==> count_fits(view_all(list@)),
    ensures
        p@ == (StakePlanView {
            asset_attributes: asset_write@,
            freeze: freeze_choice(frozen),
            collection_attributes: counting_write(view_fetched(counts)),
        }),
{
    StakePlan {
        asset_attributes: asset_write,
        freeze: freeze_write(frozen),
        collection_attributes: count_staking(counts),
    }
}

impl Stake {
    /// Whether staking at `now` aborts: after the account checks pass, a
    /// plugin lookup would slice the account data past its end, or the
    /// collection's count cannot go up.
    pub open spec fn aborts(&self, now: int) -> bool {
        let attributes = asset_attributes(self.asset_data@, self.asset_account_owner@);
        let counts = collection_attributes(self.collection_data@, self.collection_account_owner@);
        &&& holder_check(
            decoded_asset(self.asset_data@),
            decoded_collection(self.collection_data@),
            self.stakeholder@,
            self.collection@,
            self.prog_auth@,
        ) is Ok
        &&& (!asset_fetch_stays_inside(self.asset_data@, self.asset_account_owner@, PluginKind::Attributes) || (
        staking_write(attributes, now) is Ok && (!asset_fetch_stays_inside(
            self.asset_data@,
            self.asset_account_owner@,
            PluginKind::FreezeDelegate,
        ) || !collection_fetch_stays_inside(self.collection_data@, self.collection_account_owner@) || (
        counts matches Some(s) && !count_fits(s)))))
    }

    /// The outcome of staking at `now`, over what the account data decodes to.
    pub open spec fn outcome(&self, now: int) -> Result<StakePlanView, InstructionError> {
        stake_decision(
            decoded_asset(self.asset_data@),
            decoded_collection(self.collection_data@),
            asset_attributes(self.asset_data@, self.asset_account_owner@),
            freeze_delegate_found(self.asset_data@, self.asset_account_owner@),
            collection_attributes(self.collection_data@, self.collection_account_owner@),
            self.stakeholder@,
            self.collection@,
            self.prog_auth@,
            now,
        )
    }

    /// The holder checks of staking, on the decoded accounts.
    pub fn check_accounts(&self) -> (r: Result<(), InstructionError>)
        ensures
            r == holder_check(
                decoded_asset(self.asset_data@),
                decoded_collection(self.collection_data@),
                self.stakeholder@,
                self.collection@,
                self.prog_auth@,
            ),
    {
        check_holder_accounts(
            self.asset_data.as_slice(),
            self.collection_data.as_slice(),
            &self.stakeholder,
            &self.collection,
            &self.prog_auth,
        )
    }

    /// The writes that staking at `now` makes, given the decoded accounts and
    /// plugins, or why staking is refused.
    pub fn decide(
        &self,
        asset: Option<AssetRecord>,
        collection_record: Option<CollectionRecord>,
        attributes: Option<Vec<Attribute>>,
        frozen: bool,
        counts: Option<Vec<Attribute>>,
        now: i64,
    ) -> (r: Result<StakePlan, InstructionError>)
        requires
            !stake_overflows(
                asset,
                collection_record,
                view_fetched(attributes),
                view_fetched(counts),
                self.stakeholder@,
                self.collection@,
                self.prog_auth@,
                now as int,
            ),
        ensures
            stake_result_view(r) == stake_decision(
                asset,
                collection_record,
                view_fetched(attributes),
                frozen,
                view_fetched(counts),
                self.stakeholder@,
                self.collection@,
                self.prog_auth@,
                now as int,
            ),
    {
        match check_holder(&asset, &collection_record, &self.stakeholder, &self.collection, &self.prog_auth) {
            Err(e) => {
                return Err(e);
            },
            Ok(()) => {},
        }
        match begin_staking(attributes, now) {
            Err(e) => Err(InstructionError::Staking(e)),
            Ok(w) => Ok(finish_stake(w, frozen, counts)),
        }
    }

    /// Staking at `now` where it can be carried out; `None` where it aborts.
    /// The steps come in the order the program takes them: the account checks,
    /// the asset's Attributes plugin (refused when already staked), then the
    /// FreezeDelegate plugin and the collection's Attributes plugin; each
    /// plugin lookup is first checked to stay inside the account data.
    pub fn checked_stake(&self, now: i64) -> (r: Option<Result<StakePlan, InstructionError>>)
        ensures
            match r {
                None => self.aborts(now as int),
                Some(res) => !self.aborts(now as int) && stake_result_view(res) == self.outcome(
                    now as int,
                ),
            },
    {
        let asset = decode_asset(self.asset_data.as_slice());
        let collection_record = decode_collection(self.collection_data.as_slice());
        match check_holder(&asset, &collection_record, &self.stakeholder, &self.collection, &self.prog_auth) {
            Err(e) => {
                return Some(Err(e));
            },
            Ok(()) => {},
        }
        let asset_data = self.asset_data.as_slice();
        let collection_data = self.collection_data.as_slice();
        if !asset_lookup_in_bounds(asset_data, &self.asset_account_owner, PluginKind::Attributes) {
            return None;
        }
        let attributes = fetch_asset_attributes(asset_data, &self.asset_account_owner);
        let refused = match &attributes {
            Some(list) => stake_attributes(list, now).is_err(),
            None => false,
        };
        if refused {
            return Some(Err(InstructionError::Staking(StakingError::AlreadyStaked)));
        }
        if !asset_lookup_in_bounds(asset_data, &self.asset_account_owner, PluginKind::FreezeDelegate)
            || !collection_lookup_in_bounds(collection_data, &self.collection_account_owner) {
            return None;
        }
        let frozen = has_freeze_delegate(asset_data, &self.asset_account_owner);
        let counts = fetch_collection_attributes(collection_data, &self.collection_account_owner);
        match &counts {
            Some(list) => {
                if !counts_fit(list) {
                    return None;
                }
            },
            None => {},
        }
        Some(self.decide(asset, collection_record, attributes, frozen, counts, now))
    }

    /// The writes that staking at `now` makes, or why staking is refused: the
    /// stakeholder must own the asset, the asset must belong to the collection,
    /// the program authority must update the collection, and the asset must
    /// not be staked already.
    pub fn stake(&self, now: i64) -> (r: Result<StakePlan, InstructionError>)
        requires
            !self.aborts(now as int),
        ensures
            stake_result_view(r) == self.outcome(now as int),
    {
        match self.checked_stake(now) {
            Some(r) => r,
            None => {
                // `requires` rules out every abort, so this arm is never taken.
                proof {
                    assert(false);
                }
                Err(InstructionError::AccountData)
            },
        }
    }
}

} // verus!
