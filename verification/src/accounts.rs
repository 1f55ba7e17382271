//! Reading Metaplex Core account data: the asset and collection headers and
//! the plugins that the program looks at. Decoding is left to `mpl_core`; the
//! results are handed to the verified logic as plain values.
use vstd::prelude::*;

use anchor_lang::prelude::{AccountInfo, Pubkey};
use mpl_core::accounts::{BaseAssetV1, BaseCollectionV1, PluginHeaderV1};
use mpl_core::{fetch_plugin, DataBlob, PluginRegistryV1Safe, SolanaAccount};
use mpl_core::types::{Attributes, BurnDelegate, FreezeDelegate, PluginType, UpdateAuthority};

use crate::attributes::{view_fetched, Attribute, AttributeView};

verus! {

/// Who may update an asset.
#[derive(Debug, Clone, Copy)]
pub enum AssetAuthority {
    Unassigned,
    Address([u8; 32]),
    Collection([u8; 32]),
}

/// What the program reads of an asset account.
#[derive(Debug, Clone, Copy)]
pub struct AssetRecord {
    pub owner: [u8; 32],
    pub update_authority: AssetAuthority,
}

/// What the program reads of a collection account.
#[derive(Debug, Clone, Copy)]
pub struct CollectionRecord {
    pub update_authority: [u8; 32],
}

/// The asset header that `BaseAssetV1::from_bytes` decodes from `data`, or
/// `None` when it fails.
pub uninterp spec fn decoded_asset(data: Seq<u8>) -> Option<AssetRecord>;

/// The collection header that `BaseCollectionV1::from_bytes` decodes from
/// `data`, or `None` when it fails.
pub uninterp spec fn decoded_collection(data: Seq<u8>) -> Option<CollectionRecord>;

/// The attribute list of the Attributes plugin that `fetch_plugin` finds on the
/// asset account `data` owned by the program `owner`, or `None` when it finds none.
pub uninterp spec fn asset_attributes(data: Seq<u8>, owner: Seq<u8>) -> Option<Seq<AttributeView>>;

/// The attribute list of the Attributes plugin that `fetch_plugin` finds on the
/// collection account `data` owned by the program `owner`, or `None` when it finds none.
pub uninterp spec fn collection_attributes(data: Seq<u8>, owner: Seq<u8>) -> Option<Seq<AttributeView>>;

/// Whether `fetch_plugin` finds a FreezeDelegate plugin on the asset account `data`
/// owned by the program `owner`.
pub uninterp spec fn freeze_delegate_found(data: Seq<u8>, owner: Seq<u8>) -> bool;

/// Whether `fetch_plugin` finds a BurnDelegate plugin on the asset account `data`
/// owned by the program `owner`.
pub uninterp spec fn burn_delegate_found(data: Seq<u8>, owner: Seq<u8>) -> bool;

/// Decodes an asset account header.
///
/// Trusted: calls `mpl_core::accounts::BaseAssetV1::from_bytes` (a Borsh decode
/// of the account data) and copies out the owner and the update authority.
/// The contract only names the result: it is a function of `data` alone.
#[verifier::external_body]
pub(crate) fn decode_asset(data: &[u8]) -> (r: Option<AssetRecord>)
    ensures
        r == decoded_asset(data@),
{
    match BaseAssetV1::from_bytes(data) {
        Ok(asset) => Some(AssetRecord {
            owner: asset.owner.to_bytes(),
            update_authority: match asset.update_authority {
                UpdateAuthority::None => AssetAuthority::Unassigned,
                UpdateAuthority::Address(a) => AssetAuthority::Address(a.to_bytes()),
                UpdateAuthority::Collection(c) => AssetAuthority::Collection(c.to_bytes()),
            },
        }),
        Err(_) => None,
    }
}

/// Decodes a collection account header.
///
/// Trusted: calls `mpl_core::accounts::BaseCollectionV1::from_bytes` (a Borsh
/// decode of the account data) and copies out the update authority. The
/// contract only names the result: it is a function of `data` alone.
#[verifier::external_body]
pub(crate) fn decode_collection(data: &[u8]) -> (r: Option<CollectionRecord>)
    ensures
        r == decoded_collection(data@),
{
    match BaseCollectionV1::from_bytes(data) {
        Ok(collection) => Some(CollectionRecord { update_authority: collection.update_authority.to_bytes() }),
        Err(_) => None,
    }
}

/// The Attributes plugin of an asset account.
///
/// Trusted: calls `mpl_core::fetch_plugin::<BaseAssetV1, Attributes>` on an
/// account holding `data` and owned by `owner` (the function reads nothing else
/// of the account; it finds nothing unless `owner` is the Metaplex Core program)
/// and copies out the attribute list; an error becomes `None`. The function
/// slices the data at offsets read from it: `requires` admits only data on
/// which those offsets lie inside it, where it returns instead of panicking.
#[verifier::external_body]
pub(crate) fn fetch_asset_attributes(data: &[u8], owner: &[u8; 32]) -> (r: Option<Vec<Attribute>>)
    requires
        asset_fetch_stays_inside(data@, owner@, PluginKind::Attributes),
    ensures
        view_fetched(r) == asset_attributes(data@, owner@),
{
    let (key, program) = (Pubkey::default(), Pubkey::new_from_array(*owner));
    let (mut lamports, mut bytes) = (0u64, data.to_vec());
    let account = AccountInfo::new(&key, false, false, &mut lamports, &mut bytes, &program, false, 0);
    match fetch_plugin::<BaseAssetV1, Attributes>(&account, PluginType::Attributes) {
        Ok((_, plugin, _)) => Some(
            plugin.attribute_list.into_iter().map(|a| Attribute { key: a.key, value: a.value }).collect(),
        ),
        Err(_) => None,
    }
}

/// The Attributes plugin of a collection account.
///
/// Trusted: calls `mpl_core::fetch_plugin::<BaseCollectionV1, Attributes>` on an
/// account holding `data` and owned by `owner` and copies out the attribute
/// list; an error becomes `None`. `requires` admits only data on which the
/// offsets that the function reads and slices at lie inside the data.
#[verifier::external_body]
pub(crate) fn fetch_collection_attributes(data: &[u8], owner: &[u8; 32]) -> (r: Option<Vec<Attribute>>)
    requires
        collection_fetch_stays_inside(data@, owner@),
    ensures
        view_fetched(r) == collection_attributes(data@, owner@),
{
    let (key, program) = (Pubkey::default(), Pubkey::new_from_array(*owner));
    let (mut lamports, mut bytes) = (0u64, data.to_vec());
    let account = AccountInfo::new(&key, false, false, &mut lamports, &mut bytes, &program, false, 0);
    match fetch_plugin::<BaseCollectionV1, Attributes>(&account, PluginType::Attributes) {
        Ok((_, plugin, _)) => Some(
            plugin.attribute_list.into_iter().map(|a| Attribute { key: a.key, value: a.value }).collect(),
        ),
        Err(_) => None,
    }
}

/// Whether an asset account carries a FreezeDelegate plugin.
///
/// Trusted: calls `mpl_core::fetch_plugin::<BaseAssetV1, FreezeDelegate>` on an
/// account holding `data` and owned by `owner` and reports whether it
/// succeeded. `requires` admits only data on which the offsets that the
/// function reads and slices at lie inside the data.
#[verifier::external_body]
pub(crate) fn has_freeze_delegate(data: &[u8], owner: &[u8; 32]) -> (r: bool)
    requires
        asset_fetch_stays_inside(data@, owner@, PluginKind::FreezeDelegate),
    ensures
        r == freeze_delegate_found(data@, owner@),
{
    let (key, program) = (Pubkey::default(), Pubkey::new_from_array(*owner));
    let (mut lamports, mut bytes) = (0u64, data.to_vec());
    let account = AccountInfo::new(&key, false, false, &mut lamports, &mut bytes, &program, false, 0);
    fetch_plugin::<BaseAssetV1, FreezeDelegate>(&account, PluginType::FreezeDelegate).is_ok()
}

/// Whether an asset account carries a BurnDelegate plugin.
///
/// Trusted: calls `mpl_core::fetch_plugin::<BaseAssetV1, BurnDelegate>` on an
/// account holding `data` and owned by `owner` and reports whether it
/// succeeded. `requires` admits only data on which the offsets that the
/// function reads and slices at lie inside the data.
#[verifier::external_body]
pub(crate) fn has_burn_delegate(data: &[u8], owner: &[u8; 32]) -> (r: bool)
    requires
        asset_fetch_stays_inside(data@, owner@, PluginKind::BurnDelegate),
    ensures
        r == burn_delegate_found(data@, owner@),
{
    let (key, program) = (Pubkey::default(), Pubkey::new_from_array(*owner));
    let (mut lamports, mut bytes) = (0u64, data.to_vec());
    let account = AccountInfo::new(&key, false, false, &mut lamports, &mut bytes, &program, false, 0);
    fetch_plugin::<BaseAssetV1, BurnDelegate>(&account, PluginType::BurnDelegate).is_ok()
}

// ---------------------------------------------------------------------------
// Where a plugin lookup reads
//
// `fetch_plugin` loads the account's base (checking its key and its owner),
// stops when the base fills the data, decodes the plugin header right after
// the base, slices the data at the header's registry offset, decodes the
// registry there, takes the first record of the wanted plugin type and slices
// the data at that record's offset. A slice past the end of the data panics.
// The names below give what each of those decoders returns; the verified
// `plugin_lookup_in_bounds` decides from them whether the lookup stays inside.
// ---------------------------------------------------------------------------

/// A plugin type that the program looks up.
#[derive(Debug, Clone, Copy, PartialEq, Eq, Structural)]
pub enum PluginKind {
    Attributes,
    FreezeDelegate,
    BurnDelegate,
}

/// The registry code of a plugin type: its position in `mpl_core::types::PluginType`.
pub open spec fn plugin_code(kind: PluginKind) -> u8 {
    match kind {
        PluginKind::FreezeDelegate => 1,
        PluginKind::BurnDelegate => 2,
        PluginKind::Attributes => 6,
    }
}

/// A record of a plugin registry: the plugin's type code and where it starts.
#[derive(Debug, Clone, Copy)]
pub struct RegistryEntry {
    pub code: u8,
    pub offset: u64,
}

/// The encoded size of the asset base that `SolanaAccount::load` reads from an
/// account holding `data` and owned by `owner`, as `DataBlob::len` gives it, or
/// `None` when loading fails.
pub uninterp spec fn loaded_asset_length(data: Seq<u8>, owner: Seq<u8>) -> Option<usize>;

/// The encoded size of the collection base that `SolanaAccount::load` reads
/// from an account holding `data` and owned by `owner`, or `None` when loading fails.
pub uninterp spec fn loaded_collection_length(data: Seq<u8>, owner: Seq<u8>) -> Option<usize>;

/// The registry offset of the plugin header that `PluginHeaderV1::from_bytes`
/// decodes from `data` starting at `at`, or `None` when it fails.
pub uninterp spec fn plugin_header_offset(data: Seq<u8>, at: usize) -> Option<u64>;

/// The records of the plugin registry that `PluginRegistryV1Safe::from_bytes`
/// decodes from `data` starting at `at`, or `None` when it fails.
pub uninterp spec fn plugin_registry(data: Seq<u8>, at: usize) -> Option<Seq<RegistryEntry>>;

/// The view of an optional registry.
pub open spec fn view_registry(o: Option<Vec<RegistryEntry>>) -> Option<Seq<RegistryEntry>> {
    match o {
        Some(v) => Some(v@),
        None => None,
    }
}

/// The offset of the first record of `records` with the type code `code`.
pub open spec fn first_offset(records: Seq<RegistryEntry>, code: u8) -> Option<u64>
    decreases records.len(),
{
    if records.len() == 0 {
        None
    } else if records[0].code == code {
        Some(records[0].offset)
    } else {
        first_offset(records.drop_first(), code)
    }
}

/// Whether a lookup of `kind` on `data`, whose base loads with the encoded size
/// `base`, slices the data only inside it.
pub open spec fn plugin_lookup_in_bounds(base: Option<usize>, data: Seq<u8>, kind: PluginKind) -> bool {
    match base {
        None => true,
        Some(n) => n == data.len() || (n <= data.len() && match plugin_header_offset(data, n) {
            None => true,
            Some(r) => r <= data.len() && match plugin_registry(data, r as usize) {
                None => true,
                Some(records) => match first_offset(records, plugin_code(kind)) {
                    None => true,
                    Some(o) => o <= data.len(),
                },
            },
        }),
    }
}

/// Whether looking up `kind` on the asset account `data` owned by `owner` stays
/// inside the data.
pub open spec fn asset_fetch_stays_inside(data: Seq<u8>, owner: Seq<u8>, kind: PluginKind) -> bool {
    plugin_lookup_in_bounds(loaded_asset_length(data, owner), data, kind)
}

/// Whether looking up the Attributes plugin on the collection account `data`
/// owned by `owner` stays inside the data.
pub open spec fn collection_fetch_stays_inside(data: Seq<u8>, owner: Seq<u8>) -> bool {
    plugin_lookup_in_bounds(loaded_collection_length(data, owner), data, PluginKind::Attributes)
}

/// The size of an asset base.
///
/// Trusted: calls `<BaseAssetV1 as mpl_core::SolanaAccount>::load` on an account
/// holding `data` and owned by `owner`, and `mpl_core::DataBlob::len` on what it
/// loads; an error becomes `None`. The result is named only.
#[verifier::external_body]
pub(crate) fn asset_base_length(data: &[u8], owner: &[u8; 32]) -> (r: Option<usize>)
    ensures
        r == loaded_asset_length(data@, owner@),
{
    let (key, program) = (Pubkey::default(), Pubkey::new_from_array(*owner));
    let (mut lamports, mut bytes) = (0u64, data.to_vec());
    let account = AccountInfo::new(&key, false, false, &mut lamports, &mut bytes, &program, false, 0);
    <BaseAssetV1 as SolanaAccount>::load(&account, 0).ok().map(|base| base.len())
}

/// The size of a collection base.
///
/// Trusted: calls `<BaseCollectionV1 as mpl_core::SolanaAccount>::load` on an
/// account holding `data` and owned by `owner`, and `mpl_core::DataBlob::len`
/// on what it loads; an error becomes `None`. The result is named only.
#[verifier::external_body]
pub(crate) fn collection_base_length(data: &[u8], owner: &[u8; 32]) -> (r: Option<usize>)
    ensures
        r == loaded_collection_length(data@, owner@),
{
    let (key, program) = (Pubkey::default(), Pubkey::new_from_array(*owner));
    let (mut lamports, mut bytes) = (0u64, data.to_vec());
    let account = AccountInfo::new(&key, false, false, &mut lamports, &mut bytes, &program, false, 0);
    <BaseCollectionV1 as SolanaAccount>::load(&account, 0).ok().map(|base| base.len())
}

/// The registry offset of the plugin header at `at`.
///
/// Trusted: calls `mpl_core::accounts::PluginHeaderV1::from_bytes` on the data
/// from `at` on and copies out `plugin_registry_offset`; an error becomes `None`.
#[verifier::external_body]
pub(crate) fn header_registry_offset(data: &[u8], at: usize) -> (r: Option<u64>)
    requires
        at <= data@.len(),
    ensures
        r == plugin_header_offset(data@, at),
{
    PluginHeaderV1::from_bytes(&data[at..]).ok().map(|header| header.plugin_registry_offset)
}

/// The records of the plugin registry at `at`.
///
/// Trusted: calls `mpl_core::PluginRegistryV1Safe::from_bytes` on the data from
/// `at` on and copies out each record's type code and offset, in order; an
/// error becomes `None`.
#[verifier::external_body]
pub(crate) fn registry_records(data: &[u8], at: usize) -> (r: Option<Vec<RegistryEntry>>)
    requires
        at <= data@.len(),
    ensures
        view_registry(r) == plugin_registry(data@, at),
{
    PluginRegistryV1Safe::from_bytes(&data[at..]).ok().map(|registry| {
        registry.registry.iter().map(|record| RegistryEntry { code: record.plugin_type, offset: record.offset }).collect()
    })
}

/// The registry code of `kind`.
///
/// Trusted: converts `kind` to the matching `mpl_core::types::PluginType` and
/// casts it to `u8`; the values are the variants' positions in that enum.
#[verifier::external_body]
pub(crate) fn plugin_type_code(kind: PluginKind) -> (c: u8)
    ensures
        c == plugin_code(kind),
{
    match kind {
        PluginKind::Attributes => PluginType::Attributes as u8,
        PluginKind::FreezeDelegate => PluginType::FreezeDelegate as u8,
        PluginKind::BurnDelegate => PluginType::BurnDelegate as u8,
    }
}

/// The offset of the first record of `records` with the type code `code`.
pub fn first_record_offset(records: &Vec<RegistryEntry>, code: u8) -> (r: Option<u64>)
    ensures
        r == first_offset(records@, code),
{
    let mut i: usize = 0;
    assert(records@.subrange(0, records.len() as int) =~= records@);
    while i < records.len()
        invariant
            0 <= i <= records.len(),
            first_offset(records@, code) == first_offset(records@.subrange(i as int, records.len() as int), code),
        decreases records.len() - i,
    {
        let ghost rest = records@.subrange(i as int, records.len() as int);
        assert(rest.drop_first() =~= records@.subrange(i + 1, records.len() as int));
        if records[i].code == code {
            return Some(records[i].offset);
        }
        i = i + 1;
    }
    assert(records@.subrange(i as int, records.len() as int) =~= Seq::<RegistryEntry>::empty());
    None
}

/// Whether a lookup of `kind` on `data`, whose base loads with the encoded size
/// `base`, slices the data only inside it.
pub fn lookup_in_bounds(base: Option<usize>, data: &[u8], kind: PluginKind) -> (r: bool)
    ensures
        r == plugin_lookup_in_bounds(base, data@, kind),
{
    let n = match base {
        None => {
            return true;
        },
        Some(n) => n,
    };
    if n == data.len() {
        return true;
    }
    if n > data.len() {
        return false;
    }
    let registry_at = match header_registry_offset(data, n) {
        None => {
            return true;
        },
        Some(r) => r,
    };
    if registry_at > data.len() as u64 {
        return false;
    }
    let records = match registry_records(data, registry_at as usize) {
        None => {
            return true;
        },
        Some(records) => records,
    };
    match first_record_offset(&records, plugin_type_code(kind)) {
        None => true,
        Some(o) => o <= data.len() as u64,
    }
}

/// Whether looking up `kind` on the asset account `data` owned by `owner`
/// stays inside the data, so that the lookup returns rather than panics.
pub fn asset_lookup_in_bounds(data: &[u8], owner: &[u8; 32], kind: PluginKind) -> (r: bool)
    ensures
        r == asset_fetch_stays_inside(data@, owner@, kind),
{
    lookup_in_bounds(asset_base_length(data, owner), data, kind)
}

/// Whether looking up the Attributes plugin on the collection account `data`
/// owned by `owner` stays inside the data.
pub fn collection_lookup_in_bounds(data: &[u8], owner: &[u8; 32]) -> (r: bool)
    ensures
        r == collection_fetch_stays_inside(data@, owner@),
{
    lookup_in_bounds(collection_base_length(data, owner), data, PluginKind::Attributes)
}

/// Whether the addresses `a` and `b` are the same.
pub fn same_address(a: &[u8; 32], b: &[u8; 32]) -> (r: bool)
    ensures
        r == (a@ == b@),
{
    let mut i: usize = 0;
    while i < 32
        invariant
            0 <= i <= 32,
            a@.len() == 32,
            b@.len() == 32,
            forall|j: int| 0 <= j < i ==> a@[j] == b@[j],
        decreases 32 - i,
    {
        if a[i] != b[i] {
            return false;
        }
        i = i + 1;
    }
    assert(a@ =~= b@);
    true
}

} // verus!
