use anchor_lang::prelude::Pubkey;
use anchor_lang::AnchorSerialize;
use mpl_core::accounts::{BaseAssetV1, BaseCollectionV1, PluginHeaderV1, PluginRegistryV1};
use mpl_core::types::{
    Attribute as CoreAttribute, Attributes, BurnDelegate, FreezeDelegate, Key, Plugin, PluginAuthority,
    PluginType, RegistryRecord, UpdateAuthority,
};
use nft_staking_core::accounts::{
    first_record_offset, lookup_in_bounds, AssetAuthority, AssetRecord, CollectionRecord, PluginKind, RegistryEntry,
};
use nft_staking_core::attributes::Attribute;
use nft_staking_core::errors::{InstructionError, StakingError};
use nft_staking_core::instructions::claim_rewards::ClaimRewards;
use nft_staking_core::instructions::create_collection::CreateCollection;
use nft_staking_core::instructions::init_config::{InitConfig, InitConfigBumps};
use nft_staking_core::instructions::mint_nft::Mint;
use nft_staking_core::instructions::stake::{FreezeWrite, PluginWrite, Stake, StakePlan};
use nft_staking_core::state::Config;

const HOLDER: [u8; 32] = [1; 32];
const COLLECTION: [u8; 32] = [2; 32];
const PROG_AUTH: [u8; 32] = [3; 32];
const STRANGER: [u8; 32] = [9; 32];

fn core_program() -> [u8; 32] {
    mpl_core::ID.to_bytes()
}

fn plugin_type(plugin: &Plugin) -> PluginType {
    match plugin {
        Plugin::Attributes(_) => PluginType::Attributes,
        Plugin::FreezeDelegate(_) => PluginType::FreezeDelegate,
        Plugin::BurnDelegate(_) => PluginType::BurnDelegate,
        _ => panic!("plugin not used in these tests"),
    }
}

fn with_plugins(mut data: Vec<u8>, plugins: Vec<Plugin>) -> Vec<u8> {
    if plugins.is_empty() {
        return data;
    }
    let header_at = data.len();
    data.extend(vec![0u8; 9]);
    let mut registry = vec![];
    for plugin in plugins {
        let offset = data.len() as u64;
        registry.push(RegistryRecord {
            plugin_type: plugin_type(&plugin),
            authority: PluginAuthority::UpdateAuthority,
            offset,
        });
        data.extend(plugin.try_to_vec().unwrap());
    }
    let registry_at = data.len() as u64;
    let table = PluginRegistryV1 { key: Key::PluginRegistryV1, registry, external_registry: vec![] };
    data.extend(table.try_to_vec().unwrap());
    let header = PluginHeaderV1 { key: Key::PluginHeaderV1, plugin_registry_offset: registry_at };
    data[header_at..header_at + 9].copy_from_slice(&header.try_to_vec().unwrap());
    data
}

fn asset_data(owner: [u8; 32], authority: UpdateAuthority, plugins: Vec<Plugin>) -> Vec<u8> {
    let base = BaseAssetV1 {
        key: Key::AssetV1,
        owner: Pubkey::new_from_array(owner),
        update_authority: authority,
        name: "Asset".to_string(),
        uri: "https://example.com/asset.json".to_string(),
        seq: None,
    };
    with_plugins(base.try_to_vec().unwrap(), plugins)
}

fn held_asset(plugins: Vec<Plugin>) -> Vec<u8> {
    asset_data(HOLDER, UpdateAuthority::Collection(Pubkey::new_from_array(COLLECTION)), plugins)
}

fn collection_data(update_authority: [u8; 32], plugins: Vec<Plugin>) -> Vec<u8> {
    let base = BaseCollectionV1 {
        key: Key::CollectionV1,
        update_authority: Pubkey::new_from_array(update_authority),
        name: "Collection".to_string(),
        uri: "https://example.com/collection.json".to_string(),
        num_minted: 1,
        current_size: 1,
    };
    with_plugins(base.try_to_vec().unwrap(), plugins)
}

fn attributes(list: &[(&str, &str)]) -> Plugin {
    Plugin::Attributes(Attributes {
        attribute_list: list
            .iter()
            .map(|(k, v)| CoreAttribute { key: k.to_string(), value: v.to_string() })
            .collect(),
    })
}

fn pairs(list: &[Attribute]) -> Vec<(String, String)> {
    list.iter().map(|a| (a.key.clone(), a.value.clone())).collect()
}

fn owned(list: &[(&str, &str)]) -> Vec<(String, String)> {
    list.iter().map(|(k, v)| (k.to_string(), v.to_string())).collect()
}

fn stake_on(asset: Vec<u8>, collection: Vec<u8>) -> Stake {
    Stake {
        stakeholder: HOLDER,
        prog_auth: PROG_AUTH,
        collection: COLLECTION,
        asset_data: asset,
        asset_account_owner: core_program(),
        collection_data: collection,
        collection_account_owner: core_program(),
    }
}

fn claim_on(asset: Vec<u8>, collection: Vec<u8>, points_per_stake: u32) -> ClaimRewards {
    ClaimRewards {
        stakeholder: HOLDER,
        prog_auth: PROG_AUTH,
        collection: COLLECTION,
        config: Config { points_per_stake, freeze_period: 7, rewards_bump: 254, config_bump: 253 },
        asset_data: asset,
        asset_account_owner: core_program(),
        collection_data: collection,
    }
}

fn added(w: &PluginWrite) -> Vec<(String, String)> {
    match w {
        PluginWrite::Add(v) => pairs(v),
        PluginWrite::Update(_) => panic!("expected a plugin to be added"),
    }
}

fn updated(w: &PluginWrite) -> Vec<(String, String)> {
    match w {
        PluginWrite::Update(v) => pairs(v),
        PluginWrite::Add(_) => panic!("expected a plugin update"),
    }
}

fn plan(r: Result<StakePlan, InstructionError>) -> StakePlan {
    r.expect("stake should succeed")
}

#[test]
fn first_stake_adds_every_plugin() {
    let p = plan(stake_on(held_asset(vec![]), collection_data(PROG_AUTH, vec![])).stake(5000));
    assert_eq!(added(&p.asset_attributes), owned(&[("staked", "true"), ("staked_at", "5000")]));
    assert_eq!(p.freeze, FreezeWrite::AddByOwner);
    assert_eq!(added(&p.collection_attributes), owned(&[("total_staked", "1")]));
}

#[test]
fn restake_updates_existing_plugins() {
    let asset = held_asset(vec![
        attributes(&[("staked", "false"), ("staked_at", "1"), ("rarity", "rare")]),
        Plugin::FreezeDelegate(FreezeDelegate { frozen: false }),
    ]);
    let collection = collection_data(PROG_AUTH, vec![attributes(&[("total_staked", "41")])]);
    let p = plan(stake_on(asset, collection).stake(77));
    assert_eq!(updated(&p.asset_attributes), owned(&[("staked", "true"), ("staked_at", "77"), ("rarity", "rare")]));
    assert_eq!(p.freeze, FreezeWrite::UpdateByProgram);
    assert_eq!(updated(&p.collection_attributes), owned(&[("total_staked", "42")]));
}

#[test]
fn stake_refusals() {
    let collection = collection_data(PROG_AUTH, vec![]);
    let foreign = asset_data(STRANGER, UpdateAuthority::Collection(Pubkey::new_from_array(COLLECTION)), vec![]);
    assert_eq!(
        stake_on(foreign, collection.clone()).stake(1).unwrap_err(),
        InstructionError::Staking(StakingError::InvalidOwner)
    );
    let loose = asset_data(HOLDER, UpdateAuthority::Address(Pubkey::new_from_array(COLLECTION)), vec![]);
    assert_eq!(
        stake_on(loose, collection.clone()).stake(1).unwrap_err(),
        InstructionError::Staking(StakingError::InvalidAuthority)
    );
    let other_collection = asset_data(HOLDER, UpdateAuthority::Collection(Pubkey::new_from_array(STRANGER)), vec![]);
    assert_eq!(
        stake_on(other_collection, collection.clone()).stake(1).unwrap_err(),
        InstructionError::Staking(StakingError::InvalidAuthority)
    );
    assert_eq!(
        stake_on(held_asset(vec![]), collection_data(STRANGER, vec![])).stake(1).unwrap_err(),
        InstructionError::Staking(StakingError::InvalidAuthority)
    );
    assert_eq!(stake_on(vec![0, 1], collection.clone()).stake(1).unwrap_err(), InstructionError::AccountData);
    assert_eq!(stake_on(held_asset(vec![]), vec![]).stake(1).unwrap_err(), InstructionError::AccountData);
    let staked = held_asset(vec![attributes(&[("staked", "true")])]);
    assert_eq!(
        stake_on(staked, collection).stake(1).unwrap_err(),
        InstructionError::Staking(StakingError::AlreadyStaked)
    );
}

#[test]
fn checked_stake_stops_at_a_full_count() {
    let full = collection_data(PROG_AUTH, vec![attributes(&[("total_staked", "18446744073709551615")])]);
    assert!(stake_on(held_asset(vec![]), full.clone()).checked_stake(1).is_none());
    let staked = held_asset(vec![attributes(&[("staked", "true")])]);
    assert_eq!(
        stake_on(staked, full).checked_stake(1).unwrap().unwrap_err(),
        InstructionError::Staking(StakingError::AlreadyStaked)
    );
    let p = stake_on(held_asset(vec![]), collection_data(PROG_AUTH, vec![])).checked_stake(9).unwrap().unwrap();
    assert_eq!(added(&p.asset_attributes), owned(&[("staked", "true"), ("staked_at", "9")]));
}

#[test]
fn claim_mints_and_restarts() {
    let asset = held_asset(vec![attributes(&[("staked", "true"), ("staked_at", "100")])]);
    let p = claim_on(asset, collection_data(PROG_AUTH, vec![]), 25).claim_rewards(100 + 2 * 86400).unwrap();
    assert_eq!(p.reward, 50);
    assert_eq!(pairs(&p.asset_attributes), owned(&[("staked", "true"), ("staked_at", "172900")]));
}

#[test]
fn plugins_count_only_on_core_accounts() {
    let asset = held_asset(vec![attributes(&[("staked", "true"), ("staked_at", "100")])]);
    let mut claim = claim_on(asset, collection_data(PROG_AUTH, vec![]), 1);
    claim.asset_account_owner = STRANGER;
    assert_eq!(claim.claim_rewards(1_000_000).unwrap_err(), InstructionError::Staking(StakingError::NotStaked));
}

#[test]
fn claim_refusals_from_accounts() {
    let collection = collection_data(PROG_AUTH, vec![]);
    assert_eq!(
        claim_on(held_asset(vec![]), collection.clone(), 1).claim_rewards(1).unwrap_err(),
        InstructionError::Staking(StakingError::NotStaked)
    );
    let fresh = held_asset(vec![attributes(&[("staked", "true"), ("staked_at", "100")])]);
    assert_eq!(
        claim_on(fresh, collection.clone(), 1).claim_rewards(200).unwrap_err(),
        InstructionError::Staking(StakingError::FreezePeriodNotElapsed)
    );
    let foreign = asset_data(STRANGER, UpdateAuthority::Collection(Pubkey::new_from_array(COLLECTION)), vec![]);
    assert_eq!(
        claim_on(foreign, collection, 1).claim_rewards(1).unwrap_err(),
        InstructionError::Staking(StakingError::InvalidOwner)
    );
}

#[test]
fn init_config_records_the_settings() {
    let bumps = InitConfigBumps { prog_auth: 250, config: 251, rewards_mint: 252 };
    let init = InitConfig { prog_auth: PROG_AUTH, collection_data: collection_data(PROG_AUTH, vec![]) };
    let config = init.init_config(10, 3, &bumps).unwrap();
    assert_eq!(config, Config { points_per_stake: 10, freeze_period: 3, rewards_bump: 252, config_bump: 251 });
    let other = InitConfig { prog_auth: PROG_AUTH, collection_data: collection_data(STRANGER, vec![]) };
    assert_eq!(other.init_config(10, 3, &bumps).unwrap_err(), InstructionError::Staking(StakingError::InvalidAuthority));
    let broken = InitConfig { prog_auth: PROG_AUTH, collection_data: vec![1] };
    assert_eq!(broken.init_config(10, 3, &bumps).unwrap_err(), InstructionError::AccountData);
}

#[test]
fn created_collections_count_from_zero() {
    let plan = CreateCollection { prog_auth: PROG_AUTH }.create_collection("Club".to_string(), "uri://club".to_string());
    assert_eq!(plan.name, "Club");
    assert_eq!(plan.uri, "uri://club");
    assert_eq!(plan.update_authority, PROG_AUTH);
    assert_eq!(pairs(&plan.attributes), owned(&[("total_staked", "0")]));
}

#[test]
fn minting_adds_a_missing_burn_delegate() {
    let mint = Mint { payer: HOLDER, collection: COLLECTION, prog_auth: PROG_AUTH, asset_account_owner: core_program() };
    let plan = mint.mint_nft("Asset".to_string(), "uri://asset".to_string());
    assert_eq!((plan.payer, plan.owner, plan.collection, plan.authority), (HOLDER, HOLDER, COLLECTION, PROG_AUTH));
    assert_eq!(plan.update_authority, None);
    assert_eq!((plan.name.as_str(), plan.uri.as_str()), ("Asset", "uri://asset"));
    assert_eq!(mint.burn_delegate_authority(&held_asset(vec![])), Some(HOLDER));
    let burnable = held_asset(vec![Plugin::BurnDelegate(BurnDelegate {})]);
    assert_eq!(mint.burn_delegate_authority(&burnable), None);
    let elsewhere = Mint { asset_account_owner: STRANGER, ..mint };
    assert_eq!(elsewhere.burn_delegate_authority(&held_asset(vec![Plugin::BurnDelegate(BurnDelegate {})])), Some(HOLDER));
}

#[test]
fn decided_stakes_follow_the_records() {
    let request = stake_on(vec![], vec![]);
    let held = AssetRecord { owner: HOLDER, update_authority: AssetAuthority::Collection(COLLECTION) };
    let governed = CollectionRecord { update_authority: PROG_AUTH };
    let p = request.decide(Some(held), Some(governed), None, true, None, 3).unwrap();
    assert_eq!(added(&p.asset_attributes), owned(&[("staked", "true"), ("staked_at", "3")]));
    assert_eq!(p.freeze, FreezeWrite::UpdateByProgram);
    let unowned = AssetRecord { owner: STRANGER, update_authority: AssetAuthority::Collection(COLLECTION) };
    assert_eq!(
        request.decide(Some(unowned), Some(governed), None, true, None, 3).unwrap_err(),
        InstructionError::Staking(StakingError::InvalidOwner)
    );
    let unassigned = AssetRecord { owner: HOLDER, update_authority: AssetAuthority::Unassigned };
    assert_eq!(
        request.decide(Some(unassigned), Some(governed), None, true, None, 3).unwrap_err(),
        InstructionError::Staking(StakingError::InvalidAuthority)
    );
    assert_eq!(request.decide(None, Some(governed), None, true, None, 3).unwrap_err(), InstructionError::AccountData);
}

#[test]
fn decided_claims_follow_the_records() {
    let request = claim_on(vec![], vec![], 5);
    let held = AssetRecord { owner: HOLDER, update_authority: AssetAuthority::Collection(COLLECTION) };
    let governed = CollectionRecord { update_authority: PROG_AUTH };
    let staked = vec![
        Attribute { key: "staked".to_string(), value: "true".to_string() },
        Attribute { key: "staked_at".to_string(), value: "0".to_string() },
    ];
    let p = request.decide(Some(held), Some(governed), Some(staked), 2 * 86400).unwrap();
    assert_eq!(p.reward, 10);
    assert_eq!(
        request.decide(Some(held), None, None, 2 * 86400).unwrap_err(),
        InstructionError::AccountData
    );
    assert_eq!(
        request.decide(Some(held), Some(governed), None, 2 * 86400).unwrap_err(),
        InstructionError::Staking(StakingError::NotStaked)
    );
}

#[test]
fn decoded_headers_reach_the_checks() {
    let addressed = asset_data(HOLDER, UpdateAuthority::Address(Pubkey::new_from_array(COLLECTION)), vec![]);
    let init = InitConfig { prog_auth: STRANGER, collection_data: collection_data(PROG_AUTH, vec![]) };
    let bumps = InitConfigBumps { prog_auth: 1, config: 2, rewards_mint: 3 };
    assert_eq!(init.init_config(1, 1, &bumps).unwrap_err(), InstructionError::Staking(StakingError::InvalidAuthority));
    assert_eq!(
        stake_on(addressed, collection_data(PROG_AUTH, vec![])).stake(1).unwrap_err(),
        InstructionError::Staking(StakingError::InvalidAuthority)
    );
}

#[test]
fn stake_and_claim_share_account_checks() {
    let collection = collection_data(PROG_AUTH, vec![]);
    let cases = vec![
        asset_data(STRANGER, UpdateAuthority::Collection(Pubkey::new_from_array(COLLECTION)), vec![]),
        asset_data(HOLDER, UpdateAuthority::None, vec![]),
        vec![42],
    ];
    for asset in cases {
        let staked = stake_on(asset.clone(), collection.clone()).stake(1).unwrap_err();
        let claimed = claim_on(asset, collection.clone(), 1).claim_rewards(1).unwrap_err();
        assert_eq!(staked, claimed);
    }
}

fn with_registry_offset(mut data: Vec<u8>, base_len: usize, registry_at: u64) -> Vec<u8> {
    let header = PluginHeaderV1 { key: Key::PluginHeaderV1, plugin_registry_offset: registry_at };
    data[base_len..base_len + 9].copy_from_slice(&header.try_to_vec().unwrap());
    data
}

fn with_record_offset(base: Vec<u8>, plugin: PluginType, record_at: u64) -> Vec<u8> {
    let mut data = base;
    let header_at = data.len();
    data.extend(vec![0u8; 9]);
    let registry_at = data.len() as u64;
    let record = RegistryRecord { plugin_type: plugin, authority: PluginAuthority::UpdateAuthority, offset: record_at };
    let table = PluginRegistryV1 { key: Key::PluginRegistryV1, registry: vec![record], external_registry: vec![] };
    data.extend(table.try_to_vec().unwrap());
    with_registry_offset(data, header_at, registry_at)
}

fn held_base() -> Vec<u8> {
    held_asset(vec![])
}

#[test]
fn lookups_past_the_data_abort() {
    let base_len = held_base().len();
    let broken_header = with_registry_offset(held_asset(vec![attributes(&[("x", "y")])]), base_len, 1_000_000);
    let collection = collection_data(PROG_AUTH, vec![]);
    assert!(stake_on(broken_header.clone(), collection.clone()).checked_stake(5).is_none());
    assert!(claim_on(broken_header.clone(), collection.clone(), 1).checked_claim_rewards(5).is_none());
    let mint = Mint { payer: HOLDER, collection: COLLECTION, prog_auth: PROG_AUTH, asset_account_owner: core_program() };
    assert_eq!(mint.checked_burn_delegate_authority(&broken_header), None);

    let broken_record = with_record_offset(held_base(), PluginType::Attributes, 1_000_000);
    assert!(stake_on(broken_record.clone(), collection.clone()).checked_stake(5).is_none());
    assert!(claim_on(broken_record.clone(), collection.clone(), 1).checked_claim_rewards(5).is_none());
    assert_eq!(mint.checked_burn_delegate_authority(&broken_record), Some(Some(HOLDER)));
}

#[test]
fn aborts_only_after_the_account_checks() {
    let base_len = held_base().len();
    let broken = with_registry_offset(held_asset(vec![attributes(&[("x", "y")])]), base_len, 1_000_000);
    let mut request = stake_on(broken, collection_data(PROG_AUTH, vec![]));
    request.stakeholder = STRANGER;
    assert_eq!(
        request.checked_stake(5).unwrap().unwrap_err(),
        InstructionError::Staking(StakingError::InvalidOwner)
    );
    let mut elsewhere = stake_on(held_asset(vec![attributes(&[("x", "y")])]), collection_data(PROG_AUTH, vec![]));
    elsewhere.asset_account_owner = STRANGER;
    let plan = elsewhere.checked_stake(5).unwrap().unwrap();
    assert_eq!(added(&plan.asset_attributes), owned(&[("staked", "true"), ("staked_at", "5")]));
}

#[test]
fn later_lookups_are_checked_too() {
    let collection = collection_data(PROG_AUTH, vec![]);
    let broken_freeze = with_record_offset(held_base(), PluginType::FreezeDelegate, 1_000_000);
    assert!(stake_on(broken_freeze.clone(), collection.clone()).checked_stake(5).is_none());
    let p = claim_on(broken_freeze, collection.clone(), 1).checked_claim_rewards(5).unwrap();
    assert_eq!(p.unwrap_err(), InstructionError::Staking(StakingError::NotStaked));
    let collection_base = collection_data(PROG_AUTH, vec![]);
    let broken_collection = with_record_offset(collection_base, PluginType::Attributes, 1_000_000);
    assert!(stake_on(held_base(), broken_collection.clone()).checked_stake(5).is_none());
    let staked = held_asset(vec![attributes(&[("staked", "true")])]);
    assert_eq!(
        stake_on(staked, broken_collection).checked_stake(5).unwrap().unwrap_err(),
        InstructionError::Staking(StakingError::AlreadyStaked)
    );
}

#[test]
fn account_checks_stand_alone() {
    let ok = stake_on(held_base(), collection_data(PROG_AUTH, vec![]));
    assert_eq!(ok.check_accounts(), Ok(()));
    let claim = claim_on(held_base(), collection_data(STRANGER, vec![]), 1);
    assert_eq!(claim.check_accounts(), Err(InstructionError::Staking(StakingError::InvalidAuthority)));
}

#[test]
fn created_minted_then_staked() {
    let collection = collection_data(PROG_AUTH, vec![attributes(&[("total_staked", "0")])]);
    let asset = held_asset(vec![Plugin::BurnDelegate(BurnDelegate {})]);
    let p = plan(stake_on(asset, collection).stake(600));
    assert_eq!(added(&p.asset_attributes), owned(&[("staked", "true"), ("staked_at", "600")]));
    assert_eq!(p.freeze, FreezeWrite::AddByOwner);
    assert_eq!(updated(&p.collection_attributes), owned(&[("total_staked", "1")]));
}

#[test]
fn created_collections_can_be_configured() {
    let created = CreateCollection { prog_auth: PROG_AUTH }.create_collection("C".to_string(), "u".to_string());
    let init = InitConfig { prog_auth: created.update_authority, collection_data: collection_data(created.update_authority, vec![]) };
    let bumps = InitConfigBumps { prog_auth: 9, config: 8, rewards_mint: 7 };
    assert_eq!(
        init.init_config(4, 2, &bumps).unwrap(),
        Config { points_per_stake: 4, freeze_period: 2, rewards_bump: 7, config_bump: 8 }
    );
}

#[test]
fn registry_records_are_searched_in_order() {
    let records = vec![
        RegistryEntry { code: 1, offset: 10 },
        RegistryEntry { code: 6, offset: 20 },
        RegistryEntry { code: 6, offset: 30 },
    ];
    assert_eq!(first_record_offset(&records, 6), Some(20));
    assert_eq!(first_record_offset(&records, 2), None);
    assert!(lookup_in_bounds(None, &[1, 2, 3], PluginKind::Attributes));
    assert!(lookup_in_bounds(Some(3), &[1, 2, 3], PluginKind::Attributes));
    assert!(!lookup_in_bounds(Some(4), &[1, 2, 3], PluginKind::Attributes));
}
