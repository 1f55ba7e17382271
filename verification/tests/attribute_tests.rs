use nft_staking_core::attributes::{claim_attributes, count_attributes, stake_attributes, Attribute};
use nft_staking_core::errors::StakingError;

fn attr(k: &str, v: &str) -> Attribute {
    Attribute { key: k.to_string(), value: v.to_string() }
}

fn pairs(list: &[Attribute]) -> Vec<(String, String)> {
    list.iter().map(|a| (a.key.clone(), a.value.clone())).collect()
}

fn owned(list: &[(&str, &str)]) -> Vec<(String, String)> {
    list.iter().map(|(k, v)| (k.to_string(), v.to_string())).collect()
}

#[test]
fn staking_an_empty_plugin_appends_both_entries() {
    let out = stake_attributes(&vec![], 1000).unwrap();
    assert_eq!(pairs(&out), owned(&[("staked", "true"), ("staked_at", "1000")]));
}

#[test]
fn staking_rewrites_entries_in_place() {
    let list = vec![attr("level", "3"), attr("staked_at", "5"), attr("staked", "false"), attr("staked", "false")];
    let out = stake_attributes(&list, -7).unwrap();
    assert_eq!(
        pairs(&out),
        owned(&[("level", "3"), ("staked_at", "-7"), ("staked", "true"), ("staked", "true")])
    );
}

#[test]
fn staking_appends_missing_time_only() {
    let out = stake_attributes(&vec![attr("staked", "false")], 42).unwrap();
    assert_eq!(pairs(&out), owned(&[("staked", "true"), ("staked_at", "42")]));
}

#[test]
fn staking_refuses_a_staked_asset() {
    assert_eq!(stake_attributes(&vec![attr("staked", "true")], 1).unwrap_err(), StakingError::AlreadyStaked);
    assert_eq!(stake_attributes(&vec![attr("staked", "FALSE")], 1).unwrap_err(), StakingError::AlreadyStaked);
    assert_eq!(
        stake_attributes(&vec![attr("staked", "false"), attr("staked", "")], 1).unwrap_err(),
        StakingError::AlreadyStaked
    );
}

#[test]
fn claim_pays_whole_days() {
    let list = vec![attr("staked", "true"), attr("staked_at", "1000"), attr("tier", "gold")];
    let (reward, out) = claim_attributes(&list, 1000 + 3 * 86400 + 5, 10).unwrap();
    assert_eq!(reward, 30);
    assert_eq!(pairs(&out), owned(&[("staked", "true"), ("staked_at", "260205"), ("tier", "gold")]));
}

#[test]
fn claim_reads_padded_times() {
    let list = vec![attr("staked_at", "\0\0 0 \0"), attr("staked", "true")];
    let (reward, _) = claim_attributes(&list, 86400, 7).unwrap();
    assert_eq!(reward, 7);
}

#[test]
fn claim_needs_a_full_day() {
    let list = vec![attr("staked", "true"), attr("staked_at", "1000")];
    assert_eq!(claim_attributes(&list, 1000 + 86399, 10).unwrap_err(), StakingError::FreezePeriodNotElapsed);
    assert_eq!(claim_attributes(&list, 0, 10).unwrap_err(), StakingError::FreezePeriodNotElapsed);
}

#[test]
fn claim_refusals() {
    let unstaked = vec![attr("staked", "false"), attr("staked_at", "0")];
    assert_eq!(claim_attributes(&unstaked, 86400 * 2, 1).unwrap_err(), StakingError::NotStaked);
    let no_flag = vec![attr("staked_at", "0")];
    assert_eq!(claim_attributes(&no_flag, 86400 * 2, 1).unwrap_err(), StakingError::NotStaked);
    let no_time = vec![attr("staked", "true")];
    assert_eq!(claim_attributes(&no_time, 86400 * 2, 1).unwrap_err(), StakingError::InvalidTimestamp);
    let bad_time = vec![attr("staked", "true"), attr("staked_at", "12x")];
    assert_eq!(claim_attributes(&bad_time, 86400 * 2, 1).unwrap_err(), StakingError::InvalidTimestamp);
    let far_future = vec![attr("staked", "true"), attr("staked_at", "9223372036854775807")];
    assert_eq!(claim_attributes(&far_future, -2, 1).unwrap_err(), StakingError::InvalidTimestamp);
    let ancient = vec![attr("staked", "true"), attr("staked_at", "0")];
    assert_eq!(claim_attributes(&ancient, i64::MAX, u32::MAX).unwrap_err(), StakingError::Overflow);
}

#[test]
fn claim_uses_the_last_entries() {
    let list = vec![attr("staked", "false"), attr("staked_at", "junk"), attr("staked", "true"), attr("staked_at", "0")];
    let (reward, out) = claim_attributes(&list, 86400, 3).unwrap();
    assert_eq!(reward, 3);
    assert_eq!(
        pairs(&out),
        owned(&[("staked", "false"), ("staked_at", "86400"), ("staked", "true"), ("staked_at", "86400")])
    );
}

#[test]
fn counting_raises_the_count() {
    let out = count_attributes(&vec![attr("total_staked", "5"), attr("other", "x")]);
    assert_eq!(pairs(&out), owned(&[("total_staked", "6"), ("other", "x")]));
}

#[test]
fn counting_restarts_unreadable_counts_and_adds_missing_ones() {
    assert_eq!(pairs(&count_attributes(&vec![attr("total_staked", "abc")])), owned(&[("total_staked", "1")]));
    assert_eq!(pairs(&count_attributes(&vec![attr("x", "y")])), owned(&[("x", "y"), ("total_staked", "1")]));
}
