//! Properties that hold across the program's instructions.
use vstd::prelude::*;

use crate::attributes::{
    blocks_staking, claim_outcome, claim_rewrite, claimed_list, counted_list, has_key, key_staked,
    key_staked_at, key_total_staked, last_value, next_count, reward_between, stake_count, stake_rewrite,
    stake_time, staked_flag, staked_list, text_false, text_true, AttributeView, SECONDS_PER_DAY,
};
use crate::accounts::{
    asset_attributes, collection_attributes, decoded_asset, decoded_collection, freeze_delegate_found,
    AssetAuthority, AssetRecord, CollectionRecord,
};
use crate::errors::{InstructionError, StakingError};
use crate::instructions::claim_rewards::{claim_decision, settlement, ClaimPlanView, ClaimRewards};
use crate::instructions::holder::holder_check;
use crate::instructions::init_config::{config_outcome, InitConfig, InitConfigBumps};
use crate::instructions::create_collection::CreateCollection;
use crate::instructions::stake::{
    counting_write, stake_decision, stake_overflows, staking_write, FreezeWrite, PluginWriteView, Stake,
    StakePlanView,
};
use crate::state::Config;
use crate::text::{
    clean_text, int_text, lemma_clean_int_text, lemma_parse_i64_of_text, lemma_parse_u64_of_text,
    nat_text, spec_parse_i64, spec_parse_u64,
};

verus! {

/// The attribute list that a plugin write leaves.
pub open spec fn written_list(w: PluginWriteView) -> Seq<AttributeView> {
    match w {
        PluginWriteView::Add(s) => s,
        PluginWriteView::Update(s) => s,
    }
}

/// The keys and values the program uses are distinct texts.
proof fn lemma_literals_differ()
    ensures
        key_staked() != key_staked_at(),
        text_true() != text_false(),
{
    assert(key_staked().len() == 6);
    assert(key_staked_at().len() == 9);
    assert(text_true().len() == 4);
    assert(text_false().len() == 5);
}

/// If every attribute of `s` with key `k` holds `v`, and there is one, the last
/// value under `k` is `v`.
proof fn lemma_last_value_uniform(s: Seq<AttributeView>, k: Seq<char>, v: Seq<char>)
    requires
        has_key(s, k),
        forall|j: int| 0 <= j < s.len() && #[trigger] s[j].key == k ==> s[j].value == v,
    ensures
        last_value(s, k) == Some(v),
    decreases s.len(),
{
    if s.last().key != k {
        let t = s.drop_last();
        let w: int = choose|j: int| 0 <= j < s.len() && #[trigger] s[j].key == k;
        assert(t[w].key == k);
        assert(has_key(t, k));
        assert forall|j: int| 0 <= j < t.len() && #[trigger] t[j].key == k implies t[j].value == v by {
            assert(s[j].key == k);
        }
        lemma_last_value_uniform(t, k, v);
    }
}

/// A last value under `k` means an attribute with key `k`.
proof fn lemma_last_value_has_key(s: Seq<AttributeView>, k: Seq<char>)
    requires
        last_value(s, k) is Some,
    ensures
        has_key(s, k),
    decreases s.len(),
{
    if s.last().key == k {
        assert(s[s.len() - 1].key == k);
    } else {
        lemma_last_value_has_key(s.drop_last(), k);
        let t = s.drop_last();
        let w: int = choose|j: int| 0 <= j < t.len() && #[trigger] t[j].key == k;
        assert(s[w].key == k);
    }
}

/// A claim leaves the last `staked` value as it was.
proof fn lemma_claim_keeps_flag(s: Seq<AttributeView>, now: int)
    ensures
        last_value(claimed_list(s, now), key_staked()) == last_value(s, key_staked()),
    decreases s.len(),
{
    if s.len() > 0 {
        let c = claimed_list(s, now);
        assert(c.drop_last() =~= claimed_list(s.drop_last(), now));
        lemma_claim_keeps_flag(s.drop_last(), now);
        lemma_literals_differ();
    }
}

/// The attributes written by a stake at `start` read back as: staked, since `start`.
proof fn lemma_staked_list_reads(s: Seq<AttributeView>, start: int)
    requires
        !blocks_staking(s),
    ensures
        last_value(staked_list(s, start), key_staked()) == Some(text_true()),
        last_value(staked_list(s, start), key_staked_at()) == Some(int_text(start)),
{
    let out = staked_list(s, start);
    let rewritten = Seq::new(s.len(), |j: int| stake_rewrite(s[j], start));
    lemma_literals_differ();
    assert forall|j: int| 0 <= j < out.len() && #[trigger] out[j].key == key_staked() implies out[j].value
        == text_true() by {
        if j < s.len() {
            assert(out[j] == stake_rewrite(s[j], start));
        }
    }
    assert forall|j: int| 0 <= j < out.len() && #[trigger] out[j].key == key_staked_at() implies out[j].value
        == int_text(start) by {
        if j < s.len() {
            assert(out[j] == stake_rewrite(s[j], start));
        }
    }
    if has_key(s, key_staked()) {
        let w: int = choose|j: int| 0 <= j < s.len() && #[trigger] s[j].key == key_staked();
        assert(out[w].key == key_staked());
    } else {
        let with_flag = rewritten.push(staked_flag());
        assert(with_flag[s.len() as int].key == key_staked());
        assert(out[s.len() as int] == with_flag[s.len() as int]);
    }
    assert(has_key(out, key_staked()));
    if has_key(s, key_staked_at()) {
        let w: int = choose|j: int| 0 <= j < s.len() && #[trigger] s[j].key == key_staked_at();
        assert(out[w].key == key_staked_at());
    } else {
        assert(out[out.len() - 1] == stake_time(start));
    }
    assert(has_key(out, key_staked_at()));
    lemma_last_value_uniform(out, key_staked(), text_true());
    lemma_last_value_uniform(out, key_staked_at(), int_text(start));
}

/// Attributes that read as staked since `start` earn what a stake from `start` earns.
proof fn lemma_claim_from(s: Seq<AttributeView>, start: i64, now: int, points: int)
    requires
        last_value(s, key_staked()) == Some(text_true()),
        last_value(s, key_staked_at()) == Some(int_text(start as int)),
    ensures
        claim_outcome(s, now, points) == reward_between(start as int, now, points),
{
    lemma_clean_int_text(start as int);
    lemma_parse_i64_of_text(start);
}

/// The time that staking records reads back exactly: trimming it changes
/// nothing and parsing it gives the time back.
pub proof fn law_stake_time_round_trip(now: i64)
    ensures
        spec_parse_i64(clean_text(int_text(now as int))) == Some(now),
{
    lemma_clean_int_text(now as int);
    lemma_parse_i64_of_text(now);
}

/// A stake count reads back exactly as the number it was written from.
pub proof fn law_count_round_trip(n: u64)
    ensures
        spec_parse_u64(nat_text(n as nat)) == Some(n),
{
    lemma_parse_u64_of_text(n);
}

/// Staking an asset without an Attributes plugin writes what staking an
/// empty plugin would: `staked` is `true`, and rewards start at `now`.
pub proof fn law_fresh_stake_is_empty_stake(now: i64)
    ensures
        staking_write(None, now as int) == Ok::<PluginWriteView, StakingError>(
            PluginWriteView::Add(staked_list(Seq::empty(), now as int)),
        ),
{
    assert(!blocks_staking(Seq::<AttributeView>::empty()));
    assert(staked_list(Seq::empty(), now as int) =~= seq![staked_flag(), stake_time(now as int)]);
}

/// A claim on an asset that staking at `start` marked earns `points` for each
/// whole day from `start` to `now`: it is refused for less than a day, and
/// when the time or the reward leaves its integer range.
pub proof fn law_stake_then_claim(
    fetched: Option<Seq<AttributeView>>,
    start: i64,
    now: i64,
    points: u32,
    write: PluginWriteView,
)
    requires
        staking_write(fetched, start as int) == Ok::<PluginWriteView, StakingError>(write),
    ensures
        claim_outcome(written_list(write), now as int, points as int) == reward_between(
            start as int,
            now as int,
            points as int,
        ),
        reward_between(start as int, now as int, points as int) matches Ok(reward) ==> reward
            == points * ((now - start) / SECONDS_PER_DAY as int),
{
    match fetched {
        None => {
            let s = written_list(write);
            assert(s =~= staked_list(Seq::empty(), start as int));
            assert(!blocks_staking(Seq::<AttributeView>::empty()));
            lemma_staked_list_reads(Seq::empty(), start as int);
        },
        Some(s) => {
            lemma_staked_list_reads(s, start as int);
        },
    }
    lemma_claim_from(written_list(write), start, now as int, points as int);
}

/// After a successful claim at `claimed_at`, the next claim counts whole days
/// from `claimed_at`: rewards restart from each claim.
pub proof fn law_claim_restarts(
    attributes: Option<Seq<AttributeView>>,
    claimed_at: i64,
    now: i64,
    points: u32,
    plan: ClaimPlanView,
)
    requires
        settlement(attributes, claimed_at as int, points as int) == Ok::<ClaimPlanView, StakingError>(plan),
    ensures
        settlement(Some(plan.asset_attributes), now as int, points as int) matches Ok(next) ==> next.reward
            == points * ((now - claimed_at) / SECONDS_PER_DAY as int),
        claim_outcome(plan.asset_attributes, now as int, points as int) == reward_between(
            claimed_at as int,
            now as int,
            points as int,
        ),
{
    let s = attributes->0;
    let c = claimed_list(s, claimed_at as int);
    lemma_claim_keeps_flag(s, claimed_at as int);
    lemma_last_value_has_key(s, key_staked_at());
    let w: int = choose|j: int| 0 <= j < s.len() && #[trigger] s[j].key == key_staked_at();
    assert(c[w].key == key_staked_at());
    assert(has_key(c, key_staked_at()));
    assert forall|j: int| 0 <= j < c.len() && #[trigger] c[j].key == key_staked_at() implies c[j].value
        == int_text(claimed_at as int) by {
        assert(c[j] == claim_rewrite(s[j], claimed_at as int));
    }
    lemma_last_value_uniform(c, key_staked_at(), int_text(claimed_at as int));
    lemma_claim_from(c, claimed_at, now as int, points as int);
}

/// An asset that a stake has marked cannot be staked again.
pub proof fn law_no_double_stake(fetched: Option<Seq<AttributeView>>, start: i64, later: i64, write: PluginWriteView)
    requires
        staking_write(fetched, start as int) == Ok::<PluginWriteView, StakingError>(write),
    ensures
        staking_write(Some(written_list(write)), later as int) == Err::<PluginWriteView, StakingError>(
            StakingError::AlreadyStaked,
        ),
{
    let s = written_list(write);
    match fetched {
        None => {
            assert(s =~= staked_list(Seq::empty(), start as int));
            assert(!blocks_staking(Seq::<AttributeView>::empty()));
            lemma_staked_list_reads(Seq::empty(), start as int);
        },
        Some(f) => {
            lemma_staked_list_reads(f, start as int);
        },
    }
    lemma_last_value_has_key(s, key_staked());
    let w: int = choose|j: int| 0 <= j < s.len() && #[trigger] s[j].key == key_staked();
    lemma_literals_differ();
    assert(s[w].value == text_true()) by {
        lemma_last_value_uniform_value(s, key_staked(), w, start as int, fetched);
    }
    assert(blocks_staking(s));
}

/// In what a stake writes, every `staked` attribute holds `true`.
proof fn lemma_last_value_uniform_value(
    s: Seq<AttributeView>,
    k: Seq<char>,
    w: int,
    start: int,
    fetched: Option<Seq<AttributeView>>,
)
    requires
        k == key_staked(),
        0 <= w < s.len(),
        s[w].key == k,
        staking_write(fetched, start) is Ok,
        s == written_list(staking_write(fetched, start)->Ok_0),
    ensures
        s[w].value == text_true(),
{
    lemma_literals_differ();
    match fetched {
        None => {},
        Some(f) => {
            if w < f.len() {
                assert(s[w] == stake_rewrite(f[w], start));
            }
        },
    }
}

/// Counting a stake on a collection whose count is `n` leaves the count `n + 1`;
/// a collection with no Attributes plugin gets a count of one.
pub proof fn law_count_increments(n: u64)
    requires
        n < u64::MAX,
    ensures
        counting_write(Some(seq![stake_count(n as nat)])) == PluginWriteView::Update(
            seq![stake_count((n + 1) as nat)],
        ),
        counting_write(None) == PluginWriteView::Add(seq![stake_count(1)]),
{
    let s = seq![stake_count(n as nat)];
    lemma_parse_u64_of_text(n);
    assert(s[0].key == key_total_staked());
    assert(has_key(s, key_total_staked()));
    assert(next_count(s[0].value) == n + 1);
    assert(counted_list(s) =~= seq![stake_count((n + 1) as nat)]);
}

/// Staking and claiming make the same account checks first: when the checks
/// refuse the accounts, both are refused for the same reason.
pub proof fn law_same_account_checks(
    asset: Option<AssetRecord>,
    collection_record: Option<CollectionRecord>,
    attributes: Option<Seq<AttributeView>>,
    frozen: bool,
    counts: Option<Seq<AttributeView>>,
    holder: Seq<u8>,
    collection: Seq<u8>,
    prog_auth: Seq<u8>,
    now: int,
    points: int,
    e: InstructionError,
)
    requires
        holder_check(asset, collection_record, holder, collection, prog_auth) == Err::<(), InstructionError>(e),
    ensures
        stake_decision(asset, collection_record, attributes, frozen, counts, holder, collection, prog_auth, now)
            == Err::<StakePlanView, InstructionError>(e),
        claim_decision(asset, collection_record, attributes, holder, collection, prog_auth, now, points)
            == Err::<ClaimPlanView, InstructionError>(e),
{
}

/// Whole days never add up to more when a span is split in two:
/// `a / d + b / d <= (a + b) / d` for `a, b >= 0` and `d > 0`.
proof fn lemma_split_days(a: int, b: int, d: int)
    requires
        a >= 0,
        b >= 0,
        d > 0,
    ensures
        a / d + b / d <= (a + b) / d,
{
    vstd::arithmetic::div_mod::lemma_fundamental_div_mod(a, d);
    vstd::arithmetic::div_mod::lemma_fundamental_div_mod(b, d);
    vstd::arithmetic::div_mod::lemma_fundamental_div_mod(a + b, d);
    vstd::arithmetic::div_mod::lemma_mod_pos_bound(a, d);
    vstd::arithmetic::div_mod::lemma_mod_pos_bound(b, d);
    vstd::arithmetic::div_mod::lemma_mod_pos_bound(a + b, d);
    let (qa, qb, q) = (a / d, b / d, (a + b) / d);
    let (ra, rb, r) = (a % d, b % d, (a + b) % d);
    assert(qa + qb <= q) by (nonlinear_arith)
        requires
            a == d * qa + ra,
            b == d * qb + rb,
            a + b == d * q + r,
            0 <= ra < d,
            0 <= rb < d,
            0 <= r < d,
            d > 0,
    ;
}

/// Splitting a stake's rewards over two claims never earns more than one
/// claim at the later time would: after staking at `start`, claims at `first_at`
/// and then `second_at` pay together at most `points` per whole day from
/// `start` to `second_at`.
pub proof fn law_split_claims_never_earn_more(
    fetched: Option<Seq<AttributeView>>,
    start: i64,
    first_at: i64,
    second_at: i64,
    points: u32,
    write: PluginWriteView,
    first: ClaimPlanView,
    second: ClaimPlanView,
)
    requires
        staking_write(fetched, start as int) == Ok::<PluginWriteView, StakingError>(write),
        settlement(Some(written_list(write)), first_at as int, points as int) == Ok::<
            ClaimPlanView,
            StakingError,
        >(first),
        settlement(Some(first.asset_attributes), second_at as int, points as int) == Ok::<
            ClaimPlanView,
            StakingError,
        >(second),
    ensures
        first.reward + second.reward <= points * ((second_at - start) / SECONDS_PER_DAY as int),
{
    law_stake_then_claim(fetched, start, first_at, points, write);
    law_claim_restarts(Some(written_list(write)), first_at, second_at, points, first);
    let d = SECONDS_PER_DAY as int;
    let a = first_at - start;
    let b = second_at - first_at;
    assert(first.reward == points * (a / d));
    assert(second.reward == points * (b / d));
    lemma_split_days(a, b, d);
    let (x, y, z) = (a / d, b / d, (a + b) / d);
    let p = points as int;
    assert(p * x + p * y <= p * z) by (nonlinear_arith)
        requires
            x + y <= z,
            p >= 0,
    ;
}

/// A second stake on an asset whose Attributes plugin holds what a first
/// stake wrote is refused with `AlreadyStaked`, once the account checks pass.
/// The premise on `second`'s plugin is the link that the Metaplex Core write
/// between the two stakes makes.
pub proof fn law_restake_refused(first: Stake, second: Stake, first_at: i64, second_at: i64, plan: StakePlanView)
    requires
        first.outcome(first_at as int) == Ok::<StakePlanView, InstructionError>(plan),
        holder_check(
            decoded_asset(second.asset_data@),
            decoded_collection(second.collection_data@),
            second.stakeholder@,
            second.collection@,
            second.prog_auth@,
        ) is Ok,
        asset_attributes(second.asset_data@, second.asset_account_owner@) == Some(
            written_list(plan.asset_attributes),
        ),
    ensures
        second.outcome(second_at as int) == Err::<StakePlanView, InstructionError>(
            InstructionError::Staking(StakingError::AlreadyStaked),
        ),
{
    let fetched = asset_attributes(first.asset_data@, first.asset_account_owner@);
    assert(staking_write(fetched, first_at as int) == Ok::<PluginWriteView, StakingError>(plan.asset_attributes));
    law_no_double_stake(fetched, first_at, second_at, plan.asset_attributes);
}

/// A claim on an asset whose Attributes plugin holds what a stake at `start`
/// wrote pays `points_per_stake` for each whole day since `start` and restarts
/// rewards from the claim, or is refused as `reward_between` says, once the
/// account checks pass.
pub proof fn law_stake_then_claim_on_accounts(
    stake: Stake,
    claim: ClaimRewards,
    start: i64,
    now: i64,
    plan: StakePlanView,
)
    requires
        stake.outcome(start as int) == Ok::<StakePlanView, InstructionError>(plan),
        holder_check(
            decoded_asset(claim.asset_data@),
            decoded_collection(claim.collection_data@),
            claim.stakeholder@,
            claim.collection@,
            claim.prog_auth@,
        ) is Ok,
        asset_attributes(claim.asset_data@, claim.asset_account_owner@) == Some(
            written_list(plan.asset_attributes),
        ),
    ensures
        claim.outcome(now as int) == (match reward_between(
            start as int,
            now as int,
            claim.config.points_per_stake as int,
        ) {
            Ok(reward) => Ok::<ClaimPlanView, InstructionError>(
                ClaimPlanView {
                    reward,
                    asset_attributes: claimed_list(written_list(plan.asset_attributes), now as int),
                },
            ),
            Err(e) => Err(InstructionError::Staking(e)),
        }),
{
    let fetched = asset_attributes(stake.asset_data@, stake.asset_account_owner@);
    assert(staking_write(fetched, start as int) == Ok::<PluginWriteView, StakingError>(plan.asset_attributes));
    law_stake_then_claim(fetched, start, now, claim.config.points_per_stake, plan.asset_attributes);
}

/// A claim on an asset whose Attributes plugin holds what an earlier claim at
/// `claimed_at` left pays for the whole days since `claimed_at`, or is refused
/// as `reward_between` says, once the account checks pass.
pub proof fn law_claims_restart_on_accounts(
    first: ClaimRewards,
    second: ClaimRewards,
    claimed_at: i64,
    now: i64,
    plan: ClaimPlanView,
)
    requires
        first.outcome(claimed_at as int) == Ok::<ClaimPlanView, InstructionError>(plan),
        first.config.points_per_stake == second.config.points_per_stake,
        holder_check(
            decoded_asset(second.asset_data@),
            decoded_collection(second.collection_data@),
            second.stakeholder@,
            second.collection@,
            second.prog_auth@,
        ) is Ok,
        asset_attributes(second.asset_data@, second.asset_account_owner@) == Some(plan.asset_attributes),
    ensures
        second.outcome(now as int) == (match reward_between(
            claimed_at as int,
            now as int,
            second.config.points_per_stake as int,
        ) {
            Ok(reward) => Ok::<ClaimPlanView, InstructionError>(
                ClaimPlanView { reward, asset_attributes: claimed_list(plan.asset_attributes, now as int) },
            ),
            Err(e) => Err(InstructionError::Staking(e)),
        }),
{
    let fetched = asset_attributes(first.asset_data@, first.asset_account_owner@);
    assert(settlement(fetched, claimed_at as int, first.config.points_per_stake as int) == Ok::<
        ClaimPlanView,
        StakingError,
    >(plan));
    law_claim_restarts(fetched, claimed_at, now, first.config.points_per_stake, plan);
}

/// The first stake on a freshly minted asset of a freshly created collection:
/// the asset has neither an Attributes nor a FreezeDelegate plugin, is owned by
/// the stakeholder and governed by the collection, and the collection is
/// updated by the program authority and counts zero stakes, as creating the
/// collection and minting the asset leave them. The stake then marks the asset
/// staked from `now`, freezes it, and counts one stake.
pub proof fn law_create_mint_stake(stake: Stake, now: i64)
    requires
        decoded_asset(stake.asset_data@) == Some(
            AssetRecord { owner: stake.stakeholder, update_authority: AssetAuthority::Collection(stake.collection) },
        ),
        decoded_collection(stake.collection_data@) == Some(CollectionRecord { update_authority: stake.prog_auth }),
        asset_attributes(stake.asset_data@, stake.asset_account_owner@) is None,
        !freeze_delegate_found(stake.asset_data@, stake.asset_account_owner@),
        collection_attributes(stake.collection_data@, stake.collection_account_owner@) == Some(
            seq![stake_count(0)],
        ),
    ensures
        stake.outcome(now as int) == Ok::<StakePlanView, InstructionError>(
            StakePlanView {
                asset_attributes: PluginWriteView::Add(seq![staked_flag(), stake_time(now as int)]),
                freeze: FreezeWrite::AddByOwner,
                collection_attributes: PluginWriteView::Update(seq![stake_count(1)]),
            },
        ),
        !stake_overflows(
            decoded_asset(stake.asset_data@),
            decoded_collection(stake.collection_data@),
            asset_attributes(stake.asset_data@, stake.asset_account_owner@),
            collection_attributes(stake.collection_data@, stake.collection_account_owner@),
            stake.stakeholder@,
            stake.collection@,
            stake.prog_auth@,
            now as int,
        ),
{
    law_count_increments(0);
    let s = seq![stake_count(0)];
    lemma_parse_u64_of_text(0);
    assert(s[0].key == key_total_staked());
    assert(crate::attributes::count_fits(s));
}

/// Configuring a collection that the program's create instruction made, with
/// the same program authority, succeeds and records the given settings. The
/// premise on the collection data is what the Metaplex Core create leaves: a
/// collection whose update authority is the planned one.
pub proof fn law_create_then_configure(
    create: CreateCollection,
    init: InitConfig,
    points_per_stake: u32,
    freeze_period: u8,
    bumps: InitConfigBumps,
)
    requires
        init.prog_auth == create.prog_auth,
        decoded_collection(init.collection_data@) == Some(CollectionRecord { update_authority: create.prog_auth }),
    ensures
        config_outcome(
            decoded_collection(init.collection_data@),
            init.prog_auth@,
            points_per_stake,
            freeze_period,
            bumps,
        ) == Ok::<Config, InstructionError>(
            Config {
                points_per_stake,
                freeze_period,
                rewards_bump: bumps.rewards_mint,
                config_bump: bumps.config,
            },
        ),
{
}

/// A claim on a staked asset pays `points` for each whole day since rewards
/// started and nothing for the part of a day left over: when every `staked`
/// entry says `true` and every `staked_at` entry holds the decimal time `start`,
/// a claim at `now` is refused with `FreezePeriodNotElapsed` before a full day;
/// after that it is refused with `Overflow` exactly when `points` times the
/// whole days exceeds `u64::MAX`, and otherwise pays exactly that product and
/// rewrites each `staked_at` entry to `now`, leaving every other entry as it was.
pub proof fn law_claim_pays_points_per_whole_day(s: Seq<AttributeView>, start: i64, now: i64, points: u32)
    requires
        exists|j: int| 0 <= j < s.len() && #[trigger] s[j].key == key_staked(),
        forall|j: int| 0 <= j < s.len() && #[trigger] s[j].key == key_staked() ==> s[j].value == text_true(),
        exists|j: int| 0 <= j < s.len() && #[trigger] s[j].key == key_staked_at(),
        forall|j: int|
            0 <= j < s.len() && #[trigger] s[j].key == key_staked_at() ==> s[j].value == int_text(start as int),
        i64::MIN <= now - start <= i64::MAX,
    ensures
        now - start < 86400 ==> settlement(Some(s), now as int, points as int) == Err::<ClaimPlanView, StakingError>(
            StakingError::FreezePeriodNotElapsed,
        ),
        now - start >= 86400 && points * ((now - start) / 86400) > u64::MAX ==> settlement(
            Some(s),
            now as int,
            points as int,
        ) == Err::<ClaimPlanView, StakingError>(StakingError::Overflow),
        now - start >= 86400 && points * ((now - start) / 86400) <= u64::MAX ==> {
            &&& settlement(Some(s), now as int, points as int) is Ok
            &&& settlement(Some(s), now as int, points as int)->Ok_0.reward == points * ((now - start) / 86400)
            &&& settlement(Some(s), now as int, points as int)->Ok_0.asset_attributes.len() == s.len()
            &&& forall|j: int|
                0 <= j < s.len() ==> #[trigger] settlement(
                    Some(s),
                    now as int,
                    points as int,
                )->Ok_0.asset_attributes[j] == (if s[j].key == key_staked_at() {
                    AttributeView { key: key_staked_at(), value: int_text(now as int) }
                } else {
                    s[j]
                })
        },
{
    assert(has_key(s, key_staked()));
    assert(has_key(s, key_staked_at()));
    lemma_last_value_uniform(s, key_staked(), text_true());
    lemma_last_value_uniform(s, key_staked_at(), int_text(start as int));
    lemma_claim_from(s, start, now as int, points as int);
}

/// Staking keeps every attribute that is not about staking: when no `staked`
/// entry says anything but `false`, staking at `now` updates the plugin to a
/// list that starts with the fetched entries in their places, each `staked`
/// entry now `true`, each `staked_at` entry now the decimal `now`, and every
/// other entry unchanged; after them comes a `staked = true` entry only when
/// there was none, then a `staked_at = now` entry only when there was none.
/// When some `staked` entry is not `false`, staking is refused.
pub proof fn law_stake_keeps_other_attributes(s: Seq<AttributeView>, now: i64)
    ensures
        (exists|j: int| 0 <= j < s.len() && #[trigger] s[j].key == key_staked() && s[j].value != text_false())
            ==> staking_write(Some(s), now as int) == Err::<PluginWriteView, StakingError>(
            StakingError::AlreadyStaked,
        ),
        !(exists|j: int| 0 <= j < s.len() && #[trigger] s[j].key == key_staked() && s[j].value != text_false())
            ==> {
            let flagged = exists|j: int| 0 <= j < s.len() && #[trigger] s[j].key == key_staked();
            let timed = exists|j: int| 0 <= j < s.len() && #[trigger] s[j].key == key_staked_at();
            let out = written_list(staking_write(Some(s), now as int)->Ok_0);
            &&& staking_write(Some(s), now as int) matches Ok(PluginWriteView::Update(_))
            &&& out.len() == s.len() + (if flagged { 0int } else { 1int }) + (if timed { 0int } else { 1int })
            &&& forall|j: int|
                0 <= j < s.len() && s[j].key != key_staked() && s[j].key != key_staked_at()
                    ==> #[trigger] out[j] == s[j]
            &&& forall|j: int|
                0 <= j < s.len() && #[trigger] s[j].key == key_staked() ==> out[j] == (AttributeView {
                    key: key_staked(),
                    value: text_true(),
                })
            &&& forall|j: int|
                0 <= j < s.len() && #[trigger] s[j].key == key_staked_at() ==> out[j] == (AttributeView {
                    key: key_staked_at(),
                    value: int_text(now as int),
                })
            &&& !flagged ==> out[s.len() as int] == (AttributeView { key: key_staked(), value: text_true() })
            &&& !timed ==> out[out.len() - 1] == (AttributeView {
                key: key_staked_at(),
                value: int_text(now as int),
            })
        },
{
    lemma_literals_differ();
    if blocks_staking(s) {
    } else {
        let out = staked_list(s, now as int);
        assert(staking_write(Some(s), now as int) == Ok::<PluginWriteView, StakingError>(
            PluginWriteView::Update(out),
        ));
        assert forall|j: int|
            0 <= j < s.len() && s[j].key != key_staked() && s[j].key != key_staked_at() implies #[trigger] out[j]
            == s[j] by {
            assert(out[j] == stake_rewrite(s[j], now as int));
        }
        assert forall|j: int| 0 <= j < s.len() && #[trigger] s[j].key == key_staked() implies out[j] == (
        AttributeView { key: key_staked(), value: text_true() }) by {
            assert(out[j] == stake_rewrite(s[j], now as int));
        }
        assert forall|j: int| 0 <= j < s.len() && #[trigger] s[j].key == key_staked_at() implies out[j] == (
        AttributeView { key: key_staked_at(), value: int_text(now as int) }) by {
            assert(out[j] == stake_rewrite(s[j], now as int));
        }
    }
}

} // verus!
