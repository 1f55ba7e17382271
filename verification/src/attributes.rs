//! The key/value attributes that the program keeps on assets and collections,
//! and how staking, claiming and counting rewrite them.
use vstd::prelude::*;

use crate::chars::{chars_of, same_chars, string_from_chars};
use crate::errors::StakingError;
use crate::text::{clean, clean_text, i64_text, int_text, nat_text, parse_i64, parse_u64, spec_parse_i64, spec_parse_u64, u64_text};

verus! {

/// Seconds in one day: rewards accrue per whole day of staking.
pub const SECONDS_PER_DAY: i64 = 86400;

/// One entry of an Attributes plugin.
#[derive(Debug)]
pub struct Attribute {
    pub key: String,
    pub value: String,
}

/// An attribute as two character sequences.
pub struct AttributeView {
    pub key: Seq<char>,
    pub value: Seq<char>,
}

impl View for Attribute {
    type V = AttributeView;

    open spec fn view(&self) -> AttributeView {
        AttributeView { key: self.key@, value: self.value@ }
    }
}

/// The views of the attributes `v`, in order.
pub open spec fn view_all(v: Seq<Attribute>) -> Seq<AttributeView> {
    Seq::new(v.len(), |i: int| v[i]@)
}

/// The view of an attribute list that may be absent.
pub open spec fn view_fetched(o: Option<Vec<Attribute>>) -> Option<Seq<AttributeView>> {
    match o {
        Some(v) => Some(view_all(v@)),
        None => None,
    }
}

// ---------------------------------------------------------------------------
// The keys and values the program reads and writes
// ---------------------------------------------------------------------------

/// The key that says whether an asset is staked.
pub open spec fn key_staked() -> Seq<char> {
    seq!['s', 't', 'a', 'k', 'e', 'd']
}

/// The key that holds the time at which rewards start to accrue.
pub open spec fn key_staked_at() -> Seq<char> {
    seq!['s', 't', 'a', 'k', 'e', 'd', '_', 'a', 't']
}

/// The key under which a collection counts its stakes.
pub open spec fn key_total_staked() -> Seq<char> {
    seq!['t', 'o', 't', 'a', 'l', '_', 's', 't', 'a', 'k', 'e', 'd']
}

/// The text `true`.
pub open spec fn text_true() -> Seq<char> {
    seq!['t', 'r', 'u', 'e']
}

/// The text `false`.
pub open spec fn text_false() -> Seq<char> {
    seq!['f', 'a', 'l', 's', 'e']
}

/// The attribute that marks an asset as staked.
pub open spec fn staked_flag() -> AttributeView {
    AttributeView { key: key_staked(), value: text_true() }
}

/// The attribute that records `now` as the time rewards start from.
pub open spec fn stake_time(now: int) -> AttributeView {
    AttributeView { key: key_staked_at(), value: int_text(now) }
}

/// A collection's stake count attribute holding the count `n`.
pub open spec fn stake_count(n: nat) -> AttributeView {
    AttributeView { key: key_total_staked(), value: nat_text(n) }
}

/// Whether some attribute of `s` has the key `k`.
pub open spec fn has_key(s: Seq<AttributeView>, k: Seq<char>) -> bool {
    exists|j: int| 0 <= j < s.len() && #[trigger] s[j].key == k
}

/// The value of the last attribute of `s` with key `k`, if there is one.
pub open spec fn last_value(s: Seq<AttributeView>, k: Seq<char>) -> Option<Seq<char>>
    decreases s.len(),
{
    if s.len() == 0 {
        None
    } else if s.last().key == k {
        Some(s.last().value)
    } else {
        last_value(s.drop_last(), k)
    }
}

// ---------------------------------------------------------------------------
// Staking
// ---------------------------------------------------------------------------

/// Whether `s` holds a `staked` attribute whose value is anything but `false`:
/// such an asset cannot be staked again.
pub open spec fn blocks_staking(s: Seq<AttributeView>) -> bool {
    exists|j: int| 0 <= j < s.len() && #[trigger] s[j].key == key_staked() && s[j].value != text_false()
}

/// What staking at `now` makes of one attribute.
pub open spec fn stake_rewrite(a: AttributeView, now: int) -> AttributeView {
    if a.key == key_staked() {
        staked_flag()
    } else if a.key == key_staked_at() {
        stake_time(now)
    } else {
        a
    }
}

/// The attributes of an asset staked at `now` whose attributes were `s`: each
/// `staked` entry becomes `true`, each `staked_at` entry becomes `now`, the
/// others stay as they are, and a missing `staked` and then a missing
/// `staked_at` entry are appended.
pub open spec fn staked_list(s: Seq<AttributeView>, now: int) -> Seq<AttributeView> {
    let rewritten = Seq::new(s.len(), |j: int| stake_rewrite(s[j], now));
    let with_flag = if has_key(s, key_staked()) {
        rewritten
    } else {
        rewritten.push(staked_flag())
    };
    if has_key(s, key_staked_at()) {
        with_flag
    } else {
        with_flag.push(stake_time(now))
    }
}

// ---------------------------------------------------------------------------
// Claiming
// ---------------------------------------------------------------------------

/// What claiming at `now` makes of one attribute: rewards restart from `now`.
pub open spec fn claim_rewrite(a: AttributeView, now: int) -> AttributeView {
    if a.key == key_staked_at() {
        stake_time(now)
    } else {
        a
    }
}

/// The attributes of an asset after a claim at `now`.
pub open spec fn claimed_list(s: Seq<AttributeView>, now: int) -> Seq<AttributeView> {
    Seq::new(s.len(), |j: int| claim_rewrite(s[j], now))
}

/// The reward for a stake that started at `start`, claimed at `now`, at
/// `points` per whole day; or why there is none.
pub open spec fn reward_between(start: int, now: int, points: int) -> Result<u64, StakingError> {
    let elapsed: int = now - start;
    if elapsed < i64::MIN || elapsed > i64::MAX {
        Err(StakingError::InvalidTimestamp)
    } else if elapsed < SECONDS_PER_DAY as int {
        Err(StakingError::FreezePeriodNotElapsed)
    } else if points * (elapsed / SECONDS_PER_DAY as int) > u64::MAX {
        Err(StakingError::Overflow)
    } else {
        Ok((points * (elapsed / SECONDS_PER_DAY as int)) as u64)
    }
}

/// The reward that a claim at `now` earns on an asset with attributes `s`, at
/// `points` per day; or why the claim is refused.
pub open spec fn claim_outcome(s: Seq<AttributeView>, now: int, points: int) -> Result<u64, StakingError> {
    match last_value(s, key_staked_at()) {
        None => Err(StakingError::InvalidTimestamp),
        Some(raw) => if last_value(s, key_staked()) != Some(text_true()) {
            Err(StakingError::NotStaked)
        } else {
            match spec_parse_i64(clean_text(raw)) {
                None => Err(StakingError::InvalidTimestamp),
                Some(start) => reward_between(start as int, now, points),
            }
        },
    }
}

// ---------------------------------------------------------------------------
// Counting stakes on a collection
// ---------------------------------------------------------------------------

/// The count that follows a stored count text `v`: one more than its value,
/// or one when it does not read as a number.
pub open spec fn next_count(v: Seq<char>) -> nat {
    match spec_parse_u64(v) {
        Some(n) => (n + 1) as nat,
        None => 1,
    }
}

/// What counting one more stake makes of one attribute.
pub open spec fn count_rewrite(a: AttributeView) -> AttributeView {
    if a.key == key_total_staked() {
        stake_count(next_count(a.value))
    } else {
        a
    }
}

/// Whether every stake count in `s` can be raised by one within a `u64`.
pub open spec fn count_fits(s: Seq<AttributeView>) -> bool {
    forall|j: int| 0 <= j < s.len() && #[trigger] s[j].key == key_total_staked()
        ==> spec_parse_u64(s[j].value) != Some(u64::MAX)
}

/// The attributes of a collection after one more stake: each count goes up by
/// one, and a count of one is appended when there is none.
pub open spec fn counted_list(s: Seq<AttributeView>) -> Seq<AttributeView> {
    let rewritten = Seq::new(s.len(), |j: int| count_rewrite(s[j]));
    if has_key(s, key_total_staked()) {
        rewritten
    } else {
        rewritten.push(stake_count(1))
    }
}

// ---------------------------------------------------------------------------
// Executable functions
// ---------------------------------------------------------------------------

/// The characters of the corresponding literal.
pub fn staked_key() -> (v: Vec<char>)
    ensures
        v@ == key_staked(),
{
    let v = vec!['s', 't', 'a', 'k', 'e', 'd'];
    assert(v@ =~= key_staked());
    v
}

/// The characters of the corresponding literal.
pub fn staked_at_key() -> (v: Vec<char>)
    ensures
        v@ == key_staked_at(),
{
    let v = vec!['s', 't', 'a', 'k', 'e', 'd', '_', 'a', 't'];
    assert(v@ =~= key_staked_at());
    v
}

/// The characters of the corresponding literal.
pub fn total_staked_key() -> (v: Vec<char>)
    ensures
        v@ == key_total_staked(),
{
    let v = vec!['t', 'o', 't', 'a', 'l', '_', 's', 't', 'a', 'k', 'e', 'd'];
    assert(v@ =~= key_total_staked());
    v
}

/// The characters of the corresponding literal.
pub fn true_text() -> (v: Vec<char>)
    ensures
        v@ == text_true(),
{
    let v = vec!['t', 'r', 'u', 'e'];
    assert(v@ =~= text_true());
    v
}

/// The characters of the corresponding literal.
pub fn false_text() -> (v: Vec<char>)
    ensures
        v@ == text_false(),
{
    let v = vec!['f', 'a', 'l', 's', 'e'];
    assert(v@ =~= text_false());
    v
}

/// A copy of `a`.
pub fn copy_attribute(a: &Attribute) -> (b: Attribute)
    ensures
        b@ == a@,
{
    Attribute { key: a.key.clone(), value: a.value.clone() }
}

/// The attribute with key `key` and value `value`.
pub fn make_attribute(key: &Vec<char>, value: &Vec<char>) -> (a: Attribute)
    ensures
        a@ == (AttributeView { key: key@, value: value@ }),
{
    Attribute { key: string_from_chars(key), value: string_from_chars(value) }
}

/// The attribute that marks an asset as staked.
pub fn staked_flag_attribute() -> (a: Attribute)
    ensures
        a@ == staked_flag(),
{
    make_attribute(&staked_key(), &true_text())
}

/// The attribute that records `now` as the time rewards start from.
pub fn stake_time_attribute(now: i64) -> (a: Attribute)
    ensures
        a@ == stake_time(now as int),
{
    make_attribute(&staked_at_key(), &i64_text(now))
}

/// The stake count attribute holding `n`.
pub fn stake_count_attribute(n: u64) -> (a: Attribute)
    ensures
        a@ == stake_count(n as nat),
{
    make_attribute(&total_staked_key(), &u64_text(n))
}

/// The attributes of an asset staked at `now` whose Attributes plugin holds
/// `list`; refused with `AlreadyStaked` when a `staked` entry is not `false`.
pub fn stake_attributes(list: &Vec<Attribute>, now: i64) -> (r: Result<Vec<Attribute>, StakingError>)
    ensures
        match r {
            Ok(v) => !blocks_staking(view_all(list@)) && view_all(v@) == staked_list(
                view_all(list@),
                now as int,
            ),
            Err(e) => blocks_staking(view_all(list@)) && e == StakingError::AlreadyStaked,
        },
{
    let ghost s = view_all(list@);
    let k_staked = staked_key();
    let k_staked_at = staked_at_key();
    let v_false = false_text();
    let mut out: Vec<Attribute> = Vec::new();
    let mut saw_flag = false;
    let mut saw_time = false;
    let mut i: usize = 0;
    while i < list.len()
        invariant
            0 <= i <= list.len(),
            s == view_all(list@),
            k_staked@ == key_staked(),
            k_staked_at@ == key_staked_at(),
            v_false@ == text_false(),
            out.len() == i,
            forall|j: int| 0 <= j < i ==> #[trigger] out@[j]@ == stake_rewrite(s[j], now as int),
            saw_flag == (exists|j: int| 0 <= j < i && #[trigger] s[j].key == key_staked()),
            saw_time == (exists|j: int| 0 <= j < i && #[trigger] s[j].key == key_staked_at()),
            forall|j: int| 0 <= j < i && #[trigger] s[j].key == key_staked() ==> s[j].value == text_false(),
        decreases list.len() - i,
    {
        let a = &list[i];
        assert(s[i as int] == a@);
        let key = chars_of(&a.key);
        let ghost prev_flag = saw_flag;
        let ghost prev_time = saw_time;
        if same_chars(&key, &k_staked) {
            let value = chars_of(&a.value);
            if !same_chars(&value, &v_false) {
                assert(s[i as int].key == key_staked() && s[i as int].value != text_false());
                return Err(StakingError::AlreadyStaked);
            }
            out.push(staked_flag_attribute());
            saw_flag = true;
        } else if same_chars(&key, &k_staked_at) {
            out.push(stake_time_attribute(now));
            saw_time = true;
        } else {
            out.push(copy_attribute(a));
        }
        assert forall|j: int| 0 <= j < i + 1 implies #[trigger] out@[j]@ == stake_rewrite(s[j], now as int) by {
            if j < i {
            }
        }
        proof {
            if s[i as int].key == key_staked() {
                assert(saw_flag);
                assert(exists|j: int| 0 <= j < i + 1 && #[trigger] s[j].key == key_staked());
            } else {
                assert(saw_flag == prev_flag);
                assert((exists|j: int| 0 <= j < i + 1 && #[trigger] s[j].key == key_staked())
                    == (exists|j: int| 0 <= j < i && #[trigger] s[j].key == key_staked()));
            }
            if s[i as int].key == key_staked_at() {
                assert(saw_time);
                assert(exists|j: int| 0 <= j < i + 1 && #[trigger] s[j].key == key_staked_at());
            } else {
                assert(saw_time == prev_time);
                assert((exists|j: int| 0 <= j < i + 1 && #[trigger] s[j].key == key_staked_at())
                    == (exists|j: int| 0 <= j < i && #[trigger] s[j].key == key_staked_at()));
            }
        }
        i = i + 1;
    }
    let ghost rewritten = Seq::new(s.len(), |j: int| stake_rewrite(s[j], now as int));
    assert(view_all(out@) =~= rewritten);
    assert(!blocks_staking(s));
    if !saw_flag {
        out.push(staked_flag_attribute());
        assert(view_all(out@) =~= rewritten.push(staked_flag()));
    }
    let ghost with_flag = view_all(out@);
    if !saw_time {
        out.push(stake_time_attribute(now));
        assert(view_all(out@) =~= with_flag.push(stake_time(now as int)));
    }
    Ok(out)
}

/// What a claim at `now`, at `points_per_stake` per day, finds on an asset
/// whose Attributes plugin holds `list`: the reward and the attributes with
/// rewards restarting from `now`, or why the claim is refused.
pub fn claim_attributes(list: &Vec<Attribute>, now: i64, points_per_stake: u32) -> (r: Result<
    (u64, Vec<Attribute>),
    StakingError,
>)
    ensures
        match r {
            Ok((reward, v)) => claim_outcome(view_all(list@), now as int, points_per_stake as int)
                == Ok::<u64, StakingError>(reward) && view_all(v@) == claimed_list(
                view_all(list@),
                now as int,
            ),
            Err(e) => claim_outcome(view_all(list@), now as int, points_per_stake as int) == Err::<
                u64,
                StakingError,
            >(e),
        },
{
    let ghost s = view_all(list@);
    let k_staked = staked_key();
    let k_staked_at = staked_at_key();
    let mut out: Vec<Attribute> = Vec::new();
    let mut flag: Option<Vec<char>> = None;
    let mut time: Option<Vec<char>> = None;
    let mut i: usize = 0;
    while i < list.len()
        invariant
            0 <= i <= list.len(),
            s == view_all(list@),
            k_staked@ == key_staked(),
            k_staked_at@ == key_staked_at(),
            out.len() == i,
            forall|j: int| 0 <= j < i ==> #[trigger] out@[j]@ == claim_rewrite(s[j], now as int),
            view_chars(flag) == last_value(s.take(i as int), key_staked()),
            view_chars(time) == last_value(s.take(i as int), key_staked_at()),
        decreases list.len() - i,
    {
        let a = &list[i];
        assert(s[i as int] == a@);
        assert(s.take(i + 1).drop_last() =~= s.take(i as int));
        assert(s.take(i + 1).last() == s[i as int]);
        let key = chars_of(&a.key);
        if same_chars(&key, &k_staked) {
            flag = Some(chars_of(&a.value));
            out.push(copy_attribute(a));
        } else if same_chars(&key, &k_staked_at) {
            time = Some(chars_of(&a.value));
            out.push(stake_time_attribute(now));
        } else {
            out.push(copy_attribute(a));
        }
        assert(out@[i as int]@ == claim_rewrite(s[i as int], now as int));
        assert forall|j: int| 0 <= j < i + 1 implies #[trigger] out@[j]@ == claim_rewrite(s[j], now as int) by {
            if j < i {
            }
        }
        i = i + 1;
    }
    assert(s.take(list.len() as int) =~= s);
    assert(view_all(out@) =~= claimed_list(s, now as int));
    let raw = match time {
        None => {
            return Err(StakingError::InvalidTimestamp);
        },
        Some(raw) => raw,
    };
    let cleaned = clean(&raw);
    let is_true = match &flag {
        Some(value) => same_chars(value, &true_text()),
        None => false,
    };
    if !is_true {
        return Err(StakingError::NotStaked);
    }
    let start: i64 = match parse_i64(&cleaned) {
        None => {
            return Err(StakingError::InvalidTimestamp);
        },
        Some(start) => start,
    };
    let elapsed: i64 = match now.checked_sub(start) {
        None => {
            return Err(StakingError::InvalidTimestamp);
        },
        Some(elapsed) => elapsed,
    };
    if elapsed < SECONDS_PER_DAY {
        return Err(StakingError::FreezePeriodNotElapsed);
    }
    let days: u64 = (elapsed as u64) / (SECONDS_PER_DAY as u64);
    assert(days as int == elapsed as int / SECONDS_PER_DAY as int);
    match (points_per_stake as u64).checked_mul(days) {
        None => Err(StakingError::Overflow),
        Some(reward) => Ok((reward, out)),
    }
}

/// The view of an optional character run.
pub open spec fn view_chars(o: Option<Vec<char>>) -> Option<Seq<char>> {
    match o {
        Some(v) => Some(v@),
        None => None,
    }
}

/// The attributes of a collection whose Attributes plugin holds `list`, after
/// one more stake.
pub fn count_attributes(list: &Vec<Attribute>) -> (v: Vec<Attribute>)
    requires
        count_fits(view_all(list@)),
    ensures
        view_all(v@) == counted_list(view_all(list@)),
{
    let ghost s = view_all(list@);
    let k_total = total_staked_key();
    let mut out: Vec<Attribute> = Vec::new();
    let mut saw_count = false;
    let mut i: usize = 0;
    while i < list.len()
        invariant
            0 <= i <= list.len(),
            s == view_all(list@),
            count_fits(s),
            k_total@ == key_total_staked(),
            out.len() == i,
            forall|j: int| 0 <= j < i ==> #[trigger] out@[j]@ == count_rewrite(s[j]),
            saw_count == (exists|j: int| 0 <= j < i && #[trigger] s[j].key == key_total_staked()),
        decreases list.len() - i,
    {
        let a = &list[i];
        assert(s[i as int] == a@);
        let key = chars_of(&a.key);
        let ghost prev_count = saw_count;
        if same_chars(&key, &k_total) {
            let current: u64 = match parse_u64(&chars_of(&a.value)) {
                Some(n) => n,
                None => 0,
            };
            assert(s[i as int].key == key_total_staked());
            assert(spec_parse_u64(a.value@) != Some(u64::MAX));
            out.push(stake_count_attribute(current + 1));
            saw_count = true;
        } else {
            out.push(copy_attribute(a));
        }
        assert(out@[i as int]@ == count_rewrite(s[i as int]));
        assert forall|j: int| 0 <= j < i + 1 implies #[trigger] out@[j]@ == count_rewrite(s[j]) by {
            if j < i {
            }
        }
        proof {
            if s[i as int].key == key_total_staked() {
                assert(exists|j: int| 0 <= j < i + 1 && #[trigger] s[j].key == key_total_staked());
            } else {
                assert(saw_count == prev_count);
                assert((exists|j: int| 0 <= j < i + 1 && #[trigger] s[j].key == key_total_staked())
                    == (exists|j: int| 0 <= j < i && #[trigger] s[j].key == key_total_staked()));
            }
        }
        i = i + 1;
    }
    let ghost rewritten = Seq::new(s.len(), |j: int| count_rewrite(s[j]));
    assert(view_all(out@) =~= rewritten);
    if !saw_count {
        out.push(stake_count_attribute(1));
        assert(view_all(out@) =~= rewritten.push(stake_count(1)));
    }
    out
}

} // verus!
