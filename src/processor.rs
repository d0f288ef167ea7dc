use vstd::prelude::*;
use crate::error::PoolError;
use crate::ledger::{find_user, lemma_user_position, user_position};
use crate::schedule::{lemma_tier_bounds, nearest_index, tier_of};
use crate::state::{
    has_user, schedule_valid, strictly_increasing, PoolData, PoolView, StakeAmount, StakeView,
};

verus! {

/// The outcome of an operation once its transfer has been attempted: the
/// validation error if validation failed, `TransferFailed` if the transfer did
/// not go through, and the next pool otherwise.
pub open spec fn commit(
    check: Result<u64, PoolError>,
    transferred: bool,
    next: PoolView,
) -> Result<PoolView, PoolError> {
    match check {
        Err(e) => Err(e),
        Ok(_) => if transferred {
            Ok(next)
        } else {
            Err(PoolError::TransferFailed)
        },
    }
}

/// An operation returned what `step` says: on success the pool became the
/// step's pool, on failure the error came back and the pool is untouched.
pub open spec fn outcome(
    step: Result<PoolView, PoolError>,
    r: Result<(), PoolError>,
    before: PoolData,
    after: PoolData,
) -> bool {
    match step {
        Ok(q) => r == Ok::<(), PoolError>(()) && after@ == q,
        Err(e) => r == Err::<(), PoolError>(e) && after == before,
    }
}

/// The reward for a tier paying `percentage` percent on a stake of `amount`.
pub open spec fn reward_amount(percentage: u8, amount: u64) -> int {
    percentage * amount / 100
}

/// The position a new stake opens.
pub open spec fn new_stake(staker: Seq<char>, amount: u64, now: i64) -> StakeView {
    StakeView { amount, user: staker, starts_at: now, rewards_claimed_upto: None }
}

// ---- staking ----

/// Validation of a stake: the amount to move into the pool, or the error.
pub open spec fn stake_check(p: PoolView, staker: Seq<char>, amount: u64) -> Result<u64, PoolError> {
    if amount == 0 {
        Err(PoolError::InvalidAmount)
    } else if has_user(p.total_stakes, staker) {
        Err(PoolError::DuplicatePosition)
    } else if p.total_liquidity + amount > u64::MAX {
        Err(PoolError::InvalidAmount)
    } else {
        Ok(amount)
    }
}

/// A stake: a new position for `staker` and the liquidity grown by `amount`.
pub open spec fn stake_step(
    p: PoolView,
    staker: Seq<char>,
    amount: u64,
    now: i64,
    transferred: bool,
) -> Result<PoolView, PoolError> {
    commit(
        stake_check(p, staker, amount),
        transferred,
        PoolView {
            total_stakes: p.total_stakes.push(new_stake(staker, amount, now)),
            total_liquidity: (p.total_liquidity + amount) as u64,
            ..p
        },
    )
}

/// Validates a stake of `amount` by `staker` and returns the amount that the
/// transfer into the pool must move.
pub fn prepare_stake(pool: &PoolData, staker: &String, amount: u64) -> (r: Result<u64, PoolError>)
    ensures
        r == stake_check(pool@, staker@, amount),
{
    if amount == 0 {
        return Err(PoolError::InvalidAmount);
    }
    let pos = find_user(&pool.total_stakes, staker);
    proof {
        lemma_user_position(pool@.total_stakes, staker@);
    }
    if pos.is_some() {
        return Err(PoolError::DuplicatePosition);
    }
    if pool.total_liquidity > u64::MAX - amount {
        return Err(PoolError::InvalidAmount);
    }
    Ok(amount)
}

/// Opens a position of `amount` for `staker` at time `now`, once the transfer
/// of `amount` into the pool has been attempted with outcome `transferred`.
pub fn stake_tokens(
    pool: &mut PoolData,
    staker: &String,
    amount: u64,
    now: i64,
    transferred: bool,
) -> (r: Result<(), PoolError>)
    ensures
        outcome(stake_step(old(pool)@, staker@, amount, now, transferred), r, *old(pool), *final(pool)),
{
    match prepare_stake(pool, staker, amount) {
        Err(e) => Err(e),
        Ok(_) => {
            if !transferred {
                return Err(PoolError::TransferFailed);
            }
            let ghost before = pool@;
            let record = StakeAmount {
                amount,
                user: staker.clone(),
                starts_at: now,
                rewards_claimed_upto: None,
            };
            pool.total_stakes.push(record);
            pool.total_liquidity = pool.total_liquidity + amount;
            assert(pool@.total_stakes =~= before.total_stakes.push(new_stake(staker@, amount, now)));
            Ok(())
        },
    }
}

// ---- unstaking ----

/// Validation of an unstake: the staked amount to return, or the error.
pub open spec fn unstake_check(p: PoolView, staker: Seq<char>) -> Result<u64, PoolError> {
    let i = user_position(p.total_stakes, staker);
    if i < 0 {
        Err(PoolError::NotFound)
    } else if p.total_liquidity < p.total_stakes[i].amount {
        Err(PoolError::InvalidAmount)
    } else {
        Ok(p.total_stakes[i].amount)
    }
}

/// An unstake: the position is gone and the liquidity shrinks by its amount.
/// A position of amount zero, which a well-formed pool never holds, is left
/// alone and the unstake succeeds without effect.
pub open spec fn unstake_step(p: PoolView, staker: Seq<char>, transferred: bool) -> Result<
    PoolView,
    PoolError,
> {
    let i = user_position(p.total_stakes, staker);
    if unstake_check(p, staker) == Ok::<u64, PoolError>(0) {
        Ok(p)
    } else {
        commit(
            unstake_check(p, staker),
            transferred,
            PoolView {
                total_stakes: p.total_stakes.remove(i),
                total_liquidity: (p.total_liquidity - p.total_stakes[i].amount) as u64,
                ..p
            },
        )
    }
}

/// Validates an unstake by `staker` and returns the amount that the transfer
/// back to the participant must move.
pub fn prepare_unstake(pool: &PoolData, staker: &String) -> (r: Result<u64, PoolError>)
    ensures
        r == unstake_check(pool@, staker@),
{
    proof {
        lemma_user_position(pool@.total_stakes, staker@);
    }
    match find_user(&pool.total_stakes, staker) {
        None => Err(PoolError::NotFound),
        Some(i) => {
            let amount = pool.total_stakes[i].amount;
            if pool.total_liquidity < amount {
                Err(PoolError::InvalidAmount)
            } else {
                Ok(amount)
            }
        },
    }
}

/// Closes the position of `staker`, once the transfer of its amount back to
/// the participant has been attempted with outcome `transferred`.
pub fn unstake_tokens(pool: &mut PoolData, staker: &String, transferred: bool) -> (r: Result<
    (),
    PoolError,
>)
    ensures
        outcome(unstake_step(old(pool)@, staker@, transferred), r, *old(pool), *final(pool)),
{
    let i = match find_user(&pool.total_stakes, staker) {
        None => {
            return Err(PoolError::NotFound);
        },
        Some(i) => i,
    };
    proof {
        lemma_user_position(pool@.total_stakes, staker@);
    }
    let amount = pool.total_stakes[i].amount;
    if pool.total_liquidity < amount {
        return Err(PoolError::InvalidAmount);
    }
    if amount == 0 {
        return Ok(());
    }
    if !transferred {
        return Err(PoolError::TransferFailed);
    }
    let ghost before = pool@;
    pool.total_stakes.remove(i);
    pool.total_liquidity = pool.total_liquidity - amount;
    assert(pool@.total_stakes =~= before.total_stakes.remove(i as int));
    Ok(())
}

// ---- rewards ----

/// Computes the reward of tier `index` for a stake of `staker_amount`:
/// the tier's percentage of the amount, rounded down.
pub fn calculate_rewards(pool_data: &PoolData, staker_amount: u64, index: usize) -> (r: u128)
    requires
        index < pool_data.reward_percentages@.len(),
    ensures
        r == reward_amount(pool_data.reward_percentages@[index as int], staker_amount),
{
    let percentage = pool_data.reward_percentages[index] as u128;
    let amount = staker_amount as u128;
    assert(percentage * amount <= 255 * 0xffff_ffff_ffff_ffffu128) by (nonlinear_arith)
        requires
            percentage <= 255,
            amount <= 0xffff_ffff_ffff_ffffu128,
    ;
    percentage * amount / 100
}

/// Whether tier `tier` is covered by what was already paid.
pub open spec fn already_paid(claimed: Option<int>, tier: int) -> bool {
    match claimed {
        Some(c) => tier <= c,
        None => false,
    }
}

/// The tier that the position of `staker` has reached at time `now`.
pub open spec fn claim_tier(p: PoolView, staker: Seq<char>, now: i64) -> int {
    let rec = p.total_stakes[user_position(p.total_stakes, staker)];
    tier_of(p.reward_timelines, now - rec.starts_at)
}

/// The reward that a claim by `staker` at `now` pays.
pub open spec fn claim_reward(p: PoolView, staker: Seq<char>, now: i64) -> int {
    let rec = p.total_stakes[user_position(p.total_stakes, staker)];
    reward_amount(p.reward_percentages[claim_tier(p, staker, now)], rec.amount)
}

/// Validation of a claim: the reward to pay out of the reserve, or the error.
pub open spec fn claim_check(p: PoolView, staker: Seq<char>, now: i64) -> Result<u64, PoolError> {
    let i = user_position(p.total_stakes, staker);
    let tier = claim_tier(p, staker, now);
    if i < 0 {
        Err(PoolError::NotFound)
    } else if p.reward_timelines.len() == 0 {
        Err(PoolError::InvalidScheduleConfig)
    } else if tier < 0 {
        Err(PoolError::NoTierReached)
    } else if tier >= p.reward_percentages.len() {
        Err(PoolError::InvalidScheduleConfig)
    } else if already_paid(p.total_stakes[i].rewards_claimed_upto, tier) {
        Err(PoolError::AlreadyClaimed)
    } else if claim_reward(p, staker, now) > p.available_rewards {
        Err(PoolError::InsufficientReserve)
    } else {
        Ok(claim_reward(p, staker, now) as u64)
    }
}

/// A claim: the reserve pays the reward and the position records the tier.
pub open spec fn claim_step(p: PoolView, staker: Seq<char>, now: i64, transferred: bool) -> Result<
    PoolView,
    PoolError,
> {
    let i = user_position(p.total_stakes, staker);
    let rec = p.total_stakes[i];
    commit(
        claim_check(p, staker, now),
        transferred,
        PoolView {
            total_stakes: p.total_stakes.update(
                i,
                StakeView { rewards_claimed_upto: Some(claim_tier(p, staker, now)), ..rec },
            ),
            available_rewards: (p.available_rewards - claim_reward(p, staker, now)) as u64,
            ..p
        },
    )
}

/// Resolves the tier reached at `now` by a position opened at `starts_at`.
fn resolve_tier(timelines: &Vec<u8>, starts_at: i64, now: i64) -> (r: Result<usize, PoolError>)
    ensures
        timelines@.len() == 0 ==> r == Err::<usize, PoolError>(PoolError::InvalidScheduleConfig),
        timelines@.len() > 0 && tier_of(timelines@, now - starts_at) < 0 ==> r == Err::<
            usize,
            PoolError,
        >(PoolError::NoTierReached),
        timelines@.len() > 0 && tier_of(timelines@, now - starts_at) >= 0 ==> r == Ok::<
            usize,
            PoolError,
        >(tier_of(timelines@, now - starts_at) as usize),
        r matches Ok(t) ==> t as int == tier_of(timelines@, now - starts_at),
{
    proof {
        lemma_tier_bounds(timelines@, now - starts_at);
    }
    if now < starts_at {
        if timelines.len() == 0 {
            Err(PoolError::InvalidScheduleConfig)
        } else {
            Err(PoolError::NoTierReached)
        }
    } else {
        let elapsed = ((now as i128) - (starts_at as i128)) as u64;
        assert(elapsed as int == now - starts_at);
        let slice = timelines.as_slice();
        assert(slice@ == timelines@);
        nearest_index(slice, elapsed)
    }
}

/// Locates the position of `staker`, its tier and its reward, or the error.
fn plan_claim(pool: &PoolData, staker: &String, now: i64) -> (r: Result<(usize, usize, u64), PoolError>)
    ensures
        match r {
            Ok((i, tier, reward)) => {
                &&& claim_check(pool@, staker@, now) == Ok::<u64, PoolError>(reward)
                &&& i as int == user_position(pool@.total_stakes, staker@)
                &&& 0 <= i < pool@.total_stakes.len()
                &&& tier as int == claim_tier(pool@, staker@, now)
                &&& reward as int == claim_reward(pool@, staker@, now)
            },
            Err(e) => claim_check(pool@, staker@, now) == Err::<u64, PoolError>(e),
        },
{
    proof {
        lemma_user_position(pool@.total_stakes, staker@);
    }
    let i = match find_user(&pool.total_stakes, staker) {
        None => {
            return Err(PoolError::NotFound);
        },
        Some(i) => i,
    };
    let record = &pool.total_stakes[i];
    assert(pool@.total_stakes[i as int] == record@);
    let tier = match resolve_tier(&pool.reward_timelines, record.starts_at, now) {
        Err(e) => {
            return Err(e);
        },
        Ok(t) => t,
    };
    if tier >= pool.reward_percentages.len() {
        return Err(PoolError::InvalidScheduleConfig);
    }
    match record.rewards_claimed_upto {
        Some(c) => {
            if tier <= c {
                assert(user_position(pool@.total_stakes, staker@) == i);
                return Err(PoolError::AlreadyClaimed);
            }
        },
        None => {},
    }
    let reward = calculate_rewards(pool, record.amount, tier);
    if reward > pool.available_rewards as u128 {
        return Err(PoolError::InsufficientReserve);
    }
    Ok((i, tier, reward as u64))
}

/// Validates a claim by `staker` at time `now` and returns the reward that
/// the transfer out of the reserve must move.
pub fn prepare_claim(pool: &PoolData, staker: &String, now: i64) -> (r: Result<u64, PoolError>)
    ensures
        r == claim_check(pool@, staker@, now),
{
    match plan_claim(pool, staker, now) {
        Ok((_, _, reward)) => Ok(reward),
        Err(e) => Err(e),
    }
}

/// Pays `staker` the reward of the tier reached at time `now`, once the
/// transfer of that reward out of the reserve has been attempted with outcome
/// `transferred`.
pub fn claim_rewards(pool: &mut PoolData, staker: &String, now: i64, transferred: bool) -> (r: Result<
    (),
    PoolError,
>)
    ensures
        outcome(claim_step(old(pool)@, staker@, now, transferred), r, *old(pool), *final(pool)),
{
    let (i, tier, reward) = match plan_claim(pool, staker, now) {
        Err(e) => {
            return Err(e);
        },
        Ok(plan) => plan,
    };
    if !transferred {
        return Err(PoolError::TransferFailed);
    }
    let ghost before = pool@;
    let record = StakeAmount {
        amount: pool.total_stakes[i].amount,
        user: pool.total_stakes[i].user.clone(),
        starts_at: pool.total_stakes[i].starts_at,
        rewards_claimed_upto: Some(tier),
    };
    pool.total_stakes.set(i, record);
    pool.available_rewards = pool.available_rewards - reward;
    assert(pool@.total_stakes =~= before.total_stakes.update(
        i as int,
        StakeView { rewards_claimed_upto: Some(tier as int), ..before.total_stakes[i as int] },
    ));
    Ok(())
}

// ---- owner operations ----

/// Validation of a liquidity deposit: the amount to move in, or the error.
pub open spec fn add_liquidity_check(p: PoolView, caller: Seq<char>, amount: u64) -> Result<
    u64,
    PoolError,
> {
    if caller != p.owner {
        Err(PoolError::Unauthorized)
    } else if amount == 0 {
        Err(PoolError::InvalidAmount)
    } else if p.total_liquidity + amount > u64::MAX || p.available_rewards + amount > u64::MAX {
        Err(PoolError::InvalidAmount)
    } else {
        Ok(amount)
    }
}

/// A deposit by the owner: liquidity and reserve both grow by `amount`.
pub open spec fn add_liquidity_step(
    p: PoolView,
    caller: Seq<char>,
    amount: u64,
    transferred: bool,
) -> Result<PoolView, PoolError> {
    commit(
        add_liquidity_check(p, caller, amount),
        transferred,
        PoolView {
            total_liquidity: (p.total_liquidity + amount) as u64,
            available_rewards: (p.available_rewards + amount) as u64,
            ..p
        },
    )
}

/// Validates a deposit of `amount` by `caller` and returns the amount that
/// the transfer into the pool must move.
pub fn prepare_add_liquidity(pool: &PoolData, caller: &String, amount: u64) -> (r: Result<
    u64,
    PoolError,
>)
    ensures
        r == add_liquidity_check(pool@, caller@, amount),
{
    if *caller != pool.owner {
        return Err(PoolError::Unauthorized);
    }
    if amount == 0 {
        return Err(PoolError::InvalidAmount);
    }
    if pool.total_liquidity > u64::MAX - amount || pool.available_rewards > u64::MAX - amount {
        return Err(PoolError::InvalidAmount);
    }
    Ok(amount)
}

/// Adds `amount` to the liquidity and to the reward reserve, once the
/// transfer into the pool has been attempted with outcome `transferred`.
pub fn add_liquidity(pool: &mut PoolData, caller: &String, amount: u64, transferred: bool) -> (r:
    Result<(), PoolError>)
    ensures
        outcome(add_liquidity_step(old(pool)@, caller@, amount, transferred), r, *old(pool), *final(pool)),
{
    match prepare_add_liquidity(pool, caller, amount) {
        Err(e) => Err(e),
        Ok(_) => {
            if !transferred {
                return Err(PoolError::TransferFailed);
            }
            pool.total_liquidity = pool.total_liquidity + amount;
            pool.available_rewards = pool.available_rewards + amount;
            Ok(())
        },
    }
}

/// Validation of a sweep: the whole liquidity to move to the owner, or the
/// error.
pub open spec fn remove_liquidity_check(p: PoolView, caller: Seq<char>) -> Result<u64, PoolError> {
    if caller != p.owner {
        Err(PoolError::Unauthorized)
    } else {
        Ok(p.total_liquidity)
    }
}

/// A sweep by the owner: liquidity and reserve drop to zero; the positions
/// stay as they were.
pub open spec fn remove_liquidity_step(p: PoolView, caller: Seq<char>, transferred: bool) -> Result<
    PoolView,
    PoolError,
> {
    commit(
        remove_liquidity_check(p, caller),
        transferred,
        PoolView { total_liquidity: 0, available_rewards: 0, ..p },
    )
}

/// Validates a sweep by `caller` and returns the amount that the transfer to
/// the owner must move.
pub fn prepare_remove_liquidity(pool: &PoolData, caller: &String) -> (r: Result<u64, PoolError>)
    ensures
        r == remove_liquidity_check(pool@, caller@),
{
    if *caller != pool.owner {
        return Err(PoolError::Unauthorized);
    }
    Ok(pool.total_liquidity)
}

/// Zeroes the liquidity and the reward reserve, once the transfer of the whole
/// liquidity to the owner has been attempted with outcome `transferred`.
pub fn remove_liquidity(pool: &mut PoolData, caller: &String, transferred: bool) -> (r: Result<
    (),
    PoolError,
>)
    ensures
        outcome(remove_liquidity_step(old(pool)@, caller@, transferred), r, *old(pool), *final(pool)),
{
    match prepare_remove_liquidity(pool, caller) {
        Err(e) => Err(e),
        Ok(_) => {
            if !transferred {
                return Err(PoolError::TransferFailed);
            }
            pool.total_liquidity = 0;
            pool.available_rewards = 0;
            Ok(())
        },
    }
}

/// A reserve top-up by the owner, which moves no tokens.
pub open spec fn update_pool_rewards_step(p: PoolView, caller: Seq<char>, amount: u64) -> Result<
    PoolView,
    PoolError,
> {
    if caller != p.owner {
        Err(PoolError::Unauthorized)
    } else if p.available_rewards + amount > u64::MAX {
        Err(PoolError::InvalidAmount)
    } else {
        Ok(PoolView { available_rewards: (p.available_rewards + amount) as u64, ..p })
    }
}

/// Raises the reward reserve by `amount` on the owner's word.
pub fn update_pool_rewards(pool: &mut PoolData, caller: &String, amount: u64) -> (r: Result<
    (),
    PoolError,
>)
    ensures
        outcome(update_pool_rewards_step(old(pool)@, caller@, amount), r, *old(pool), *final(pool)),
{
    if *caller != pool.owner {
        return Err(PoolError::Unauthorized);
    }
    if pool.available_rewards > u64::MAX - amount {
        return Err(PoolError::InvalidAmount);
    }
    pool.available_rewards = pool.available_rewards + amount;
    Ok(())
}

// ---- creation ----

/// Creation of a pool in the slot `p` from the configuration `config`,
/// requested by `caller`.
pub open spec fn create_step(p: PoolView, caller: Seq<char>, config: PoolView) -> Result<
    PoolView,
    PoolError,
> {
    if caller != config.owner {
        Err(PoolError::Unauthorized)
    } else if p.id.len() != 0 {
        Err(PoolError::AlreadyInitialized)
    } else if !schedule_valid(config.reward_timelines, config.reward_percentages) {
        Err(PoolError::InvalidScheduleConfig)
    } else {
        Ok(
            PoolView {
                id: config.id,
                token: config.token,
                reward_timelines: config.reward_timelines,
                reward_percentages: config.reward_percentages,
                total_stakes: Seq::empty(),
                total_liquidity: 0,
                available_rewards: 0,
                owner: config.owner,
            },
        )
    }
}

/// Whether the thresholds strictly increase.
pub fn is_strictly_increasing(t: &Vec<u8>) -> (r: bool)
    ensures
        r == strictly_increasing(t@),
{
    let mut i: usize = 1;
    while i < t.len()
        invariant
            1 <= i,
            i <= t@.len() || t@.len() == 0,
            strictly_increasing(t@.subrange(0, i as int)) || t@.len() == 0,
        decreases t@.len() - i,
    {
        if t[i - 1] >= t[i] {
            assert(!strictly_increasing(t@)) by {
                let a = i - 1;
                assert(t@[a as int] >= t@[i as int]);
            }
            return false;
        }
        assert forall|a: int, b: int| 0 <= a < b < i + 1 implies #[trigger] t@[a] < #[trigger] t@[b] by {
            let s = t@.subrange(0, i as int);
            if b < i {
                assert(s[a] < s[b]);
            } else if a < i - 1 {
                assert(s[a] < s[i - 1]);
            }
        }
        assert(strictly_increasing(t@.subrange(0, i as int + 1)));
        i = i + 1;
    }
    if t.len() > 0 {
        assert(t@.subrange(0, t@.len() as int) =~= t@);
    }
    true
}

/// Initialises the empty pool slot `pool` from `config` on behalf of
/// `caller`, who must be the configuration's owner. Positions and counters
/// start empty, whatever `config` holds there.
pub fn create_stake_pool(pool: &mut PoolData, caller: &String, config: PoolData) -> (r: Result<
    (),
    PoolError,
>)
    ensures
        outcome(create_step(old(pool)@, caller@, config@), r, *old(pool), *final(pool)),
{
    if *caller != config.owner {
        return Err(PoolError::Unauthorized);
    }
    if !pool.id.as_str().is_empty() {
        return Err(PoolError::AlreadyInitialized);
    }
    if config.reward_timelines.len() != config.reward_percentages.len()
        || !is_strictly_increasing(&config.reward_timelines) {
        return Err(PoolError::InvalidScheduleConfig);
    }
    *pool = PoolData {
        id: config.id,
        token: config.token,
        reward_timelines: config.reward_timelines,
        reward_percentages: config.reward_percentages,
        total_stakes: Vec::new(),
        total_liquidity: 0,
        available_rewards: 0,
        owner: config.owner,
    };
    assert(pool@.total_stakes =~= Seq::<StakeView>::empty());
    Ok(())
}

} // verus!
