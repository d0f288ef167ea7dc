use vstd::prelude::*;
use crate::error::PoolError;
use crate::ledger::{
    lemma_first_position, lemma_position_after_push, lemma_total_push,
    lemma_total_remove, lemma_total_update, lemma_user_position, user_position,
};
use crate::processor::{
    add_liquidity_step, claim_step, claim_tier, create_step, new_stake, remove_liquidity_step,
    stake_step, unstake_step, update_pool_rewards_step,
};
use crate::schedule::{lemma_tier_bounds, lemma_tier_monotonic};
use crate::state::{PoolView, StakeView};

verus! {

/// Creating a pool, staking, unstaking and claiming keep the liquidity equal
/// to the sum of the staked amounts. (Deposits and sweeps by the owner move
/// the liquidity counter without touching the positions, so they do not.)
pub proof fn lemma_operations_keep_balance(
    p: PoolView,
    staker: Seq<char>,
    amount: u64,
    now: i64,
    transferred: bool,
    caller: Seq<char>,
    config: PoolView,
)
    ensures
        create_step(p, caller, config) matches Ok(q) ==> q.balanced(),
        p.balanced() ==> (stake_step(p, staker, amount, now, transferred) matches Ok(q)
            ==> q.balanced()),
        p.balanced() ==> (unstake_step(p, staker, transferred) matches Ok(q) ==> q.balanced()),
        p.balanced() ==> (claim_step(p, staker, now, transferred) matches Ok(q) ==> q.balanced()),
        p.balanced() ==> (update_pool_rewards_step(p, caller, amount) matches Ok(q)
            ==> q.balanced()),
{
    let s = p.total_stakes;
    lemma_total_push(s, new_stake(staker, amount, now));
    lemma_user_position(s, staker);
    let i = user_position(s, staker);
    if i >= 0 {
        lemma_total_remove(s, i);
        lemma_total_update(
            s,
            i,
            StakeView { rewards_claimed_upto: Some(claim_tier(p, staker, now)), ..s[i] },
        );
    }
}

/// Every operation keeps the structural invariant of the pool, and a
/// successful creation establishes it.
pub proof fn lemma_operations_keep_wf(
    p: PoolView,
    staker: Seq<char>,
    amount: u64,
    now: i64,
    transferred: bool,
    caller: Seq<char>,
    config: PoolView,
)
    ensures
        create_step(p, caller, config) matches Ok(q) ==> q.wf(),
        p.wf() ==> (stake_step(p, staker, amount, now, transferred) matches Ok(q) ==> q.wf()),
        p.wf() ==> (unstake_step(p, staker, transferred) matches Ok(q) ==> q.wf()),
        p.wf() ==> (claim_step(p, staker, now, transferred) matches Ok(q) ==> q.wf()),
        p.wf() ==> (add_liquidity_step(p, caller, amount, transferred) matches Ok(q) ==> q.wf()),
        p.wf() ==> (remove_liquidity_step(p, caller, transferred) matches Ok(q) ==> q.wf()),
        p.wf() ==> (update_pool_rewards_step(p, caller, amount) matches Ok(q) ==> q.wf()),
{
    let s = p.total_stakes;
    lemma_user_position(s, staker);
    let i = user_position(s, staker);
    if p.wf() {
        if let Ok(q) = stake_step(p, staker, amount, now, transferred) {
            let t = q.total_stakes;
            assert(t == s.push(new_stake(staker, amount, now)));
            assert forall|a: int, b: int|
                0 <= a < t.len() && 0 <= b < t.len() && a != b implies t[a].user != t[b].user by {
                if a < s.len() && b < s.len() {
                    assert(t[a] == s[a] && t[b] == s[b]);
                } else if a < s.len() {
                    assert(t[a] == s[a]);
                } else {
                    assert(t[b] == s[b]);
                }
            }
            assert forall|a: int| 0 <= a < t.len() implies #[trigger] t[a].amount > 0 && match t[
                a
            ].rewards_claimed_upto {
                Some(c) => c < q.reward_timelines.len(),
                None => true,
            } by {
                if a < s.len() {
                    assert(t[a] == s[a]);
                }
            }
        }
        if let Ok(q) = unstake_step(p, staker, transferred) {
            let t = q.total_stakes;
            assert(t == s.remove(i));
            assert forall|a: int, b: int|
                0 <= a < t.len() && 0 <= b < t.len() && a != b implies t[a].user != t[b].user by {
                let a2 = if a < i { a } else { a + 1 };
                let b2 = if b < i { b } else { b + 1 };
                assert(t[a] == s[a2] && t[b] == s[b2]);
            }
            assert forall|a: int| 0 <= a < t.len() implies #[trigger] t[a].amount > 0 && match t[
                a
            ].rewards_claimed_upto {
                Some(c) => c < q.reward_timelines.len(),
                None => true,
            } by {
                let a2 = if a < i { a } else { a + 1 };
                assert(t[a] == s[a2]);
            }
        }
        if let Ok(q) = claim_step(p, staker, now, transferred) {
            let t = q.total_stakes;
            assert forall|a: int, b: int|
                0 <= a < t.len() && 0 <= b < t.len() && a != b implies t[a].user != t[b].user by {
                assert(t[a].user == s[a].user && t[b].user == s[b].user);
            }
            assert forall|a: int| 0 <= a < t.len() implies #[trigger] t[a].amount > 0 && match t[
                a
            ].rewards_claimed_upto {
                Some(c) => c < q.reward_timelines.len(),
                None => true,
            } by {
                if a != i {
                    assert(t[a] == s[a]);
                }
            }
        }
    }
}

/// Staking and then unstaking at once, with both transfers done, gives back
/// the pool as it was: the liquidity is restored and the participant is gone
/// from the ledger.
pub proof fn lemma_stake_unstake_round_trip(p: PoolView, staker: Seq<char>, amount: u64, now: i64)
    ensures
        stake_step(p, staker, amount, now, true) matches Ok(q) ==> unstake_step(q, staker, true)
            == Ok::<PoolView, PoolError>(p),
{
    if let Ok(q) = stake_step(p, staker, amount, now, true) {
        let x = new_stake(staker, amount, now);
        lemma_position_after_push(p.total_stakes, x);
        assert(q.total_stakes.remove(p.total_stakes.len() as int) =~= p.total_stakes);
    }
}

/// After a successful claim at `now`, claiming again at `now` is refused with
/// `AlreadyClaimed`, whatever the transfer would do; at any earlier time it is
/// refused with `AlreadyClaimed` or, before the first tier, `NoTierReached`.
pub proof fn lemma_claim_idempotent(
    p: PoolView,
    staker: Seq<char>,
    now: i64,
    earlier: i64,
    transferred: bool,
)
    ensures
        claim_step(p, staker, now, true) matches Ok(q) ==> claim_step(q, staker, now, transferred)
            == Err::<PoolView, PoolError>(PoolError::AlreadyClaimed),
        claim_step(p, staker, now, true) matches Ok(q) ==> earlier <= now ==> {
            let r = claim_step(q, staker, earlier, transferred);
            r == Err::<PoolView, PoolError>(PoolError::AlreadyClaimed) || r == Err::<
                PoolView,
                PoolError,
            >(PoolError::NoTierReached)
        },
{
    if let Ok(q) = claim_step(p, staker, now, true) {
        let s = p.total_stakes;
        lemma_user_position(s, staker);
        let i = user_position(s, staker);
        assert forall|j: int| 0 <= j < i implies q.total_stakes[j].user != staker by {
            assert(q.total_stakes[j] == s[j]);
        }
        lemma_first_position(q.total_stakes, staker, i);
        if earlier <= now {
            lemma_tier_monotonic(p.reward_timelines, earlier - s[i].starts_at, now - s[i].starts_at);
        }
        lemma_tier_bounds(p.reward_timelines, now - s[i].starts_at);
    }
}

/// A successful claim records the tier it paid, which lies above any tier
/// paid before and inside the schedule: the paid tier never goes down.
pub proof fn lemma_claimed_tier_grows(p: PoolView, staker: Seq<char>, now: i64, transferred: bool)
    ensures
        claim_step(p, staker, now, transferred) matches Ok(q) ==> {
            let i = user_position(p.total_stakes, staker);
            &&& q.total_stakes[i].rewards_claimed_upto == Some(claim_tier(p, staker, now))
            &&& claim_tier(p, staker, now) < p.reward_timelines.len()
            &&& (p.total_stakes[i].rewards_claimed_upto matches Some(c) ==> c < claim_tier(
                p,
                staker,
                now,
            ))
        },
{
    if let Ok(q) = claim_step(p, staker, now, transferred) {
        let i = user_position(p.total_stakes, staker);
        lemma_user_position(p.total_stakes, staker);
        lemma_tier_bounds(p.reward_timelines, now - p.total_stakes[i].starts_at);
    }
}

/// Only the owner may create a pool, deposit, sweep or top up the reserve:
/// any other caller is refused with `Unauthorized`, and the pool stays as it
/// was.
pub proof fn lemma_owner_only(
    p: PoolView,
    caller: Seq<char>,
    config: PoolView,
    amount: u64,
    transferred: bool,
)
    ensures
        caller != config.owner ==> create_step(p, caller, config) == Err::<PoolView, PoolError>(
            PoolError::Unauthorized,
        ),
        caller != p.owner ==> add_liquidity_step(p, caller, amount, transferred) == Err::<
            PoolView,
            PoolError,
        >(PoolError::Unauthorized),
        caller != p.owner ==> remove_liquidity_step(p, caller, transferred) == Err::<
            PoolView,
            PoolError,
        >(PoolError::Unauthorized),
        caller != p.owner ==> update_pool_rewards_step(p, caller, amount) == Err::<
            PoolView,
            PoolError,
        >(PoolError::Unauthorized),
{
}

} // verus!
