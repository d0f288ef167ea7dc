use vstd::prelude::*;
use crate::error::PoolError;

verus! {

/// The reward tier reached after `elapsed` time units: the largest index `i`
/// with `timelines[i] <= elapsed`, or `-1` when there is none.
pub open spec fn tier_of(timelines: Seq<u8>, elapsed: int) -> int
    decreases timelines.len(),
{
    if timelines.len() == 0 {
        -1
    } else if timelines.last() <= elapsed {
        timelines.len() - 1
    } else {
        tier_of(timelines.drop_last(), elapsed)
    }
}

/// The tier lies in `-1 .. timelines.len()`.
pub proof fn lemma_tier_bounds(timelines: Seq<u8>, elapsed: int)
    ensures
        -1 <= tier_of(timelines, elapsed) < timelines.len(),
        tier_of(timelines, elapsed) >= 0 ==> timelines[tier_of(timelines, elapsed)] <= elapsed,
    decreases timelines.len(),
{
    if timelines.len() > 0 {
        lemma_tier_bounds(timelines.drop_last(), elapsed);
    }
}

/// Tiers never go down as time passes.
pub proof fn lemma_tier_monotonic(timelines: Seq<u8>, e1: int, e2: int)
    requires
        e1 <= e2,
    ensures
        tier_of(timelines, e1) <= tier_of(timelines, e2),
    decreases timelines.len(),
{
    if timelines.len() > 0 {
        lemma_tier_monotonic(timelines.drop_last(), e1, e2);
        lemma_tier_bounds(timelines.drop_last(), e1);
        lemma_tier_bounds(timelines.drop_last(), e2);
    }
}

/// Resolves the reward tier reached after `value` time units on the schedule
/// `array`: the largest index whose threshold is at most `value`.
pub fn nearest_index(array: &[u8], value: u64) -> (r: Result<usize, PoolError>)
    ensures
        array@.len() == 0 ==> r == Err::<usize, PoolError>(PoolError::InvalidScheduleConfig),
        array@.len() > 0 && tier_of(array@, value as int) < 0 ==> r == Err::<usize, PoolError>(
            PoolError::NoTierReached,
        ),
        array@.len() > 0 && tier_of(array@, value as int) >= 0 ==> r == Ok::<usize, PoolError>(
            tier_of(array@, value as int) as usize,
        ),
        r matches Ok(t) ==> t as int == tier_of(array@, value as int),
{
    if array.len() == 0 {
        return Err(PoolError::InvalidScheduleConfig);
    }
    let mut best: Option<usize> = None;
    let mut i: usize = 0;
    while i < array.len()
        invariant
            0 <= i <= array@.len(),
            match best {
                Some(b) => b as int == tier_of(array@.subrange(0, i as int), value as int),
                None => tier_of(array@.subrange(0, i as int), value as int) == -1,
            },
        decreases array@.len() - i,
    {
        assert(array@.subrange(0, i as int + 1).drop_last() =~= array@.subrange(0, i as int));
        if array[i] as u64 <= value {
            best = Some(i);
        }
        i = i + 1;
    }
    assert(array@.subrange(0, array@.len() as int) =~= array@);
    proof {
        lemma_tier_bounds(array@, value as int);
    }
    match best {
        Some(b) => Ok(b),
        None => Err(PoolError::NoTierReached),
    }
}

} // verus!
