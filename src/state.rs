use vstd::prelude::*;

verus! {

/// One participant's active position.
#[derive(Debug, Clone, PartialEq, Eq)]
pub struct StakeAmount {
    pub amount: u64,
    pub user: String,
    pub starts_at: i64,
    /// Highest reward tier already paid; `None` while nothing was paid.
    pub rewards_claimed_upto: Option<usize>,
}

/// The pool record: schedule, ledger of positions and the two counters.
#[derive(Debug, Clone, PartialEq, Eq)]
pub struct PoolData {
    pub id: String,
    pub token: String,
    pub reward_timelines: Vec<u8>,
    pub reward_percentages: Vec<u8>,
    pub total_stakes: Vec<StakeAmount>,
    pub total_liquidity: u64,
    pub available_rewards: u64,
    pub owner: String,
}

/// Mathematical model of a [`StakeAmount`].
pub ghost struct StakeView {
    pub amount: u64,
    pub user: Seq<char>,
    pub starts_at: i64,
    pub rewards_claimed_upto: Option<int>,
}

/// Mathematical model of a [`PoolData`].
pub ghost struct PoolView {
    pub id: Seq<char>,
    pub token: Seq<char>,
    pub reward_timelines: Seq<u8>,
    pub reward_percentages: Seq<u8>,
    pub total_stakes: Seq<StakeView>,
    pub total_liquidity: u64,
    pub available_rewards: u64,
    pub owner: Seq<char>,
}

impl View for StakeAmount {
    type V = StakeView;

    open spec fn view(&self) -> StakeView {
        StakeView {
            amount: self.amount,
            user: self.user@,
            starts_at: self.starts_at,
            rewards_claimed_upto: match self.rewards_claimed_upto {
                Some(c) => Some(c as int),
                None => None,
            },
        }
    }
}

impl View for PoolData {
    type V = PoolView;

    open spec fn view(&self) -> PoolView {
        PoolView {
            id: self.id@,
            token: self.token@,
            reward_timelines: self.reward_timelines@,
            reward_percentages: self.reward_percentages@,
            total_stakes: stakes_view(self.total_stakes@),
            total_liquidity: self.total_liquidity,
            available_rewards: self.available_rewards,
            owner: self.owner@,
        }
    }
}

/// The models of a sequence of positions.
pub open spec fn stakes_view(s: Seq<StakeAmount>) -> Seq<StakeView> {
    s.map_values(|r: StakeAmount| r@)
}

/// Thresholds strictly increase.
pub open spec fn strictly_increasing(t: Seq<u8>) -> bool {
    forall|i: int, j: int| 0 <= i < j < t.len() ==> t[i] < t[j]
}

/// A usable reward schedule: strictly increasing thresholds, one percentage
/// for each.
pub open spec fn schedule_valid(timelines: Seq<u8>, percentages: Seq<u8>) -> bool {
    &&& timelines.len() == percentages.len()
    &&& strictly_increasing(timelines)
}

/// Sum of the staked amounts.
pub open spec fn total_staked(s: Seq<StakeView>) -> int
    decreases s.len(),
{
    if s.len() == 0 {
        0
    } else {
        total_staked(s.drop_last()) + s.last().amount
    }
}

/// Whether `user` holds a position.
pub open spec fn has_user(s: Seq<StakeView>, user: Seq<char>) -> bool {
    exists|i: int| 0 <= i < s.len() && s[i].user == user
}

/// At most one position per participant.
pub open spec fn users_unique(s: Seq<StakeView>) -> bool {
    forall|i: int, j: int| 0 <= i < s.len() && 0 <= j < s.len() && i != j ==> s[i].user != s[j].user
}

impl PoolView {
    /// The liquidity counter equals the sum of the active positions.
    pub open spec fn balanced(self) -> bool {
        self.total_liquidity == total_staked(self.total_stakes)
    }

    /// The structural invariant of a pool: a valid schedule, one position
    /// per participant, positive amounts, and paid tiers inside the schedule.
    pub open spec fn wf(self) -> bool {
        &&& schedule_valid(self.reward_timelines, self.reward_percentages)
        &&& users_unique(self.total_stakes)
        &&& forall|i: int|
            0 <= i < self.total_stakes.len() ==> {
                &&& #[trigger] self.total_stakes[i].amount > 0
                &&& match self.total_stakes[i].rewards_claimed_upto {
                    Some(t) => t < self.reward_timelines.len(),
                    None => true,
                }
            }
    }
}

} // verus!
