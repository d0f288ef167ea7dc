use vstd::prelude::*;
use crate::state::{has_user, stakes_view, total_staked, StakeAmount, StakeView};

verus! {

/// Index of the first position held by `user`, or `-1` when there is none.
pub open spec fn user_position(s: Seq<StakeView>, user: Seq<char>) -> int
    decreases s.len(),
{
    if s.len() == 0 {
        -1
    } else {
        let p = user_position(s.drop_last(), user);
        if p >= 0 {
            p
        } else if s.last().user == user {
            s.len() - 1
        } else {
            -1
        }
    }
}

/// `user_position` is the first index that holds `user`.
pub proof fn lemma_user_position(s: Seq<StakeView>, user: Seq<char>)
    ensures
        -1 <= user_position(s, user) < s.len(),
        user_position(s, user) == -1 <==> !has_user(s, user),
        user_position(s, user) >= 0 ==> s[user_position(s, user)].user == user,
        forall|j: int| 0 <= j < user_position(s, user) ==> s[j].user != user,
    decreases s.len(),
{
    if s.len() > 0 {
        let d = s.drop_last();
        lemma_user_position(d, user);
        if user_position(d, user) == -1 && s.last().user != user {
            assert forall|i: int| 0 <= i < s.len() implies s[i].user != user by {
                if i < s.len() - 1 {
                    assert(s[i] == d[i]);
                }
            }
        }
        if user_position(d, user) >= 0 {
            assert(s[user_position(d, user)] == d[user_position(d, user)]);
        }
        if user_position(d, user) == -1 {
            assert forall|j: int| 0 <= j < user_position(s, user) implies s[j].user != user by {
                assert(s[j] == d[j]);
            }
        } else {
            assert forall|j: int| 0 <= j < user_position(s, user) implies s[j].user != user by {
                assert(s[j] == d[j]);
            }
        }
    }
}

/// An index that holds `user`, with no earlier one, is `user_position`.
pub proof fn lemma_first_position(s: Seq<StakeView>, user: Seq<char>, i: int)
    requires
        0 <= i < s.len(),
        s[i].user == user,
        forall|j: int| 0 <= j < i ==> s[j].user != user,
    ensures
        user_position(s, user) == i,
{
    lemma_user_position(s, user);
}

/// Appending the first position of `user` puts it at the end.
pub proof fn lemma_position_after_push(s: Seq<StakeView>, x: StakeView)
    requires
        !has_user(s, x.user),
    ensures
        user_position(s.push(x), x.user) == s.len(),
{
    lemma_user_position(s, x.user);
    assert(s.push(x).drop_last() =~= s);
}

/// Appending a position adds its amount.
pub proof fn lemma_total_push(s: Seq<StakeView>, x: StakeView)
    ensures
        total_staked(s.push(x)) == total_staked(s) + x.amount,
{
    assert(s.push(x).drop_last() =~= s);
}

/// Removing a position subtracts its amount.
pub proof fn lemma_total_remove(s: Seq<StakeView>, i: int)
    requires
        0 <= i < s.len(),
    ensures
        total_staked(s.remove(i)) == total_staked(s) - s[i].amount,
    decreases s.len(),
{
    if i == s.len() - 1 {
        assert(s.remove(i) =~= s.drop_last());
    } else {
        lemma_total_remove(s.drop_last(), i);
        assert(s.remove(i).drop_last() =~= s.drop_last().remove(i));
        assert(s.remove(i).last() == s.last());
    }
}

/// Replacing a position swaps its amount for the new one.
pub proof fn lemma_total_update(s: Seq<StakeView>, i: int, x: StakeView)
    requires
        0 <= i < s.len(),
    ensures
        total_staked(s.update(i, x)) == total_staked(s) - s[i].amount + x.amount,
    decreases s.len(),
{
    if i == s.len() - 1 {
        assert(s.update(i, x).drop_last() =~= s.drop_last());
    } else {
        lemma_total_update(s.drop_last(), i, x);
        assert(s.update(i, x).drop_last() =~= s.drop_last().update(i, x));
    }
}

/// Finds the position held by `user`.
pub fn find_user(stakes: &Vec<StakeAmount>, user: &String) -> (r: Option<usize>)
    ensures
        match r {
            Some(i) => i as int == user_position(stakes_view(stakes@), user@),
            None => user_position(stakes_view(stakes@), user@) == -1,
        },
{
    let ghost v = stakes_view(stakes@);
    let mut i: usize = 0;
    while i < stakes.len()
        invariant
            0 <= i <= stakes@.len(),
            v == stakes_view(stakes@),
            forall|j: int| 0 <= j < i ==> v[j].user != user@,
        decreases stakes@.len() - i,
    {
        if stakes[i].user == *user {
            proof {
                lemma_first_position(v, user@, i as int);
            }
            return Some(i);
        }
        i = i + 1;
    }
    proof {
        lemma_user_position(v, user@);
    }
    None
}

} // verus!
