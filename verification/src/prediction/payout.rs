//! The arithmetic of a game's pool: totals, commission, winning stakes and
//! payouts, with the facts that tie them together.
use vstd::prelude::*;

verus! {

/// The sum of a sequence of stakes.
pub open spec fn total(s: Seq<u128>) -> nat
    decreases s.len(),
{
    if s.len() == 0 {
        0
    } else {
        total(s.drop_last()) + s.last() as nat
    }
}

/// Every position that `outcome` marks as winning (a non-zero mark) indexes
/// into a sequence of length `len`.
pub open spec fn winners_in_range(outcome: Seq<u32>, len: nat) -> bool {
    forall|i: int| 0 <= i < outcome.len() && outcome[i] > 0 ==> i < len
}

/// The stake on the winning outcomes: the sum of `stakes[i]` over the
/// positions `i` that `outcome` marks with a non-zero value.
pub open spec fn winning_stake(outcome: Seq<u32>, stakes: Seq<u128>) -> nat
    decreases outcome.len(),
{
    if outcome.len() == 0 {
        0
    } else {
        winning_stake(outcome.drop_last(), stakes) + if outcome.last() > 0 {
            stakes[outcome.len() - 1] as nat
        } else {
            0
        }
    }
}

/// The commission on a pool: `rate` thousandths of it, rounded up.
pub open spec fn commission_fee(pool: nat, rate: nat) -> nat {
    (pool * rate + 999) / 1000
}

/// What one winner is paid: its share `user_win / total_wins` of the profit
/// left to users, rounded down.
pub open spec fn payout(users_profit: nat, user_win: nat, total_wins: nat) -> nat {
    users_profit * user_win / total_wins
}

proof fn lemma_total_prefix(s: Seq<u128>, i: int)
    requires
        0 <= i < s.len(),
    ensures
        total(s.take(i + 1)) == total(s.take(i)) + s[i],
{
    assert(s.take(i + 1).drop_last() =~= s.take(i));
}

proof fn lemma_total_prefix_le(s: Seq<u128>, i: int)
    requires
        0 <= i <= s.len(),
    ensures
        total(s.take(i)) <= total(s),
    decreases s.len() - i,
{
    if i == s.len() {
        assert(s.take(i) =~= s);
    } else {
        lemma_total_prefix(s, i);
        lemma_total_prefix_le(s, i + 1);
    }
}

/// The sum of `values`, or `None` when it does not fit in a `u128`.
pub fn checked_total(values: &Vec<u128>) -> (r: Option<u128>)
    ensures
        r matches Some(t) ==> t == total(values@),
        r is None ==> total(values@) > u128::MAX,
{
    let mut sum: u128 = 0;
    let mut i: usize = 0;
    while i < values.len()
        invariant
            i <= values.len(),
            sum == total(values@.take(i as int)),
        decreases values.len() - i,
    {
        proof {
            lemma_total_prefix(values@, i as int);
            lemma_total_prefix_le(values@, i as int + 1);
        }
        if sum > u128::MAX - values[i] {
            return None;
        }
        sum = sum + values[i];
        i = i + 1;
    }
    assert(values@.take(i as int) =~= values@);
    Some(sum)
}

proof fn lemma_winning_prefix(outcome: Seq<u32>, stakes: Seq<u128>, i: int)
    requires
        0 <= i < outcome.len(),
    ensures
        winning_stake(outcome.take(i + 1), stakes) == winning_stake(outcome.take(i), stakes) + if outcome[i] > 0 {
            stakes[i] as nat
        } else {
            0
        },
{
    assert(outcome.take(i + 1).drop_last() =~= outcome.take(i));
}

proof fn lemma_winning_prefix_le(outcome: Seq<u32>, stakes: Seq<u128>, i: int)
    requires
        0 <= i <= outcome.len(),
    ensures
        winning_stake(outcome.take(i), stakes) <= winning_stake(outcome, stakes),
    decreases outcome.len() - i,
{
    if i == outcome.len() {
        assert(outcome.take(i) =~= outcome);
    } else {
        lemma_winning_prefix(outcome, stakes, i);
        lemma_winning_prefix_le(outcome, stakes, i + 1);
    }
}

/// The stake on the outcomes that `outcome` marks as winning, or `None` when
/// a winning position lies outside `stakes` or the sum does not fit in a
/// `u128`.
pub fn checked_winning_stake(outcome: &Vec<u32>, stakes: &Vec<u128>) -> (r: Option<u128>)
    ensures
        r matches Some(t) ==> winners_in_range(outcome@, stakes@.len()) && t == winning_stake(outcome@, stakes@),
        r is None ==> !winners_in_range(outcome@, stakes@.len()) || winning_stake(outcome@, stakes@) > u128::MAX,
{
    let mut sum: u128 = 0;
    let mut i: usize = 0;
    while i < outcome.len()
        invariant
            i <= outcome.len(),
            sum == winning_stake(outcome@.take(i as int), stakes@),
            forall|j: int| 0 <= j < i && outcome@[j] > 0 ==> j < stakes@.len(),
        decreases outcome.len() - i,
    {
        proof {
            lemma_winning_prefix(outcome@, stakes@, i as int);
            lemma_winning_prefix_le(outcome@, stakes@, i as int + 1);
        }
        if outcome[i] > 0 {
            if i >= stakes.len() {
                return None;
            }
            if sum > u128::MAX - stakes[i] {
                return None;
            }
            sum = sum + stakes[i];
        }
        i = i + 1;
    }
    assert(outcome@.take(i as int) =~= outcome@);
    Some(sum)
}

/// `n / 1000` rounded up.
pub fn thousandths_rounded_up(n: u128) -> (r: u128)
    ensures
        r == (n + 999) / 1000,
{
    let q = n / 1000;
    if n % 1000 == 0 {
        q
    } else {
        q + 1
    }
}

} // verus!
