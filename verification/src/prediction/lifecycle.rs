//! What each step of a game's life does, stated against its inputs: opening
//! a round, betting in it, settling it after its end, claiming after its end,
//! and depositing to or withdrawing from the market.
use vstd::prelude::*;
use super::games::{
    bet_after_bet, bet_aborts, zero_stakes, bet_arguments_valid, bet_refusal, claim_aborts, claim_amount,
    claim_refusal, game_after_bet, market_refusal, game_after_set, set_game_refusal, settle_aborts,
    settle_game_refusal, settle_refusal, CLAIM_MIN_HOLDING,
};
use super::market::{
    credited, debited, deposit_aborts, deposit_refusal, increment_refusal, incremented,
    withdraw_aborts, withdraw_refusal,
};
use super::payout::{commission_fee, payout, total, winning_stake};
use super::types::{BetView, Error, GameView, StateView, Status, UserView, MAX_COUNT};

verus! {

proof fn lemma_total_update(s: Seq<u128>, i: int, x: u128)
    requires
        0 <= i < s.len(),
    ensures
        total(s.update(i, x)) + s[i] == total(s) + x,
    decreases s.len(),
{
    let n = s.len() - 1;
    if i == n {
        assert(s.update(i, x).drop_last() =~= s.drop_last());
    } else {
        assert(s.update(i, x).drop_last() =~= s.drop_last().update(i, x));
        lemma_total_update(s.drop_last(), i, x);
    }
}

/// `set_game` always leaves an open round: the game it stores is active,
/// has exactly the requested betting window, four outcomes with no stake, no
/// bet and no winning mark. A new game belongs to the caller at the given
/// rate; a reopened one keeps its admin and rate.
pub proof fn lemma_set_game_opens_round(
    prev: Option<GameView>,
    game_admin: Seq<char>,
    time_start: u64,
    time_end: u64,
    commission_rate: u128,
)
    ensures
        ({
            let g = game_after_set(prev, game_admin, time_start, time_end, commission_rate);
            &&& g.status == Status::Active
            &&& g.time_start == time_start
            &&& g.time_end == time_end
            &&& g.values.len() == 4 && g.numbers.len() == 4 && g.outcome.len() == 4
            &&& forall|i: int| 0 <= i < 4 ==> g.values[i] == 0 && g.numbers[i] == 0 && g.outcome[i] == 0
            &&& total(g.values) == 0
            &&& prev matches Some(p) ==> g.game_admin == p.game_admin && g.commission_rate
                == p.commission_rate
            &&& prev is None ==> g.game_admin == game_admin && g.commission_rate == commission_rate
        }),
{
    let z = zero_stakes();
    assert(z.drop_last() =~= seq![0u128, 0u128, 0u128]);
    assert(z.drop_last().drop_last() =~= seq![0u128, 0u128]);
    assert(z.drop_last().drop_last().drop_last() =~= seq![0u128]);
    assert(z.drop_last().drop_last().drop_last().drop_last() =~= Seq::<u128>::empty());
    reveal_with_fuel(total, 5);
    assert(total(z) == 0);
}

/// `set_game` refuses only for a window that ends before it starts, a new
/// game whose window is already over, or a reopening that is not by the
/// game's admin, not after its end, or not of a settled game.
pub proof fn lemma_set_game_refuses_only_for_cause(
    prev: Option<GameView>,
    game_admin: Seq<char>,
    now: u64,
    time_start: u64,
    time_end: u64,
)
    ensures
        set_game_refusal(prev, game_admin, now, time_start, time_end) is Some ==> {
            ||| time_end <= time_start
            ||| prev is None && now > time_end
            ||| prev matches Some(p) && (p.game_admin != game_admin || now < p.time_end || p.status
                != Status::Settled)
        },
        time_start < time_end && prev is None && now <= time_end ==> set_game_refusal(
            prev,
            game_admin,
            now,
            time_start,
            time_end,
        ) is None,
        time_start < time_end && (prev matches Some(p) && p.game_admin == game_admin && now
            >= p.time_end && p.status == Status::Settled) ==> set_game_refusal(
            prev,
            game_admin,
            now,
            time_start,
            time_end,
        ) is None,
{
}

/// A round that `set_game` opens takes bets exactly inside its window, on
/// each of its outcomes, for every positive amount the token interface can
/// carry, from any user whose balance and allowance cover it while the
/// market is active; before the window the bet is refused as early, from its
/// end on as late. Such a bet never aborts.
pub proof fn lemma_opened_round_takes_bets(
    prev: Option<GameView>,
    game_admin: Seq<char>,
    time_start: u64,
    time_end: u64,
    commission_rate: u128,
    state: StateView,
    user_balance: i128,
    allowance: i128,
    now: u64,
    value: u128,
    bet_index: u32,
)
    requires
        state.status == Status::Active,
        user_balance >= value,
        allowance >= value,
    ensures
        ({
            let g = game_after_set(prev, game_admin, time_start, time_end, commission_rate);
            &&& (0 < value <= i128::MAX && bet_index < g.values.len()) ==> bet_arguments_valid(value, bet_index)
            &&& bet_arguments_valid(value, bet_index) ==> bet_index < g.values.len() && bet_index < g.numbers.len()
            &&& bet_arguments_valid(value, bet_index) ==> {
                &&& bet_refusal(Some(state), user_balance, allowance, Some(g), None, now, value, bet_index) is None
                    <==> time_start <= now < time_end
                &&& now < time_start ==> bet_refusal(Some(state), user_balance, allowance, Some(g), None, now, value, bet_index)
                    == Some(Error::BeforeStartTime)
                &&& time_start <= now && now >= time_end ==> bet_refusal(Some(state), user_balance, allowance, Some(g), None, now, value, bet_index)
                    == Some(Error::AfterEndTime)
                &&& !bet_aborts(Some(state), user_balance, allowance, Some(g), None, now, value, bet_index)
            }
        }),
{
    lemma_set_game_opens_round(prev, game_admin, time_start, time_end, commission_rate);
}

/// A bet adds exactly its amount to the game's pool and to the stake on its
/// outcome, adds one to that outcome's count, and leaves the other outcomes,
/// the window, the status and the admin as they were. The bettor's stake on
/// that outcome grows by the amount (from nothing on a first bet), its other
/// stakes stay, and a first bet is unclaimed.
pub proof fn lemma_bet_adds_its_amount(g: GameView, b: Option<BetView>, i: int, value: u128)
    requires
        0 <= i < g.values.len(),
        i < g.numbers.len(),
        g.values[i] + value <= u128::MAX,
        g.numbers[i] + 1 <= u32::MAX,
        0 <= i < 4,
        b matches Some(r) ==> i < r.bet_values.len() && r.bet_values[i] + value <= u128::MAX,
    ensures
        ({
            let g2 = game_after_bet(g, i, value);
            let b2 = bet_after_bet(b, i, value);
            &&& total(g2.values) == total(g.values) + value
            &&& g2.values.len() == g.values.len() && g2.numbers.len() == g.numbers.len()
            &&& g2.values[i] == g.values[i] + value
            &&& g2.numbers[i] == g.numbers[i] + 1
            &&& forall|j: int| 0 <= j < g.values.len() && j != i ==> g2.values[j] == g.values[j]
            &&& forall|j: int| 0 <= j < g.numbers.len() && j != i ==> g2.numbers[j] == g.numbers[j]
            &&& g2.time_start == g.time_start && g2.time_end == g.time_end
            &&& g2.status == g.status && g2.game_admin == g.game_admin
            &&& g2.commission_rate == g.commission_rate && g2.outcome == g.outcome
            &&& match b {
                Some(r) => {
                    &&& b2.bet_values.len() == r.bet_values.len()
                    &&& b2.bet_values[i] == r.bet_values[i] + value
                    &&& forall|j: int| 0 <= j < r.bet_values.len() && j != i ==> b2.bet_values[j] == r.bet_values[j]
                    &&& b2.claimed == r.claimed
                },
                None => {
                    &&& b2.bet_values.len() == 4
                    &&& b2.bet_values[i] == value
                    &&& forall|j: int| 0 <= j < 4 && j != i ==> b2.bet_values[j] == 0
                    &&& !b2.claimed
                },
            }
        }),
{
    lemma_total_update(g.values, i, (g.values[i] + value) as u128);
}

/// Settlement opens at the game's end and stays open: for the game's admin
/// and an active or paused game it is refused as early before `time_end`,
/// and from `time_end` on the outcome (refusal, abort or success) does not
/// depend on the time.
pub proof fn lemma_settle_opens_at_end(
    g: GameView,
    now: u64,
    later: u64,
    outcome: Seq<u32>,
    state: Option<StateView>,
    contract_balance: i128,
)
    requires
        g.status == Status::Active || g.status == Status::Paused,
    ensures
        now < g.time_end ==> settle_game_refusal(Some(g), g.game_admin, now) == Some(Error::BeforeEndTime),
        g.time_end <= now ==> settle_game_refusal(Some(g), g.game_admin, now) is None,
        g.time_end <= now && g.time_end <= later ==> {
            &&& settle_refusal(Some(g), g.game_admin, now, state, contract_balance)
                == settle_refusal(Some(g), g.game_admin, later, state, contract_balance)
            &&& settle_aborts(Some(g), g.game_admin, now, outcome) == settle_aborts(Some(g), g.game_admin, later, outcome)
        },
{
}

/// Settlement refuses only a missing game, a caller other than its admin,
/// a time before its end, or a game that is neither active nor paused.
pub proof fn lemma_settle_refuses_only_for_cause(game: Option<GameView>, admin: Seq<char>, now: u64)
    ensures
        settle_game_refusal(game, admin, now) is Some ==> {
            ||| game is None
            ||| game matches Some(g) && (admin != g.game_admin || now < g.time_end || (g.status
                != Status::Active && g.status != Status::Paused))
        },
{
}

/// Claims open at the game's end and stay open: before `time_end` a claim
/// from an active market by a holder of the minimum is refused, and from
/// `time_end` on its outcome (refusal, abort or payout) does not depend on
/// the time.
pub proof fn lemma_claim_opens_at_end(
    state: Option<StateView>,
    user_balance: i128,
    allowance: i128,
    g: GameView,
    bet: Option<BetView>,
    now: u64,
    later: u64,
)
    ensures
        now < g.time_end && (state matches Some(s) && s.status == Status::Active) && user_balance
            >= CLAIM_MIN_HOLDING && allowance >= CLAIM_MIN_HOLDING ==> claim_refusal(
            state,
            user_balance,
            allowance,
            Some(g),
            bet,
            now,
        ) == Some(Error::AfterEndTime),
        g.time_end <= now && g.time_end <= later ==> {
            &&& claim_refusal(state, user_balance, allowance, Some(g), bet, now) == claim_refusal(
                state,
                user_balance,
                allowance,
                Some(g),
                bet,
                later,
            )
            &&& claim_aborts(state, user_balance, allowance, Some(g), bet, now) == claim_aborts(
                state,
                user_balance,
                allowance,
                Some(g),
                bet,
                later,
            )
        },
{
}

/// On a settled game, from its end on, a holder of the minimum in an active
/// market collects an unclaimed bet exactly when its payout is positive.
pub proof fn lemma_winners_collect(
    s: StateView,
    user_balance: i128,
    allowance: i128,
    g: GameView,
    b: BetView,
    now: u64,
)
    requires
        s.status == Status::Active,
        user_balance >= CLAIM_MIN_HOLDING,
        allowance >= CLAIM_MIN_HOLDING,
        g.status == Status::Settled,
        g.time_end <= now,
        !b.claimed,
    ensures
        claim_refusal(Some(s), user_balance, allowance, Some(g), Some(b), now) is None <==> claim_amount(g, b) > 0,
        claim_amount(g, b) == 0 ==> claim_refusal(Some(s), user_balance, allowance, Some(g), Some(b), now)
            == Some(Error::UserClaimsZero),
{
}

/// Deposits add up: a registered user can deposit whenever its token
/// balance and allowance cover the amount, whatever it already holds with
/// the market, and two deposits in a row leave the sum of both credited.
pub proof fn lemma_deposits_accumulate(
    u: UserView,
    first: u128,
    balance1: i128,
    allowance1: i128,
    at1: u64,
    second: u128,
    balance2: i128,
    allowance2: i128,
    at2: u64,
)
    requires
        balance1 >= first,
        allowance1 >= first,
        balance2 >= second,
        allowance2 >= second,
        first <= i128::MAX,
        second <= i128::MAX,
        u.balance + first + second <= u128::MAX,
    ensures
        deposit_refusal(first, balance1, allowance1, Some(u)) is None,
        !deposit_aborts(first, balance1, allowance1, Some(u)),
        deposit_refusal(second, balance2, allowance2, Some(credited(u, first, at1))) is None,
        !deposit_aborts(second, balance2, allowance2, Some(credited(u, first, at1))),
        credited(credited(u, first, at1), second, at2).balance == u.balance + first + second,
        credited(credited(u, first, at1), second, at2).addr == u.addr,
        credited(credited(u, first, at1), second, at2).id == u.id,
{
}

/// Deposits and withdrawals refuse only for cause: a deposit for a short
/// token balance or allowance or an unregistered user, a withdrawal for a
/// short market balance or an unregistered user. A withdrawal debits exactly
/// its amount.
pub proof fn lemma_funds_refuse_only_for_cause(
    amount: u128,
    sender_balance: i128,
    allowance: i128,
    contract_balance: i128,
    stored: Option<UserView>,
    now: u64,
)
    ensures
        deposit_refusal(amount, sender_balance, allowance, stored) is Some ==> sender_balance < amount
            || allowance < amount || stored is None,
        withdraw_refusal(amount, contract_balance, stored) is Some ==> contract_balance < amount || stored is None,
        stored matches Some(u) ==> (u.balance >= amount ==> debited(u, amount, now).balance + amount
            == u.balance),
        stored matches Some(u) ==> (u.balance + amount <= u128::MAX ==> credited(u, amount, now).balance
            == u.balance + amount),
{
}

/// The market's counter accepts every increment that keeps it within
/// `MAX_COUNT`, so it can always be brought exactly to the limit, and
/// refuses only increments that would pass it.
pub proof fn lemma_counter_reaches_limit(s: StateView, incr: u32)
    requires
        s.count <= MAX_COUNT,
    ensures
        increment_refusal(Some(s), (MAX_COUNT - s.count) as u32) is None,
        incremented(s, (MAX_COUNT - s.count) as u32).count == MAX_COUNT,
        increment_refusal(Some(s), incr) is Some ==> s.count + incr > MAX_COUNT,
        increment_refusal(Some(s), incr) is None ==> incremented(s, incr).count == s.count + incr,
{
}

/// The commission is the rate's thousandths of the pool, rounded up: the
/// smallest whole amount whose thousandfold reaches pool times rate.
pub proof fn lemma_commission_rounds_up(pool: nat, rate: nat)
    ensures
        commission_fee(pool, rate) * 1000 >= pool * rate,
        commission_fee(pool, rate) * 1000 < pool * rate + 1000,
{
    let n = pool * rate;
    let f = commission_fee(pool, rate);
    assert(f * 1000 >= n && f * 1000 < n + 1000) by (nonlinear_arith)
        requires
            f == (n + 999) / 1000,
            n >= 0,
    ;
}

/// A payout is the winner's share of the profit, rounded down: the largest
/// whole amount whose multiple by the winning stake stays within profit
/// times the winner's stake.
pub proof fn lemma_payout_rounds_down(users_profit: nat, user_win: nat, total_wins: nat)
    requires
        total_wins > 0,
    ensures
        payout(users_profit, user_win, total_wins) * total_wins <= users_profit * user_win,
        users_profit * user_win < (payout(users_profit, user_win, total_wins) + 1) * total_wins,
{
    let n = users_profit * user_win;
    let p = payout(users_profit, user_win, total_wins);
    assert(p * total_wins <= n && n < (p + 1) * total_wins) by (nonlinear_arith)
        requires
            p == n / total_wins,
            total_wins > 0,
            n >= 0,
    ;
}

/// Marks select stakes: an outcome with no winning mark selects nothing, and
/// one that marks every position of the stakes selects their whole total.
pub proof fn lemma_winning_stake_selects(outcome: Seq<u32>, stakes: Seq<u128>)
    ensures
        (forall|i: int| 0 <= i < outcome.len() ==> outcome[i] == 0) ==> winning_stake(outcome, stakes) == 0,
        outcome.len() == stakes.len() && (forall|i: int| 0 <= i < outcome.len() ==> outcome[i] > 0)
            ==> winning_stake(outcome, stakes) == total(stakes),
    decreases outcome.len(),
{
    if outcome.len() > 0 {
        let o = outcome.drop_last();
        lemma_winning_stake_selects(o, stakes);
        if outcome.len() == stakes.len() && (forall|i: int| 0 <= i < outcome.len() ==> outcome[i] > 0) {
            lemma_winning_stake_prefix_total(o, stakes);
            assert(outcome[outcome.len() - 1] > 0);
        }
        if forall|i: int| 0 <= i < outcome.len() ==> outcome[i] == 0 {
            assert forall|i: int| 0 <= i < o.len() implies o[i] == 0 by {
                assert(o[i] == outcome[i]);
            }
            assert(outcome[outcome.len() - 1] == 0);
        }
    }
}

proof fn lemma_winning_stake_prefix_total(o: Seq<u32>, stakes: Seq<u128>)
    requires
        o.len() < stakes.len(),
        forall|i: int| 0 <= i < o.len() ==> o[i] > 0,
    ensures
        winning_stake(o, stakes) == total(stakes.take(o.len() as int)),
    decreases o.len(),
{
    if o.len() > 0 {
        let p = o.drop_last();
        assert forall|i: int| 0 <= i < p.len() implies p[i] > 0 by {
            assert(p[i] == o[i]);
        }
        lemma_winning_stake_prefix_total(p, stakes);
        assert(stakes.take(o.len() as int).drop_last() =~= stakes.take(p.len() as int));
        assert(o[o.len() - 1] > 0);
    } else {
        assert(stakes.take(0) =~= Seq::<u128>::empty());
    }
}

/// Bets and claims in a missing or inactive market are refused before
/// anything else, whatever the other inputs; in an active market that check
/// passes.
pub proof fn lemma_market_checked_first(
    state: Option<StateView>,
    user_balance: i128,
    allowance: i128,
    game: Option<GameView>,
    bet: Option<BetView>,
    now: u64,
    value: u128,
    bet_index: u32,
)
    ensures
        state is None ==> bet_refusal(state, user_balance, allowance, game, bet, now, value, bet_index)
            == Some(Error::StateNotInitialized),
        state is None ==> claim_refusal(state, user_balance, allowance, game, bet, now) == Some(
            Error::StateNotInitialized,
        ),
        state matches Some(s) && s.status != Status::Active ==> bet_refusal(
            state,
            user_balance,
            allowance,
            game,
            bet,
            now,
            value,
            bet_index,
        ) == Some(Error::StateStatusInvalid),
        state matches Some(s) && s.status != Status::Active ==> claim_refusal(
            state,
            user_balance,
            allowance,
            game,
            bet,
            now,
        ) == Some(Error::StateStatusInvalid),
        state matches Some(s) && s.status == Status::Active ==> market_refusal(state) is None,
{
}

/// Settlement of an open game by its admin after its end goes through
/// exactly when the market record exists and the market holds the fee.
pub proof fn lemma_settle_needs_only_record_and_fee(
    g: GameView,
    now: u64,
    state: Option<StateView>,
    contract_balance: i128,
)
    requires
        g.status == Status::Active || g.status == Status::Paused,
        g.time_end <= now,
    ensures
        settle_refusal(Some(g), g.game_admin, now, state, contract_balance) is None <==> state is Some
            && contract_balance >= commission_fee(total(g.values), g.commission_rate as nat),
        state is None ==> settle_refusal(Some(g), g.game_admin, now, state, contract_balance) == Some(
            Error::StateNotInitialized,
        ),
{
}

} // verus!
