//! Properties of the prediction market that span several entry points.
use vstd::prelude::*;
use super::games::{
    bet_after_bet, bet_refusal, claim_amount, zero_counts, zero_stakes, claim_refusal, game_after_bet, game_after_set, game_after_settle,
    set_game_refusal, settle_game_refusal, settle_refusal,
};
use super::market::{
    admin_reset, credited, debited, increment_refusal, incremented, initial_state, withdraw_aborts,
    withdraw_refusal,
};
use super::payout::{commission_fee, total, winners_in_range, winning_stake};
use super::types::{BetView, Error, GameView, StateView, Status, UserView, MAX_COUNT};

verus! {

/// The total stake that `bets` put on outcome `i`.
pub open spec fn column(bets: Seq<BetView>, i: int) -> nat
    decreases bets.len(),
{
    if bets.len() == 0 {
        0
    } else {
        column(bets.drop_last(), i) + if 0 <= i < bets.last().bet_values.len() {
            bets.last().bet_values[i] as nat
        } else {
            0
        }
    }
}

/// A game's per-outcome stakes are exactly the sums of the stakes of `bets`.
pub open spec fn stakes_tracked(values: Seq<u128>, bets: Seq<BetView>) -> bool {
    forall|i: int| 0 <= i < values.len() ==> values[i] == #[trigger] column(bets, i)
}

/// What `bets` are paid in all when each is claimed on the settled game `g`.
pub open spec fn payouts(g: GameView, bets: Seq<BetView>) -> nat
    decreases bets.len(),
{
    if bets.len() == 0 {
        0
    } else {
        payouts(g, bets.drop_last()) + claim_amount(g, bets.last())
    }
}

/// The sum over `bets` of each one's stake on the outcomes `outcome` marks.
pub open spec fn winning_stakes(outcome: Seq<u32>, bets: Seq<BetView>) -> nat
    decreases bets.len(),
{
    if bets.len() == 0 {
        0
    } else {
        winning_stakes(outcome, bets.drop_last()) + winning_stake(outcome, bets.last().bet_values)
    }
}

proof fn lemma_winning_stakes_empty(outcome: Seq<u32>, bets: Seq<BetView>)
    requires
        outcome.len() == 0,
    ensures
        winning_stakes(outcome, bets) == 0,
    decreases bets.len(),
{
    if bets.len() > 0 {
        lemma_winning_stakes_empty(outcome, bets.drop_last());
    }
}

proof fn lemma_winning_stakes_step(outcome: Seq<u32>, bets: Seq<BetView>)
    requires
        outcome.len() > 0,
        outcome.last() > 0 ==> forall|u: int|
            0 <= u < bets.len() ==> outcome.len() - 1 < #[trigger] bets[u].bet_values.len(),
    ensures
        winning_stakes(outcome, bets) == winning_stakes(outcome.drop_last(), bets) + if outcome.last() > 0 {
            column(bets, outcome.len() - 1)
        } else {
            0
        },
    decreases bets.len(),
{
    if bets.len() > 0 {
        let rest = bets.drop_last();
        assert forall|u: int| 0 <= u < rest.len() implies #[trigger] rest[u] == bets[u] by {}
        lemma_winning_stakes_step(outcome, rest);
    }
}

proof fn lemma_winning_stake_split(outcome: Seq<u32>, values: Seq<u128>, bets: Seq<BetView>)
    requires
        stakes_tracked(values, bets),
        winners_in_range(outcome, values.len()),
        forall|u: int| 0 <= u < bets.len() ==> winners_in_range(outcome, #[trigger] bets[u].bet_values.len()),
    ensures
        winning_stake(outcome, values) == winning_stakes(outcome, bets),
    decreases outcome.len(),
{
    if outcome.len() == 0 {
        lemma_winning_stakes_empty(outcome, bets);
    } else {
        let n = outcome.len() - 1;
        let rest = outcome.drop_last();
        assert forall|u: int| 0 <= u < bets.len() implies winners_in_range(rest, #[trigger] bets[u].bet_values.len()) by {
            assert forall|i: int| 0 <= i < rest.len() && rest[i] > 0 implies i < bets[u].bet_values.len() by {
                assert(outcome[i] == rest[i]);
            }
        }
        assert(winners_in_range(rest, values.len())) by {
            assert forall|i: int| 0 <= i < rest.len() && rest[i] > 0 implies i < values.len() by {
                assert(outcome[i] == rest[i]);
            }
        }
        lemma_winning_stake_split(rest, values, bets);
        if outcome.last() > 0 {
            assert(outcome[n] > 0);
            assert forall|u: int| 0 <= u < bets.len() implies n < #[trigger] bets[u].bet_values.len() by {
                assert(winners_in_range(outcome, bets[u].bet_values.len()));
            }
            assert(values[n] == column(bets, n));
        }
        lemma_winning_stakes_step(outcome, bets);
    }
}

proof fn lemma_floor_times(x: nat, t: nat)
    requires
        t > 0,
    ensures
        (x / t) * t <= x,
{
    assert((x / t) * t <= x) by (nonlinear_arith)
        requires
            t > 0,
    ;
}

proof fn lemma_payouts_scaled(g: GameView, bets: Seq<BetView>)
    requires
        g.total_wins > 0,
    ensures
        payouts(g, bets) * g.total_wins <= g.users_profit * winning_stakes(g.outcome, bets),
    decreases bets.len(),
{
    if bets.len() > 0 {
        let rest = bets.drop_last();
        let p = g.users_profit as nat;
        let t = g.total_wins as nat;
        let w = winning_stake(g.outcome, bets.last().bet_values);
        let a = payouts(g, rest);
        let s = winning_stakes(g.outcome, rest);
        lemma_payouts_scaled(g, rest);
        lemma_floor_times(p * w, t);
        assert(payouts(g, bets) == a + (p * w) / t);
        assert(winning_stakes(g.outcome, bets) == s + w);
        assert((a + (p * w) / t) * t <= p * (s + w)) by (nonlinear_arith)
            requires
                a * t <= p * s,
                ((p * w) / t) * t <= p * w,
        ;
        assert(payouts(g, bets) * g.total_wins == (a + (p * w) / t) * t);
        assert(g.users_profit * winning_stakes(g.outcome, bets) == p * (s + w));
    } else {
        assert(payouts(g, bets) == 0 && winning_stakes(g.outcome, bets) == 0);
        assert(0 * g.total_wins <= g.users_profit * 0) by (nonlinear_arith);
    }
}

/// Solvency of a round: when a settled game's stakes are exactly those of
/// `bets` and its winning stake is what settlement records, paying every one
/// of `bets` its claim costs no more than the profit left to users.
pub proof fn lemma_payouts_within_profit(g: GameView, bets: Seq<BetView>)
    requires
        stakes_tracked(g.values, bets),
        winners_in_range(g.outcome, g.values.len()),
        forall|u: int| 0 <= u < bets.len() ==> winners_in_range(g.outcome, #[trigger] bets[u].bet_values.len()),
        g.total_wins == winning_stake(g.outcome, g.values),
        g.total_wins > 0,
    ensures
        payouts(g, bets) <= g.users_profit,
{
    lemma_winning_stake_split(g.outcome, g.values, bets);
    lemma_payouts_scaled(g, bets);
    let p = g.users_profit as nat;
    let t = g.total_wins as nat;
    let a = payouts(g, bets);
    assert(a <= p) by (nonlinear_arith)
        requires
            a * t <= p * t,
            t > 0,
    ;
}

/// Solvency of settlement: when a game's stakes are exactly those of `bets`
/// and it is settled with winning marks on which some stake lies, the fee
/// to the vault plus every payout to `bets` stays within the pool the bets
/// paid in.
pub proof fn lemma_settled_round_is_solvent(g: GameView, outcome: Seq<u32>, bets: Seq<BetView>)
    requires
        stakes_tracked(g.values, bets),
        total(g.values) <= u128::MAX,
        commission_fee(total(g.values), g.commission_rate as nat) <= total(g.values),
        winners_in_range(outcome, g.values.len()),
        winning_stake(outcome, g.values) <= u128::MAX,
        winning_stake(outcome, g.values) > 0,
        forall|u: int| 0 <= u < bets.len() ==> winners_in_range(outcome, #[trigger] bets[u].bet_values.len()),
    ensures
        commission_fee(total(g.values), g.commission_rate as nat) + payouts(game_after_settle(g, outcome), bets)
            <= total(g.values),
{
    let s = game_after_settle(g, outcome);
    lemma_settle_splits_pool(g, outcome);
    lemma_payouts_within_profit(s, bets);
}

proof fn lemma_column_push(bets: Seq<BetView>, b: BetView, i: int)
    ensures
        column(bets.push(b), i) == column(bets, i) + if 0 <= i < b.bet_values.len() {
            b.bet_values[i] as nat
        } else {
            0
        },
{
    assert(bets.push(b).drop_last() =~= bets);
}

proof fn lemma_column_update(bets: Seq<BetView>, u: int, b: BetView, i: int)
    requires
        0 <= u < bets.len(),
        0 <= i < bets[u].bet_values.len(),
        0 <= i < b.bet_values.len(),
    ensures
        column(bets.update(u, b), i) + bets[u].bet_values[i] == column(bets, i) + b.bet_values[i],
    decreases bets.len(),
{
    let n = bets.len() - 1;
    if u == n {
        assert(bets.update(u, b).drop_last() =~= bets.drop_last());
    } else {
        assert(bets.update(u, b).drop_last() =~= bets.drop_last().update(u, b));
        lemma_column_update(bets.drop_last(), u, b, i);
    }
}

proof fn lemma_column_update_other(bets: Seq<BetView>, u: int, b: BetView, i: int)
    requires
        0 <= u < bets.len(),
        b.bet_values.len() == bets[u].bet_values.len(),
        forall|j: int| 0 <= j < b.bet_values.len() && j != i ==> b.bet_values[j] == bets[u].bet_values[j],
    ensures
        forall|j: int| j != i ==> column(bets.update(u, b), j) == #[trigger] column(bets, j),
    decreases bets.len(),
{
    let n = bets.len() - 1;
    let upd = bets.update(u, b);
    if u == n {
        assert(upd.drop_last() =~= bets.drop_last());
        assert forall|j: int| j != i implies column(upd, j) == #[trigger] column(bets, j) by {
            assert(upd.last() == b);
            assert(bets.last() == bets[u]);
            if 0 <= j < b.bet_values.len() {
                assert(b.bet_values[j] == bets[u].bet_values[j]);
            }
        }
    } else {
        assert(upd.drop_last() =~= bets.drop_last().update(u, b));
        lemma_column_update_other(bets.drop_last(), u, b, i);
        assert forall|j: int| j != i implies column(upd, j) == #[trigger] column(bets, j) by {
            assert(upd.last() == bets.last());
            assert(column(bets.drop_last().update(u, b), j) == column(bets.drop_last(), j));
        }
    }
}

/// A bet keeps a game's stakes equal to the sums of its bettors' stakes: a
/// returning bettor's record is replaced by its new record, and a first bet
/// adds a record.
pub proof fn lemma_bet_keeps_stakes_tracked(
    g: GameView,
    bets: Seq<BetView>,
    bettor: Option<int>,
    i: int,
    value: u128,
)
    requires
        stakes_tracked(g.values, bets),
        0 <= i < g.values.len(),
        i < g.numbers.len(),
        g.values[i] + value <= u128::MAX,
        bettor matches Some(u) ==> 0 <= u < bets.len() && i < bets[u].bet_values.len()
            && bets[u].bet_values[i] + value <= u128::MAX,
        bettor is None ==> i < 4,
    ensures
        ({
            let record = bet_after_bet(
                match bettor {
                    Some(u) => Some(bets[u]),
                    None => None,
                },
                i,
                value,
            );
            let after = match bettor {
                Some(u) => bets.update(u, record),
                None => bets.push(record),
            };
            stakes_tracked(game_after_bet(g, i, value).values, after)
        }),
{
    let g2 = game_after_bet(g, i, value);
    match bettor {
        Some(u) => {
            let record = bet_after_bet(Some(bets[u]), i, value);
            lemma_column_update(bets, u, record, i);
            lemma_column_update_other(bets, u, record, i);
            assert forall|j: int| 0 <= j < g2.values.len() implies g2.values[j] == #[trigger] column(
                bets.update(u, record),
                j,
            ) by {
                assert(g.values[j] == column(bets, j));
            }
        },
        None => {
            let record = bet_after_bet(None, i, value);
            assert forall|j: int| 0 <= j < g2.values.len() implies g2.values[j] == #[trigger] column(
                bets.push(record),
                j,
            ) by {
                lemma_column_push(bets, record, j);
                assert(g.values[j] == column(bets, j));
            }
        },
    }
}

/// A round that `set_game` opens starts with no stake: its stakes are those
/// of no bets at all.
pub proof fn lemma_new_round_untracked(
    prev: Option<GameView>,
    game_admin: Seq<char>,
    time_start: u64,
    time_end: u64,
    commission_rate: u128,
)
    ensures
        stakes_tracked(
            game_after_set(prev, game_admin, time_start, time_end, commission_rate).values,
            Seq::<BetView>::empty(),
        ),
{
}

/// Settlement splits the pool: the commission and the profit left to users
/// add up to the pool, and the recorded winning stake is that of the marks.
pub proof fn lemma_settle_splits_pool(g: GameView, outcome: Seq<u32>)
    requires
        total(g.values) <= u128::MAX,
        commission_fee(total(g.values), g.commission_rate as nat) <= total(g.values),
        winning_stake(outcome, g.values) <= u128::MAX,
    ensures
        game_after_settle(g, outcome).users_profit + commission_fee(total(g.values), g.commission_rate as nat)
            == total(g.values),
        game_after_settle(g, outcome).total_wins == winning_stake(outcome, g.values),
        game_after_settle(g, outcome).values == g.values,
        game_after_settle(g, outcome).status == Status::Settled,
        game_after_settle(g, outcome).outcome == outcome,
        game_after_settle(g, outcome).time_start == g.time_start,
        game_after_settle(g, outcome).time_end == g.time_end,
        game_after_settle(g, outcome).game_admin == g.game_admin,
        game_after_settle(g, outcome).commission_rate == g.commission_rate,
{
}

/// A settled game cannot be settled again, by anyone, at any time.
pub proof fn lemma_settle_only_once(
    g: GameView,
    outcome: Seq<u32>,
    admin: Seq<char>,
    now: u64,
    state: Option<StateView>,
    contract_balance: i128,
)
    ensures
        settle_refusal(Some(game_after_settle(g, outcome)), admin, now, state, contract_balance) is Some,
{
    assert(settle_game_refusal(Some(game_after_settle(g, outcome)), admin, now) is Some);
}

/// A bet is paid at most once: once a claim succeeds, every later claim on
/// the record it stores is refused, and with the same market record,
/// holdings and time the refusal is `BetClaimedAlready`.
pub proof fn lemma_claim_only_once(
    state: Option<StateView>,
    user_balance: i128,
    allowance: i128,
    g: GameView,
    b: BetView,
    now: u64,
    later_state: Option<StateView>,
    later_balance: i128,
    later_allowance: i128,
    later_game: Option<GameView>,
    later_now: u64,
)
    requires
        claim_refusal(state, user_balance, allowance, Some(g), Some(b), now) is None,
    ensures
        claim_refusal(state, user_balance, allowance, Some(g), Some(BetView { claimed: true, ..b }), now)
            == Some(Error::BetClaimedAlready),
        claim_refusal(
            later_state,
            later_balance,
            later_allowance,
            later_game,
            Some(BetView { claimed: true, ..b }),
            later_now,
        ) is Some,
{
}

/// A game that is open for bets cannot be reopened: `set_game` on an
/// existing game is refused unless that game is settled.
pub proof fn lemma_reopen_needs_settlement(
    p: GameView,
    game_admin: Seq<char>,
    now: u64,
    time_start: u64,
    time_end: u64,
)
    requires
        p.status != Status::Settled,
    ensures
        set_game_refusal(Some(p), game_admin, now, time_start, time_end) is Some,
{
}

/// Withdrawing what was just deposited restores the user's balance.
pub proof fn lemma_withdraw_undoes_deposit(u: UserView, amount: u128, deposited_at: u64, withdrawn_at: u64)
    requires
        u.balance + amount <= u128::MAX,
    ensures
        credited(u, amount, deposited_at).balance >= amount,
        forall|market_balance: i128|
            market_balance >= amount && amount <= i128::MAX ==> {
                &&& withdraw_refusal(amount, market_balance, Some(credited(u, amount, deposited_at))) is None
                &&& !withdraw_aborts(amount, market_balance, Some(credited(u, amount, deposited_at)))
            },
        debited(credited(u, amount, deposited_at), amount, withdrawn_at) == (UserView {
            updated_at: withdrawn_at,
            ..u
        }),
{
}

/// One accepted bet of a round: the bettor (numbered from zero), the
/// outcome it is on, and its amount.
pub struct PlacedBet {
    pub bettor: int,
    pub index: int,
    pub value: u128,
}

/// The game after the accepted bets `placed`, in order.
pub open spec fn game_after_bets(g: GameView, placed: Seq<PlacedBet>) -> GameView
    decreases placed.len(),
{
    if placed.len() == 0 {
        g
    } else {
        game_after_bet(game_after_bets(g, placed.drop_last()), placed.last().index, placed.last().value)
    }
}

/// The bettors' records after the accepted bets `placed`: each of the `n`
/// bettors starts from zero stakes, unclaimed (no record stored yet, as in a
/// game's first round), and each bet updates its bettor's record as `bet`
/// does.
pub open spec fn records_after(n: nat, placed: Seq<PlacedBet>) -> Seq<BetView>
    decreases placed.len(),
{
    if placed.len() == 0 {
        Seq::new(n, |u: int| BetView { bet_values: zero_stakes(), claimed: false })
    } else {
        let p = placed.last();
        let r = records_after(n, placed.drop_last());
        r.update(p.bettor, bet_after_bet(Some(r[p.bettor]), p.index, p.value))
    }
}

/// The total stake of `placed` on outcome `i`.
pub open spec fn stake_on(placed: Seq<PlacedBet>, i: int) -> nat
    decreases placed.len(),
{
    if placed.len() == 0 {
        0
    } else {
        stake_on(placed.drop_last(), i) + if placed.last().index == i {
            placed.last().value as nat
        } else {
            0
        }
    }
}

/// The number of bets in `placed` on outcome `i`.
pub open spec fn count_on(placed: Seq<PlacedBet>, i: int) -> nat
    decreases placed.len(),
{
    if placed.len() == 0 {
        0
    } else {
        count_on(placed.drop_last(), i) + if placed.last().index == i {
            1nat
        } else {
            0
        }
    }
}

/// Every bet of `placed` is by one of `n` bettors on one of the four
/// outcomes.
pub open spec fn placed_well(placed: Seq<PlacedBet>, n: nat) -> bool {
    forall|k: int| 0 <= k < placed.len() ==> 0 <= #[trigger] placed[k].bettor < n && 0 <= placed[k].index < 4
}

/// The stakes and counts of `placed` on each outcome stay within the ranges
/// of the game's records, so no bet of the round aborts.
pub open spec fn round_fits(placed: Seq<PlacedBet>) -> bool {
    forall|i: int| 0 <= i < 4 ==> #[trigger] stake_on(placed, i) <= u128::MAX && count_on(placed, i) <= u32::MAX
}

/// A first bet starts from the same record as a bettor with zero stakes.
pub proof fn lemma_first_bet_starts_from_zero(i: int, value: u128)
    requires
        0 <= i < 4,
    ensures
        bet_after_bet(None, i, value) == bet_after_bet(Some(BetView { bet_values: zero_stakes(), claimed: false }), i, value),
{
    assert(zero_stakes()[i] == 0);
    assert(zero_stakes().update(i, value) =~= zero_stakes().update(i, (zero_stakes()[i] + value) as u128));
}

proof fn lemma_placed_prefix(placed: Seq<PlacedBet>, n: nat)
    requires
        placed.len() > 0,
        placed_well(placed, n),
        round_fits(placed),
    ensures
        placed_well(placed.drop_last(), n),
        round_fits(placed.drop_last()),
        0 <= placed.last().bettor < n,
        0 <= placed.last().index < 4,
{
    let rest = placed.drop_last();
    assert forall|k: int| 0 <= k < rest.len() implies 0 <= #[trigger] rest[k].bettor < n && 0 <= rest[k].index < 4 by {
        assert(rest[k] == placed[k]);
    }
    assert forall|i: int| 0 <= i < 4 implies #[trigger] stake_on(rest, i) <= u128::MAX && count_on(rest, i) <= u32::MAX by {
        assert(stake_on(placed, i) <= u128::MAX);
    }
    assert(placed.last() == placed[placed.len() - 1]);
}

/// The tallies of a round: after `set_game` opens it and any sequence of
/// accepted bets, each outcome's stake is the sum of the amounts bet on it,
/// its count is the number of bets on it, and all the game's vectors keep
/// four entries.
pub proof fn lemma_round_tallies(
    prev: Option<GameView>,
    game_admin: Seq<char>,
    time_start: u64,
    time_end: u64,
    commission_rate: u128,
    placed: Seq<PlacedBet>,
    n: nat,
)
    requires
        placed_well(placed, n),
        round_fits(placed),
    ensures
        ({
            let g = game_after_bets(game_after_set(prev, game_admin, time_start, time_end, commission_rate), placed);
            &&& g.values.len() == 4
            &&& g.numbers.len() == 4
            &&& g.outcome.len() == 4
            &&& forall|i: int| 0 <= i < 4 ==> g.values[i] == stake_on(placed, i) && g.numbers[i] == count_on(placed, i)
        }),
    decreases placed.len(),
{
    let g0 = game_after_set(prev, game_admin, time_start, time_end, commission_rate);
    if placed.len() > 0 {
        lemma_placed_prefix(placed, n);
        let rest = placed.drop_last();
        lemma_round_tallies(prev, game_admin, time_start, time_end, commission_rate, rest, n);
        let g = game_after_bets(g0, rest);
        let p = placed.last();
        assert forall|i: int| 0 <= i < 4 implies game_after_bet(g, p.index, p.value).values[i] == stake_on(placed, i)
            && game_after_bet(g, p.index, p.value).numbers[i] == count_on(placed, i) by {
            assert(stake_on(placed, i) <= u128::MAX && count_on(placed, i) <= u32::MAX);
            assert(g.values[i] == stake_on(rest, i) && g.numbers[i] == count_on(rest, i));
            assert(stake_on(placed, i) == stake_on(rest, i) + if p.index == i { p.value as nat } else { 0 });
            assert(count_on(placed, i) == count_on(rest, i) + if p.index == i { 1nat } else { 0 });
        }
    }
}

/// Every bettor's record in a round keeps four unclaimed stakes.
pub proof fn lemma_round_records(placed: Seq<PlacedBet>, n: nat)
    requires
        placed_well(placed, n),
        round_fits(placed),
    ensures
        records_after(n, placed).len() == n,
        forall|u: int| 0 <= u < n ==> (#[trigger] records_after(n, placed)[u]).bet_values.len() == 4
            && !records_after(n, placed)[u].claimed,
    decreases placed.len(),
{
    if placed.len() > 0 {
        lemma_placed_prefix(placed, n);
        lemma_round_records(placed.drop_last(), n);
    }
}

/// With the vectors a round keeps, a bet on one of the four outcomes is
/// never refused for a missing stake or count.
pub proof fn lemma_round_bets_find_their_entries(
    state: Option<StateView>,
    user_balance: i128,
    allowance: i128,
    g: GameView,
    b: Option<BetView>,
    now: u64,
    value: u128,
    bet_index: u32,
)
    requires
        g.values.len() == 4,
        g.numbers.len() == 4,
        b matches Some(r) ==> r.bet_values.len() == 4,
        bet_index <= 3,
    ensures
        bet_refusal(state, user_balance, allowance, Some(g), b, now, value, bet_index) != Some(Error::GameValueInvalid),
        bet_refusal(state, user_balance, allowance, Some(g), b, now, value, bet_index) != Some(Error::GameNumberInvalid),
        bet_refusal(state, user_balance, allowance, Some(g), b, now, value, bet_index) != Some(Error::BetValueInvalid),
        bet_refusal(state, user_balance, allowance, Some(g), b, now, value, bet_index) != Some(Error::BetIndexInvalid),
{
}

proof fn lemma_stake_le_column(bets: Seq<BetView>, u: int, i: int)
    requires
        0 <= u < bets.len(),
        0 <= i < bets[u].bet_values.len(),
    ensures
        bets[u].bet_values[i] <= column(bets, i),
    decreases bets.len(),
{
    if u < bets.len() - 1 {
        assert(bets.drop_last()[u] == bets[u]);
        lemma_stake_le_column(bets.drop_last(), u, i);
    }
}

proof fn lemma_zero_records_column(n: nat, i: int)
    ensures
        column(Seq::new(n, |u: int| BetView { bet_values: zero_stakes(), claimed: false }), i) == 0,
    decreases n,
{
    let s = Seq::new(n, |u: int| BetView { bet_values: zero_stakes(), claimed: false });
    if n > 0 {
        assert(s.drop_last() =~= Seq::new((n - 1) as nat, |u: int| BetView { bet_values: zero_stakes(), claimed: false }));
        lemma_zero_records_column((n - 1) as nat, i);
    }
}

/// In every round the game's stakes are exactly the sums of its bettors'
/// records.
pub proof fn lemma_round_stakes_tracked(
    prev: Option<GameView>,
    game_admin: Seq<char>,
    time_start: u64,
    time_end: u64,
    commission_rate: u128,
    placed: Seq<PlacedBet>,
    n: nat,
)
    requires
        placed_well(placed, n),
        round_fits(placed),
    ensures
        stakes_tracked(
            game_after_bets(game_after_set(prev, game_admin, time_start, time_end, commission_rate), placed).values,
            records_after(n, placed),
        ),
    decreases placed.len(),
{
    let g0 = game_after_set(prev, game_admin, time_start, time_end, commission_rate);
    if placed.len() == 0 {
        assert forall|i: int| 0 <= i < g0.values.len() implies g0.values[i] == #[trigger] column(records_after(n, placed), i) by {
            lemma_zero_records_column(n, i);
        }
    } else {
        lemma_placed_prefix(placed, n);
        let rest = placed.drop_last();
        let p = placed.last();
        lemma_round_stakes_tracked(prev, game_admin, time_start, time_end, commission_rate, rest, n);
        lemma_round_tallies(prev, game_admin, time_start, time_end, commission_rate, rest, n);
        lemma_round_records(rest, n);
        let g = game_after_bets(g0, rest);
        let bets = records_after(n, rest);
        assert(stake_on(placed, p.index) <= u128::MAX);
        assert(g.values[p.index] == stake_on(rest, p.index));
        assert(stake_on(placed, p.index) == stake_on(rest, p.index) + p.value);
        assert(g.values[p.index] == column(bets, p.index));
        lemma_stake_le_column(bets, p.bettor, p.index);
        lemma_bet_keeps_stakes_tracked(g, bets, Some(p.bettor), p.index, p.value);
    }
}

/// Solvency of a whole round: after `set_game` opens it, any sequence of
/// accepted bets by `n` bettors, and a settlement that does not abort and
/// finds stake on the winning marks, the fee to the vault plus every
/// bettor's payout stays within the pool the bets paid in.
///
/// The bettors' records here are those the round's bets build from zero
/// stakes, as in a game's first round. When `set_game` reopens a settled
/// game, bet records of earlier rounds stay stored and new bets add to them;
/// those records are not covered.
pub proof fn lemma_fresh_round_is_solvent(
    prev: Option<GameView>,
    game_admin: Seq<char>,
    time_start: u64,
    time_end: u64,
    commission_rate: u128,
    placed: Seq<PlacedBet>,
    n: nat,
    outcome: Seq<u32>,
)
    requires
        placed_well(placed, n),
        round_fits(placed),
        ({
            let g = game_after_bets(game_after_set(prev, game_admin, time_start, time_end, commission_rate), placed);
            &&& total(g.values) <= u128::MAX
            &&& commission_fee(total(g.values), g.commission_rate as nat) <= total(g.values)
            &&& winners_in_range(outcome, g.values.len())
            &&& winning_stake(outcome, g.values) <= u128::MAX
            &&& winning_stake(outcome, g.values) > 0
        }),
    ensures
        ({
            let g = game_after_bets(game_after_set(prev, game_admin, time_start, time_end, commission_rate), placed);
            commission_fee(total(g.values), g.commission_rate as nat) + payouts(
                game_after_settle(g, outcome),
                records_after(n, placed),
            ) <= total(g.values)
        }),
{
    let g = game_after_bets(game_after_set(prev, game_admin, time_start, time_end, commission_rate), placed);
    let bets = records_after(n, placed);
    lemma_round_stakes_tracked(prev, game_admin, time_start, time_end, commission_rate, placed, n);
    lemma_round_tallies(prev, game_admin, time_start, time_end, commission_rate, placed, n);
    lemma_round_records(placed, n);
    assert forall|u: int| 0 <= u < bets.len() implies winners_in_range(outcome, #[trigger] bets[u].bet_values.len()) by {
        assert(bets[u].bet_values.len() == 4);
    }
    lemma_settled_round_is_solvent(g, outcome, bets);
}

/// A call that changes the market record: an `increment` by an amount, or a
/// `reset_admin` to a new admin. No other entry point writes the record.
pub enum MarketCall {
    Increment(u32),
    ResetAdmin(Seq<char>),
}

/// The stored market record after `calls`, in order, from `s`. A refused or
/// aborted call leaves the record as it was.
pub open spec fn state_after_calls(s: StateView, calls: Seq<MarketCall>) -> StateView
    decreases calls.len(),
{
    if calls.len() == 0 {
        s
    } else {
        let before = state_after_calls(s, calls.drop_last());
        match calls.last() {
            MarketCall::Increment(incr) => if increment_refusal(Some(before), incr) is None {
                incremented(before, incr)
            } else {
                before
            },
            MarketCall::ResetAdmin(a) => admin_reset(before, a),
        }
    }
}

/// The counter bound: from the record the constructor stores, through any
/// sequence of calls that change the market record, the counter never
/// exceeds `MAX_COUNT`.
pub proof fn lemma_counter_stays_bounded(
    admin: Seq<char>,
    token: Seq<char>,
    market_name: Seq<char>,
    calls: Seq<MarketCall>,
)
    ensures
        state_after_calls(initial_state(admin, token, market_name), calls).count <= MAX_COUNT,
    decreases calls.len(),
{
    if calls.len() > 0 {
        lemma_counter_stays_bounded(admin, token, market_name, calls.drop_last());
    }
}

} // verus!
