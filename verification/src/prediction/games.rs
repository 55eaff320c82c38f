//! Games of the prediction market: opening a round, betting, settling and
//! paying out winners.
use vstd::prelude::*;
use super::market::Prediction;
use super::payout::{
    checked_total, checked_winning_stake, commission_fee, payout, thousandths_rounded_up, total,
    winners_in_range, winning_stake,
};
use super::types::{opt_view, Bet, BetView, Error, Game, GameView, State, StateView, Status};

verus! {

/// The balance, and the allowance to the market, that a claimant must hold.
pub const CLAIM_MIN_HOLDING: i128 = 100;

/// Four zero stakes, one per outcome.
pub open spec fn zero_stakes() -> Seq<u128> {
    seq![0u128, 0u128, 0u128, 0u128]
}

/// Four zero counts, one per outcome.
pub open spec fn zero_counts() -> Seq<u32> {
    seq![0u32, 0u32, 0u32, 0u32]
}

/// The refusal of `set_game`, if any. A new game must not have ended yet; an
/// existing game may only be reopened by its admin, after its end, once it is
/// settled.
pub open spec fn set_game_refusal(
    prev: Option<GameView>,
    game_admin: Seq<char>,
    now: u64,
    time_start: u64,
    time_end: u64,
) -> Option<Error> {
    if time_end <= time_start {
        Some(Error::EndTimeTooSmall)
    } else {
        match prev {
            Some(p) => if p.game_admin != game_admin {
                Some(Error::GameAdminUnauthorized)
            } else if now < p.time_end {
                Some(Error::BeforeEndTime)
            } else if p.status != Status::Settled {
                Some(Error::GameStatusInvalid)
            } else {
                None
            },
            None => if now > time_end {
                Some(Error::AfterEndTime)
            } else {
                None
            },
        }
    }
}

/// The game that `set_game` stores. A reopened game keeps its admin,
/// commission rate, profit and winning stake, and starts a new round with
/// zero stakes, counts and marks.
pub open spec fn game_after_set(
    prev: Option<GameView>,
    game_admin: Seq<char>,
    time_start: u64,
    time_end: u64,
    commission_rate: u128,
) -> GameView {
    match prev {
        Some(p) => GameView {
            time_start,
            time_end,
            status: Status::Active,
            values: zero_stakes(),
            numbers: zero_counts(),
            outcome: zero_counts(),
            ..p
        },
        None => GameView {
            game_admin,
            time_start,
            time_end,
            commission_rate,
            users_profit: 0,
            total_wins: 0,
            status: Status::Active,
            values: zero_stakes(),
            numbers: zero_counts(),
            outcome: zero_counts(),
        },
    }
}

/// The arguments of a bet that the contract accepts at all: a positive amount
/// that fits the token interface, on one of the four outcomes.
pub open spec fn bet_arguments_valid(value: u128, bet_index: u32) -> bool {
    0 < value <= i128::MAX && bet_index <= 3
}

/// The refusal that `bet` and `claim` give before anything else: the market
/// record must exist and be active.
pub open spec fn market_refusal(state: Option<StateView>) -> Option<Error> {
    match state {
        None => Some(Error::StateNotInitialized),
        Some(s) => if s.status != Status::Active {
            Some(Error::StateStatusInvalid)
        } else {
            None
        },
    }
}

/// The refusal of `bet`, if any.
pub open spec fn bet_refusal(
    state: Option<StateView>,
    user_balance: i128,
    allowance: i128,
    game: Option<GameView>,
    bet: Option<BetView>,
    now: u64,
    value: u128,
    bet_index: u32,
) -> Option<Error> {
    if market_refusal(state) is Some {
        market_refusal(state)
    } else if user_balance < value {
        Some(Error::InsufficientBalance)
    } else if allowance < value {
        Some(Error::InsufficientAllowance)
    } else {
        match game {
            None => Some(Error::GameDoesNotExist),
            Some(g) => if g.status != Status::Active {
                Some(Error::GameStatusInvalid)
            } else if now < g.time_start {
                Some(Error::BeforeStartTime)
            } else if now >= g.time_end {
                Some(Error::AfterEndTime)
            } else if bet_index >= g.values.len() {
                Some(Error::GameValueInvalid)
            } else if bet_index >= g.numbers.len() {
                Some(Error::GameNumberInvalid)
            } else {
                match bet {
                    Some(b) => if bet_index >= b.bet_values.len() {
                        Some(Error::BetValueInvalid)
                    } else {
                        None
                    },
                    None => None,
                }
            },
        }
    }
}

/// `bet` aborts when a stake or count it raises would leave its integer
/// range, at the point where it raises it.
pub open spec fn bet_aborts(
    state: Option<StateView>,
    user_balance: i128,
    allowance: i128,
    game: Option<GameView>,
    bet: Option<BetView>,
    now: u64,
    value: u128,
    bet_index: u32,
) -> bool {
    let g = game->0;
    let i = bet_index as int;
    &&& market_refusal(state) is None
    &&& user_balance >= value
    &&& allowance >= value
    &&& game is Some
    &&& g.status == Status::Active
    &&& g.time_start <= now < g.time_end
    &&& i < g.values.len()
    &&& {
        ||| g.values[i] + value > u128::MAX
        ||| i < g.numbers.len() && g.numbers[i] + 1 > u32::MAX
        ||| i < g.numbers.len() && (bet matches Some(b) && i < b.bet_values.len() && b.bet_values[i]
            + value > u128::MAX)
    }
}

/// The game after a bet of `value` on outcome `i`: its stake grows by
/// `value` and its count by one.
pub open spec fn game_after_bet(g: GameView, i: int, value: u128) -> GameView {
    GameView {
        values: g.values.update(i, (g.values[i] + value) as u128),
        numbers: g.numbers.update(i, (g.numbers[i] + 1) as u32),
        ..g
    }
}

/// The bettor's record after a bet of `value` on outcome `i`: an existing
/// record's stake grows by `value`, and a first bet starts from zero stakes.
pub open spec fn bet_after_bet(b: Option<BetView>, i: int, value: u128) -> BetView {
    match b {
        Some(b) => BetView { bet_values: b.bet_values.update(i, (b.bet_values[i] + value) as u128), ..b },
        None => BetView { bet_values: zero_stakes().update(i, value), claimed: false },
    }
}

/// The refusal of `settle` that comes from the game itself, if any.
pub open spec fn settle_game_refusal(game: Option<GameView>, admin: Seq<char>, now: u64) -> Option<Error> {
    match game {
        None => Some(Error::GameDoesNotExist),
        Some(g) => if admin != g.game_admin {
            Some(Error::GameAdminUnauthorized)
        } else if now < g.time_end {
            Some(Error::BeforeEndTime)
        } else if g.status != Status::Active && g.status != Status::Paused {
            Some(Error::GameStatusInvalid)
        } else {
            None
        },
    }
}

/// `settle` aborts when the pool, the commission product or the winning
/// stake leaves the `u128` range, when the commission exceeds the pool, or
/// when a winning mark has no stake.
pub open spec fn settle_aborts(game: Option<GameView>, admin: Seq<char>, now: u64, outcome: Seq<u32>) -> bool {
    let g = game->0;
    let pool = total(g.values);
    &&& settle_game_refusal(game, admin, now) is None
    &&& {
        ||| pool > u128::MAX
        ||| pool * g.commission_rate > u128::MAX
        ||| commission_fee(pool, g.commission_rate as nat) > pool
        ||| !winners_in_range(outcome, g.values.len())
        ||| winning_stake(outcome, g.values) > u128::MAX
    }
}

/// The refusal of `settle`, if any: after the game's own checks, the market
/// record must exist and the market must hold enough tokens for the fee.
pub open spec fn settle_refusal(
    game: Option<GameView>,
    admin: Seq<char>,
    now: u64,
    state: Option<StateView>,
    contract_balance: i128,
) -> Option<Error> {
    if settle_game_refusal(game, admin, now) is Some {
        settle_game_refusal(game, admin, now)
    } else if state is None {
        Some(Error::StateNotInitialized)
    } else if contract_balance < commission_fee(total(game->0.values), game->0.commission_rate as nat) {
        Some(Error::InsufficientBalance)
    } else {
        None
    }
}

/// The settled game: marked with `outcome`, its pool split into the
/// commission and the profit left to users, and the stake on the winning
/// outcomes recorded.
pub open spec fn game_after_settle(g: GameView, outcome: Seq<u32>) -> GameView {
    let pool = total(g.values);
    GameView {
        status: Status::Settled,
        outcome,
        users_profit: (pool - commission_fee(pool, g.commission_rate as nat)) as u128,
        total_wins: winning_stake(outcome, g.values) as u128,
        ..g
    }
}

/// The checks of `claim` before any payout is computed.
pub open spec fn claim_precheck(
    state: Option<StateView>,
    user_balance: i128,
    allowance: i128,
    game: Option<GameView>,
    bet: Option<BetView>,
    now: u64,
) -> Option<Error> {
    if market_refusal(state) is Some {
        market_refusal(state)
    } else if user_balance < CLAIM_MIN_HOLDING {
        Some(Error::InsufficientBalance)
    } else if allowance < CLAIM_MIN_HOLDING {
        Some(Error::InsufficientAllowance)
    } else {
        match game {
            None => Some(Error::GameDoesNotExist),
            Some(g) => if now < g.time_end {
                Some(Error::AfterEndTime)
            } else if g.status != Status::Settled {
                Some(Error::GameStatusInvalid)
            } else {
                match bet {
                    None => Some(Error::BetDoesNotExist),
                    Some(b) => if b.claimed {
                        Some(Error::BetClaimedAlready)
                    } else {
                        None
                    },
                }
            },
        }
    }
}

/// What a bet on a settled game is paid.
pub open spec fn claim_amount(g: GameView, b: BetView) -> nat {
    payout(g.users_profit as nat, winning_stake(g.outcome, b.bet_values), g.total_wins as nat)
}

/// The refusal of `claim`, if any: the checks, then a payout of zero.
pub open spec fn claim_refusal(
    state: Option<StateView>,
    user_balance: i128,
    allowance: i128,
    game: Option<GameView>,
    bet: Option<BetView>,
    now: u64,
) -> Option<Error> {
    if claim_precheck(state, user_balance, allowance, game, bet, now) is Some {
        claim_precheck(state, user_balance, allowance, game, bet, now)
    } else if claim_amount(game->0, bet->0) == 0 {
        Some(Error::UserClaimsZero)
    } else {
        None
    }
}

/// `claim` aborts when a winning mark has no stake in the bet, when the
/// bettor's winning stake or the payout product leaves the `u128` range, or
/// when the game's winning stake is zero.
pub open spec fn claim_aborts(
    state: Option<StateView>,
    user_balance: i128,
    allowance: i128,
    game: Option<GameView>,
    bet: Option<BetView>,
    now: u64,
) -> bool {
    let g = game->0;
    let b = bet->0;
    let win = winning_stake(g.outcome, b.bet_values);
    &&& claim_precheck(state, user_balance, allowance, game, bet, now) is None
    &&& {
        ||| !winners_in_range(g.outcome, b.bet_values.len())
        ||| win > u128::MAX
        ||| g.users_profit * win > u128::MAX
        ||| g.total_wins == 0
    }
}

impl Prediction {
    /// Opens a game, or reopens a settled one for a new round, with the
    /// betting window `[time_start, time_end)` at ledger time `now`.
    pub fn set_game(
        prev: Option<Game>,
        game_admin: String,
        now: u64,
        time_start: u64,
        time_end: u64,
        commission_rate: u128,
    ) -> (r: Result<Game, Error>)
        ensures
            r is Err <==> set_game_refusal(opt_view(prev), game_admin@, now, time_start, time_end) is Some,
            r matches Err(e) ==> set_game_refusal(opt_view(prev), game_admin@, now, time_start, time_end)
                == Some(e),
            r matches Ok(g) ==> g@ == game_after_set(
                opt_view(prev),
                game_admin@,
                time_start,
                time_end,
                commission_rate,
            ),
    {
        if time_end <= time_start {
            return Err(Error::EndTimeTooSmall);
        }
        match prev {
            Some(mut p) => {
                if !(p.game_admin == game_admin) {
                    return Err(Error::GameAdminUnauthorized);
                }
                if now < p.time_end {
                    return Err(Error::BeforeEndTime);
                }
                if p.status != Status::Settled {
                    return Err(Error::GameStatusInvalid);
                }
                p.time_start = time_start;
                p.time_end = time_end;
                p.status = Status::Active;
                p.values = vec![0u128, 0u128, 0u128, 0u128];
                p.numbers = vec![0u32, 0u32, 0u32, 0u32];
                p.outcome = vec![0u32, 0u32, 0u32, 0u32];
                Ok(p)
            },
            None => {
                if now > time_end {
                    return Err(Error::AfterEndTime);
                }
                Ok(
                    Game {
                        game_admin,
                        time_start,
                        time_end,
                        commission_rate,
                        users_profit: 0,
                        total_wins: 0,
                        status: Status::Active,
                        values: vec![0u128, 0u128, 0u128, 0u128],
                        numbers: vec![0u32, 0u32, 0u32, 0u32],
                        outcome: vec![0u32, 0u32, 0u32, 0u32],
                    },
                )
            },
        }
    }

    /// The token whose balances `bet` and `claim` go on to read: the market's
    /// token when the stored market record exists and is active. Otherwise
    /// both are refused before any balance is read.
    pub fn active_market_token(state: &Option<State>) -> (r: Option<String>)
        ensures
            r is Some <==> market_refusal(opt_view(*state)) is None,
            r matches Some(t) ==> t@ == state->0.token@,
    {
        match state {
            Some(s) => if s.status == Status::Active {
                Some(s.token.clone())
            } else {
                None
            },
            None => None,
        }
    }

    /// Whether the contract accepts these bet arguments at all; it aborts
    /// on any others before reading anything.
    pub fn bet_arguments_valid(value: u128, bet_index: u32) -> (r: bool)
        ensures
            r == bet_arguments_valid(value, bet_index),
    {
        0 < value && value <= i128::MAX as u128 && bet_index <= 3
    }

    /// Whether `bet` would abort on these inputs.
    pub fn bet_aborts(
        state: &Option<State>,
        user_balance: i128,
        allowance: i128,
        game: &Option<Game>,
        bet: &Option<Bet>,
        now: u64,
        value: u128,
        bet_index: u32,
    ) -> (r: bool)
        requires
            bet_arguments_valid(value, bet_index),
        ensures
            r == bet_aborts(opt_view(*state), user_balance, allowance, opt_view(*game), opt_view(*bet), now, value, bet_index),
    {
        let amount = value as i128;
        let i = bet_index as usize;
        match state {
            Some(s) => {
                if s.status != Status::Active {
                    return false;
                }
            },
            None => return false,
        }
        if user_balance < amount || allowance < amount {
            return false;
        }
        match game {
            None => false,
            Some(g) => {
                if g.status != Status::Active || now < g.time_start || now >= g.time_end || i >= g.values.len() {
                    return false;
                }
                if g.values[i] > u128::MAX - value {
                    return true;
                }
                if i >= g.numbers.len() {
                    return false;
                }
                if g.numbers[i] == u32::MAX {
                    return true;
                }
                match bet {
                    Some(b) => i < b.bet_values.len() && b.bet_values[i] > u128::MAX - value,
                    None => false,
                }
            },
        }
    }

    /// Places a bet of `value` on outcome `bet_index` of a game, at ledger
    /// time `now`, for a user holding `user_balance` tokens with `allowance`
    /// to the market. `state` is the stored market record; the balances are
    /// those of its token, read only when `active_market_token` names it.
    /// Returns the game and the bettor's record to store; the caller then
    /// moves `value` tokens from the user to the market.
    pub fn bet(
        state: &Option<State>,
        user_balance: i128,
        allowance: i128,
        game: Option<Game>,
        bet: Option<Bet>,
        now: u64,
        value: u128,
        bet_index: u32,
    ) -> (r: Result<(Game, Bet), Error>)
        requires
            bet_arguments_valid(value, bet_index),
            !bet_aborts(opt_view(*state), user_balance, allowance, opt_view(game), opt_view(bet), now, value, bet_index),
        ensures
            state is None ==> r is Err && r->Err_0 == Error::StateNotInitialized,
            r is Err <==> bet_refusal(opt_view(*state), user_balance, allowance, opt_view(game), opt_view(bet), now, value, bet_index) is Some,
            r matches Err(e) ==> bet_refusal(opt_view(*state), user_balance, allowance, opt_view(game), opt_view(bet), now, value, bet_index)
                == Some(e),
            r matches Ok((g, b)) ==> g@ == game_after_bet(game->0@, bet_index as int, value)
                && b@ == bet_after_bet(opt_view(bet), bet_index as int, value),
    {
        let amount = value as i128;
        let i = bet_index as usize;
        let market = match state {
            Some(s) => s,
            None => return Err(Error::StateNotInitialized),
        };
        if market.status != Status::Active {
            return Err(Error::StateStatusInvalid);
        }
        if user_balance < amount {
            return Err(Error::InsufficientBalance);
        }
        if allowance < amount {
            return Err(Error::InsufficientAllowance);
        }
        let mut game = match game {
            Some(g) => g,
            None => return Err(Error::GameDoesNotExist),
        };
        if game.status != Status::Active {
            return Err(Error::GameStatusInvalid);
        }
        if now < game.time_start {
            return Err(Error::BeforeStartTime);
        }
        if now >= game.time_end {
            return Err(Error::AfterEndTime);
        }
        if i >= game.values.len() {
            return Err(Error::GameValueInvalid);
        }
        let staked = game.values[i];
        game.values.set(i, staked + value);
        if i >= game.numbers.len() {
            return Err(Error::GameNumberInvalid);
        }
        let placed = game.numbers[i];
        game.numbers.set(i, placed + 1);
        let record = match bet {
            Some(mut b) => {
                if i >= b.bet_values.len() {
                    return Err(Error::BetValueInvalid);
                }
                let own = b.bet_values[i];
                b.bet_values.set(i, own + value);
                b
            },
            None => {
                let mut bet_values = vec![0u128, 0u128, 0u128, 0u128];
                bet_values.set(i, value);
                Bet { bet_values, claimed: false }
            },
        };
        Ok((game, record))
    }
}

impl Prediction {
    /// Whether `settle` would abort on these inputs.
    pub fn settle_aborts(game: &Option<Game>, admin: &String, now: u64, outcome: &Vec<u32>) -> (r: bool)
        ensures
            r == settle_aborts(opt_view(*game), admin@, now, outcome@),
    {
        let g = match game {
            Some(g) => g,
            None => return false,
        };
        if !(*admin == g.game_admin) || now < g.time_end || (g.status != Status::Active && g.status
            != Status::Paused) {
            return false;
        }
        let pool = match checked_total(&g.values) {
            Some(p) => p,
            None => return true,
        };
        if g.commission_rate != 0 && pool > u128::MAX / g.commission_rate {
            proof {
                lemma_product_exceeds(pool as int, g.commission_rate as int, u128::MAX as int);
            }
            return true;
        }
        proof {
            lemma_product_fits(pool as int, g.commission_rate as int, u128::MAX as int);
        }
        let fee = thousandths_rounded_up(pool * g.commission_rate);
        if fee > pool {
            return true;
        }
        checked_winning_stake(outcome, &g.values).is_none()
    }

    /// Settles a game at ledger time `now` with the winning marks `outcome`:
    /// the commission (the rate's thousandths of the pool, rounded up) goes
    /// to the vault, the rest of the pool is left to the winners. Returns the
    /// game to store and the fee that the caller moves from the market to
    /// the vault. `state` is the stored market record and `contract_balance`
    /// the market's balance of its token, read only when the record exists.
    pub fn settle(
        game: Option<Game>,
        admin: &String,
        now: u64,
        outcome: Vec<u32>,
        state: Option<State>,
        contract_balance: i128,
    ) -> (r: Result<(Game, i128), Error>)
        requires
            !settle_aborts(opt_view(game), admin@, now, outcome@),
        ensures
            r is Err <==> settle_refusal(opt_view(game), admin@, now, opt_view(state), contract_balance) is Some,
            r matches Err(e) ==> settle_refusal(opt_view(game), admin@, now, opt_view(state), contract_balance)
                == Some(e),
            r matches Ok((g, fee)) ==> g@ == game_after_settle(game->0@, outcome@)
                && fee == commission_fee(total(game->0@.values), game->0.commission_rate as nat),
    {
        let mut game = match game {
            Some(g) => g,
            None => return Err(Error::GameDoesNotExist),
        };
        if !(*admin == game.game_admin) {
            return Err(Error::GameAdminUnauthorized);
        }
        if now < game.time_end {
            return Err(Error::BeforeEndTime);
        }
        if game.status != Status::Active && game.status != Status::Paused {
            return Err(Error::GameStatusInvalid);
        }
        let pool = checked_total(&game.values).unwrap();
        let numerator = pool * game.commission_rate;
        let fee = thousandths_rounded_up(numerator);
        let users_profit = pool - fee;
        let total_wins = checked_winning_stake(&outcome, &game.values).unwrap();
        game.status = Status::Settled;
        game.outcome = outcome;
        game.users_profit = users_profit;
        game.total_wins = total_wins;
        if state.is_none() {
            return Err(Error::StateNotInitialized);
        }
        assert(fee <= i128::MAX) by {
            assert(numerator <= u128::MAX);
        }
        let fee_signed = fee as i128;
        if contract_balance < fee_signed {
            return Err(Error::InsufficientBalance);
        }
        Ok((game, fee_signed))
    }

    /// Whether `claim` would abort on these inputs.
    pub fn claim_aborts(
        state: &Option<State>,
        user_balance: i128,
        allowance: i128,
        game: &Option<Game>,
        bet: &Option<Bet>,
        now: u64,
    ) -> (r: bool)
        ensures
            r == claim_aborts(opt_view(*state), user_balance, allowance, opt_view(*game), opt_view(*bet), now),
    {
        match state {
            Some(s) => {
                if s.status != Status::Active {
                    return false;
                }
            },
            None => return false,
        }
        if user_balance < CLAIM_MIN_HOLDING || allowance < CLAIM_MIN_HOLDING {
            return false;
        }
        let g = match game {
            Some(g) => g,
            None => return false,
        };
        if now < g.time_end || g.status != Status::Settled {
            return false;
        }
        let b = match bet {
            Some(b) => b,
            None => return false,
        };
        if b.claimed {
            return false;
        }
        let win = match checked_winning_stake(&g.outcome, &b.bet_values) {
            Some(w) => w,
            None => return true,
        };
        if win != 0 && g.users_profit > u128::MAX / win {
            proof {
                lemma_product_exceeds(g.users_profit as int, win as int, u128::MAX as int);
            }
            return true;
        }
        proof {
            lemma_product_fits(g.users_profit as int, win as int, u128::MAX as int);
        }
        g.total_wins == 0
    }

    /// Pays out a bet on a settled game at ledger time `now`, for a user
    /// holding `user_balance` tokens with `allowance` to the market (each
    /// must reach `CLAIM_MIN_HOLDING`). The payout is the user's share of the
    /// winners' profit in proportion to its stake on the winning outcomes,
    /// rounded down. `state` is the stored market record; the balances are
    /// those of its token, read only when `active_market_token` names it.
    /// Returns the bet, marked as claimed, to store and the amount that the
    /// caller moves from the market to the user.
    pub fn claim(
        state: &Option<State>,
        user_balance: i128,
        allowance: i128,
        game: Option<Game>,
        bet: Option<Bet>,
        now: u64,
    ) -> (r: Result<(Bet, u128), Error>)
        requires
            !claim_aborts(opt_view(*state), user_balance, allowance, opt_view(game), opt_view(bet), now),
        ensures
            state is None ==> r is Err && r->Err_0 == Error::StateNotInitialized,
            r is Err <==> claim_refusal(opt_view(*state), user_balance, allowance, opt_view(game), opt_view(bet), now) is Some,
            r matches Err(e) ==> claim_refusal(opt_view(*state), user_balance, allowance, opt_view(game), opt_view(bet), now)
                == Some(e),
            r matches Ok((b, amount)) ==> b@ == (BetView { claimed: true, ..bet->0@ })
                && amount == claim_amount(game->0@, bet->0@),
    {
        let market = match state {
            Some(s) => s,
            None => return Err(Error::StateNotInitialized),
        };
        if market.status != Status::Active {
            return Err(Error::StateStatusInvalid);
        }
        if user_balance < CLAIM_MIN_HOLDING {
            return Err(Error::InsufficientBalance);
        }
        if allowance < CLAIM_MIN_HOLDING {
            return Err(Error::InsufficientAllowance);
        }
        let game = match game {
            Some(g) => g,
            None => return Err(Error::GameDoesNotExist),
        };
        if now < game.time_end {
            return Err(Error::AfterEndTime);
        }
        if game.status != Status::Settled {
            return Err(Error::GameStatusInvalid);
        }
        let mut bet = match bet {
            Some(b) => b,
            None => return Err(Error::BetDoesNotExist),
        };
        if bet.claimed {
            return Err(Error::BetClaimedAlready);
        }
        let user_win = checked_winning_stake(&game.outcome, &bet.bet_values).unwrap();
        let numerator = game.users_profit * user_win;
        let claim_amt = numerator / game.total_wins;
        if claim_amt == 0 {
            return Err(Error::UserClaimsZero);
        }
        bet.claimed = true;
        Ok((bet, claim_amt))
    }
}

proof fn lemma_product_exceeds(a: int, b: int, m: int)
    requires
        0 < b,
        0 <= m,
        a > m / b,
    ensures
        a * b > m,
{
    assert(a * b > m) by (nonlinear_arith)
        requires
            0 < b,
            0 <= m,
            a > m / b,
    ;
}

proof fn lemma_product_fits(a: int, b: int, m: int)
    requires
        0 <= a,
        0 <= b,
        0 <= m,
        b == 0 || a <= m / b,
    ensures
        a * b <= m,
{
    assert(a * b <= m) by (nonlinear_arith)
        requires
            0 <= a,
            0 <= b,
            0 <= m,
            b == 0 || a <= m / b,
    ;
}

} // verus!
