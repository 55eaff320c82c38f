use vstd::prelude::*;

verus! {

/// The ways in which the prediction market refuses a request. Each variant
/// carries a fixed contract error code, given by [`Error::code`].
/// `MaxCountReached` carries 43, the code its callers expect when the counter
/// would pass its limit; `BetClaimedAlready` therefore carries 44.
#[derive(Clone, Copy, Debug, PartialEq, Eq, Structural, PartialOrd, Ord)]
pub enum Error {
    AmountInvalid,
    InsufficientBalance,
    InsufficientAllowance,
    StateNotInitialized,
    StateStatusInvalid,
    UserExists,
    UserDoesNotExist,
    UserBalanceExists,
    UserClaimsZero,
    GameDoesNotExist,
    GameAdminUnauthorized,
    GameStatusInvalid,
    GameValueInvalid,
    GameNumberInvalid,
    GameOutcomeNone,
    BeforeStartTime,
    AfterEndTime,
    BeforeEndTime,
    EndTimeTooSmall,
    BetDoesNotExist,
    BetIndexInvalid,
    BetValueInvalid,
    BetClaimedAlready,
    MaxCountReached,
}

/// The contract error code of each refusal.
pub open spec fn error_code(e: Error) -> u32 {
    match e {
        Error::AmountInvalid => 1,
        Error::InsufficientBalance => 2,
        Error::InsufficientAllowance => 3,
        Error::StateNotInitialized => 10,
        Error::StateStatusInvalid => 11,
        Error::UserExists => 21,
        Error::UserDoesNotExist => 22,
        Error::UserBalanceExists => 23,
        Error::UserClaimsZero => 24,
        Error::GameDoesNotExist => 30,
        Error::GameAdminUnauthorized => 31,
        Error::GameStatusInvalid => 32,
        Error::GameValueInvalid => 33,
        Error::GameNumberInvalid => 34,
        Error::GameOutcomeNone => 35,
        Error::BeforeStartTime => 36,
        Error::AfterEndTime => 37,
        Error::BeforeEndTime => 38,
        Error::EndTimeTooSmall => 39,
        Error::BetDoesNotExist => 40,
        Error::BetIndexInvalid => 41,
        Error::BetValueInvalid => 42,
        Error::BetClaimedAlready => 44,
        Error::MaxCountReached => 43,
    }
}

impl Error {
    /// The contract error code of this refusal.
    pub fn code(&self) -> (c: u32)
        ensures
            c == error_code(*self),
    {
        match self {
            Error::AmountInvalid => 1,
            Error::InsufficientBalance => 2,
            Error::InsufficientAllowance => 3,
            Error::StateNotInitialized => 10,
            Error::StateStatusInvalid => 11,
            Error::UserExists => 21,
            Error::UserDoesNotExist => 22,
            Error::UserBalanceExists => 23,
            Error::UserClaimsZero => 24,
            Error::GameDoesNotExist => 30,
            Error::GameAdminUnauthorized => 31,
            Error::GameStatusInvalid => 32,
            Error::GameValueInvalid => 33,
            Error::GameNumberInvalid => 34,
            Error::GameOutcomeNone => 35,
            Error::BeforeStartTime => 36,
            Error::AfterEndTime => 37,
            Error::BeforeEndTime => 38,
            Error::EndTimeTooSmall => 39,
            Error::BetDoesNotExist => 40,
            Error::BetIndexInvalid => 41,
            Error::BetValueInvalid => 42,
            Error::BetClaimedAlready => 44,
            Error::MaxCountReached => 43,
        }
    }
}

/// The highest value the market's counter may reach.
pub const MAX_COUNT: u32 = 5;

/// Lifecycle of the market and of each game.
#[derive(Clone, Copy, Debug, PartialEq, Eq, Structural)]
pub enum Status {
    Initial,
    Active,
    Settled,
    Paused,
}

/// The market-wide record. Addresses are held as their strkey text.
///
/// On the ledger, addresses, symbols, strings and vectors are handles to
/// objects of the host environment; the records here hold their contents as
/// plain values, converted where the contract reads and writes storage.
#[derive(Clone, Debug, PartialEq, Eq)]
pub struct State {
    pub count: u32,
    pub last_incr: u32,
    pub admin: String,
    pub token: String,
    pub market_name: String,
    pub status: Status,
}

/// A registered user: its address (strkey text), its id symbol (as text), the
/// balance it holds with the market and the ledger time of the last change.
#[derive(Clone, Debug, PartialEq, Eq)]
pub struct User {
    pub addr: String,
    pub id: String,
    pub balance: u128,
    pub updated_at: u64,
}

/// A game: its admin, its betting window, its commission rate in tenths of a
/// percent, the pool left to winners after commission, the stake on the
/// winning outcomes, and per outcome the stake (`values`) and number of bets
/// (`numbers`); `outcome` marks the winning outcomes once settled.
#[derive(Clone, Debug, PartialEq, Eq)]
pub struct Game {
    pub game_admin: String,
    pub time_start: u64,
    pub time_end: u64,
    pub commission_rate: u128,
    pub users_profit: u128,
    pub total_wins: u128,
    pub status: Status,
    pub values: Vec<u128>,
    pub numbers: Vec<u32>,
    pub outcome: Vec<u32>,
}

/// One user's stakes on one game, per outcome, and whether they were paid out.
#[derive(Clone, Debug, PartialEq, Eq)]
pub struct Bet {
    pub bet_values: Vec<u128>,
    pub claimed: bool,
}

pub struct StateView {
    pub count: u32,
    pub last_incr: u32,
    pub admin: Seq<char>,
    pub token: Seq<char>,
    pub market_name: Seq<char>,
    pub status: Status,
}

pub struct UserView {
    pub addr: Seq<char>,
    pub id: Seq<char>,
    pub balance: u128,
    pub updated_at: u64,
}

pub struct GameView {
    pub game_admin: Seq<char>,
    pub time_start: u64,
    pub time_end: u64,
    pub commission_rate: u128,
    pub users_profit: u128,
    pub total_wins: u128,
    pub status: Status,
    pub values: Seq<u128>,
    pub numbers: Seq<u32>,
    pub outcome: Seq<u32>,
}

pub struct BetView {
    pub bet_values: Seq<u128>,
    pub claimed: bool,
}

impl View for State {
    type V = StateView;

    open spec fn view(&self) -> StateView {
        StateView {
            count: self.count,
            last_incr: self.last_incr,
            admin: self.admin@,
            token: self.token@,
            market_name: self.market_name@,
            status: self.status,
        }
    }
}

impl View for User {
    type V = UserView;

    open spec fn view(&self) -> UserView {
        UserView {
            addr: self.addr@,
            id: self.id@,
            balance: self.balance,
            updated_at: self.updated_at,
        }
    }
}

impl View for Game {
    type V = GameView;

    open spec fn view(&self) -> GameView {
        GameView {
            game_admin: self.game_admin@,
            time_start: self.time_start,
            time_end: self.time_end,
            commission_rate: self.commission_rate,
            users_profit: self.users_profit,
            total_wins: self.total_wins,
            status: self.status,
            values: self.values@,
            numbers: self.numbers@,
            outcome: self.outcome@,
        }
    }
}

impl View for Bet {
    type V = BetView;

    open spec fn view(&self) -> BetView {
        BetView { bet_values: self.bet_values@, claimed: self.claimed }
    }
}

/// The view of a record that may be missing from storage.
pub open spec fn opt_view<T: View>(o: Option<T>) -> Option<T::V> {
    match o {
        Some(t) => Some(t@),
        None => None,
    }
}

} // verus!
