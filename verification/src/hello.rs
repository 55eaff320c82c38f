//! The hello-world contract: a bounded counter, a user registry that answers
//! with a default record for unknown addresses, and token deposits and
//! withdrawals guarded by balance and allowance checks.
use vstd::prelude::*;

verus! {

/// The ways in which the hello-world contract refuses a request.
#[derive(Clone, Copy, Debug, PartialEq, Eq, Structural, PartialOrd, Ord)]
pub enum Error {
    MaxCountReached,
    UserExists,
    UserDoesNotExist,
    InsufficientBalance,
    InsufficientAllowance,
    BalanceExists,
}

/// The contract error code of each refusal.
pub open spec fn error_code(e: Error) -> u32 {
    match e {
        Error::MaxCountReached => 1,
        Error::UserExists => 2,
        Error::UserDoesNotExist => 3,
        Error::InsufficientBalance => 4,
        Error::InsufficientAllowance => 5,
        Error::BalanceExists => 6,
    }
}

impl Error {
    /// The contract error code of this refusal.
    pub fn code(&self) -> (c: u32)
        ensures
            c == error_code(*self),
    {
        match self {
            Error::MaxCountReached => 1,
            Error::UserExists => 2,
            Error::UserDoesNotExist => 3,
            Error::InsufficientBalance => 4,
            Error::InsufficientAllowance => 5,
            Error::BalanceExists => 6,
        }
    }
}

/// The highest value the counter may reach.
pub const MAX_COUNT: u32 = 5;

/// The counter and the last increment applied to it.
#[derive(Clone, Copy, Debug, PartialEq, Eq, Structural)]
pub struct State {
    pub count: u32,
    pub last_incr: u32,
}

/// A registry entry: the address (strkey text), the id symbol (as text), a
/// balance, and the ledger time of registration; a time of zero marks an
/// address as unregistered.
#[derive(Clone, Debug, PartialEq, Eq)]
pub struct User {
    pub addr: String,
    pub id: String,
    pub balance: u128,
    pub updated_at: u64,
}

/// The outcome of a yes/no prediction.
#[derive(Clone, Copy, Debug, PartialEq, Eq, Structural)]
pub enum Outcome {
    Undecided,
    TrueOutcome,
    FalseOutcome,
}

/// A yes/no bet: who placed it (strkey text), how much, on which side, and
/// whether it was paid out.
#[derive(Clone, Debug, PartialEq, Eq)]
pub struct Bets {
    pub bettor: String,
    pub amount: i128,
    pub bet_on_true: bool,
    pub claimed: bool,
}

/// The storage keys of a yes/no prediction market; bettors are named by
/// their strkey text.
#[derive(Clone, Debug, PartialEq, Eq)]
pub enum StorageKey {
    Oracle,
    Token,
    TrueTotal,
    FalseTotal,
    Market,
    State,
    Bets(String),
}

pub struct UserView {
    pub addr: Seq<char>,
    pub id: Seq<char>,
    pub balance: u128,
    pub updated_at: u64,
}

impl View for User {
    type V = UserView;

    open spec fn view(&self) -> UserView {
        UserView { addr: self.addr@, id: self.id@, balance: self.balance, updated_at: self.updated_at }
    }
}

/// The record the registry answers for an address it does not hold.
pub open spec fn default_user(addr: Seq<char>) -> UserView {
    UserView { addr, id: "none"@, balance: 0, updated_at: 0 }
}

/// The registry's answer for `addr` given what is stored under it.
pub open spec fn looked_up(stored: Option<UserView>, addr: Seq<char>) -> UserView {
    match stored {
        Some(u) => u,
        None => default_user(addr),
    }
}

/// The view of a registry entry that may be missing from storage.
pub open spec fn user_view(stored: Option<User>) -> Option<UserView> {
    match stored {
        Some(u) => Some(u@),
        None => None,
    }
}

/// The counter's answer given what is stored.
pub open spec fn current_state(stored: Option<State>) -> State {
    match stored {
        Some(s) => s,
        None => State { count: 0, last_incr: 0 },
    }
}

/// The refusal of `increment`, if any.
pub open spec fn increment_refusal(stored: Option<State>, incr: u32) -> Option<Error> {
    if current_state(stored).count + incr <= MAX_COUNT {
        None
    } else {
        Some(Error::MaxCountReached)
    }
}

/// `increment` aborts when the counter would leave the `u32` range.
pub open spec fn increment_aborts(stored: Option<State>, incr: u32) -> bool {
    current_state(stored).count + incr > u32::MAX
}

/// The hello-world contract. Its entry points are associated functions that
/// take the stored records and the observed ledger values and return the
/// records to store.
pub struct Hello;

impl Hello {
    /// Checks a deposit of `amount` from a sender holding `sender_balance`
    /// tokens with `allowance` to the contract; returns the amount the caller
    /// then moves from the sender to the contract.
    pub fn deposit_token(amount: u128, sender_balance: i128, allowance: i128) -> (r: Result<i128, Error>)
        requires
            amount <= i128::MAX,
        ensures
            sender_balance < amount ==> r == Err::<i128, Error>(Error::InsufficientBalance),
            sender_balance >= amount && allowance < amount ==> r == Err::<i128, Error>(
                Error::InsufficientAllowance,
            ),
            sender_balance >= amount && allowance >= amount ==> r == Ok::<i128, Error>(amount as i128),
    {
        let amount_i = amount as i128;
        if sender_balance < amount_i {
            return Err(Error::InsufficientBalance);
        }
        if allowance < amount_i {
            return Err(Error::InsufficientAllowance);
        }
        Ok(amount_i)
    }

    /// Checks a withdrawal of `amount` from a contract holding
    /// `contract_balance` tokens; returns the amount the caller then moves
    /// from the contract to the sender.
    pub fn withdraw_token(amount: u128, contract_balance: i128) -> (r: Result<i128, Error>)
        requires
            amount <= i128::MAX,
        ensures
            contract_balance < amount ==> r == Err::<i128, Error>(Error::InsufficientBalance),
            contract_balance >= amount ==> r == Ok::<i128, Error>(amount as i128),
    {
        let amount_i = amount as i128;
        if contract_balance < amount_i {
            return Err(Error::InsufficientBalance);
        }
        Ok(amount_i)
    }

    /// The stored entry for `addr`, or the default record when there is none.
    pub fn get_user(stored: Option<User>, addr: String) -> (u: User)
        ensures
            u@ == looked_up(user_view(stored), addr@),
    {
        match stored {
            Some(u) => u,
            None => User { addr, id: "none".to_owned(), balance: 0, updated_at: 0 },
        }
    }

    /// Registers `addr` under `id` at ledger time `now`; refused with
    /// `UserExists` when the entry already carries a non-zero time.
    pub fn add_user(stored: Option<User>, addr: String, id: String, now: u64) -> (r: Result<User, Error>)
        ensures
            looked_up(user_view(stored), addr@).updated_at != 0 ==> r == Err::<User, Error>(
                Error::UserExists,
            ),
            looked_up(user_view(stored), addr@).updated_at == 0 ==> (r matches Ok(u) && u@ == UserView {
                id: id@,
                updated_at: now,
                ..looked_up(user_view(stored), addr@)
            }),
    {
        let mut user = Self::get_user(stored, addr);
        if user.updated_at != 0 {
            return Err(Error::UserExists);
        }
        user.id = id;
        user.updated_at = now;
        Ok(user)
    }

    /// Unregisters `addr`: the entry is reset to the id `none`, a zero
    /// balance and a zero time; refused with `UserDoesNotExist` when the
    /// entry carries a zero time.
    pub fn delete_user(stored: Option<User>, addr: String) -> (r: Result<User, Error>)
        ensures
            looked_up(user_view(stored), addr@).updated_at == 0 ==> r == Err::<User, Error>(
                Error::UserDoesNotExist,
            ),
            looked_up(user_view(stored), addr@).updated_at != 0 ==> (r matches Ok(u) && u@
                == default_user(looked_up(user_view(stored), addr@).addr)),
    {
        let mut user = Self::get_user(stored, addr);
        if user.updated_at == 0 {
            return Err(Error::UserDoesNotExist);
        }
        user.id = "none".to_owned();
        user.balance = 0;
        user.updated_at = 0;
        Ok(user)
    }

    /// The stored counter, or a zero counter when none is stored.
    pub fn get_state(stored: Option<State>) -> (s: State)
        ensures
            s == current_state(stored),
    {
        match stored {
            Some(s) => s,
            None => State { count: 0, last_incr: 0 },
        }
    }

    /// Whether `increment` would abort on these inputs.
    pub fn increment_aborts(stored: Option<State>, incr: u32) -> (r: bool)
        ensures
            r == increment_aborts(stored, incr),
    {
        Self::get_state(stored).count > u32::MAX - incr
    }

    /// Adds `incr` to the counter. The counter to store comes back only while
    /// it stays within `MAX_COUNT`; the stored counter is kept otherwise.
    pub fn increment(stored: Option<State>, incr: u32) -> (r: Result<State, Error>)
        requires
            !increment_aborts(stored, incr),
        ensures
            r is Err <==> increment_refusal(stored, incr) is Some,
            r matches Err(e) ==> increment_refusal(stored, incr) == Some(e),
            r matches Ok(s) ==> s == (State {
                count: (current_state(stored).count + incr) as u32,
                last_incr: incr,
            }),
            r matches Ok(s) ==> s.count <= MAX_COUNT,
    {
        let mut state = Self::get_state(stored);
        state.count = state.count + incr;
        state.last_incr = incr;
        if state.count <= MAX_COUNT {
            Ok(state)
        } else {
            Err(Error::MaxCountReached)
        }
    }

    /// Sets the counter, and the last increment, to `value`, whatever was
    /// stored.
    pub fn reset_count(stored: Option<State>, value: u32) -> (s: State)
        ensures
            s == (State { count: value, last_incr: value }),
    {
        let mut state = Self::get_state(stored);
        state.count = value;
        state.last_incr = value;
        state
    }

    /// Succeeds with zero on zero and fails with `MaxCountReached` on any
    /// other value.
    pub fn debugging(value: u32) -> (r: Result<u32, Error>)
        ensures
            value == 0 ==> r == Ok::<u32, Error>(0),
            value != 0 ==> r == Err::<u32, Error>(Error::MaxCountReached),
    {
        match value {
            0 => Ok(0),
            _ => Err(Error::MaxCountReached),
        }
    }
}

/// Deleting a user leaves its address reading exactly as an address that was
/// never registered, so it can be registered again.
pub proof fn lemma_deleted_user_reads_as_unregistered(addr: Seq<char>)
    ensures
        looked_up(Some(default_user(addr)), addr) == looked_up(None, addr),
        looked_up(Some(default_user(addr)), addr).updated_at == 0,
{
}

/// The counter accepts every increment that keeps it within `MAX_COUNT`,
/// so it can always be brought exactly to the limit, and refuses only
/// increments that would pass it; an empty store counts from zero.
pub proof fn lemma_counter_reaches_limit(stored: Option<State>, incr: u32)
    requires
        current_state(stored).count <= MAX_COUNT,
    ensures
        increment_refusal(stored, (MAX_COUNT - current_state(stored).count) as u32) is None,
        increment_refusal(stored, incr) is Some ==> current_state(stored).count + incr > MAX_COUNT,
        increment_refusal(stored, incr) is Some ==> increment_refusal(stored, incr) == Some(
            Error::MaxCountReached,
        ),
        current_state(None).count == 0,
{
}

/// An address the registry does not hold reads as unregistered under its
/// own address, with a zero balance, so `add_user` accepts it.
pub proof fn lemma_unknown_user_is_unregistered(addr: Seq<char>)
    ensures
        looked_up(None, addr).addr == addr,
        looked_up(None, addr).updated_at == 0,
        looked_up(None, addr).balance == 0,
{
}

} // verus!
