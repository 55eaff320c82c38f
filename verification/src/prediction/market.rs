//! The market-wide record and the user registry of the prediction market.
use vstd::prelude::*;
use super::types::{opt_view, Error, State, StateView, Status, User, UserView, MAX_COUNT};

verus! {

/// The prediction market contract. Its entry points are associated
/// functions that take the stored records and the observed ledger values and
/// return the records to store.
pub struct Prediction;

/// The market record right after construction.
pub open spec fn initial_state(admin: Seq<char>, token: Seq<char>, market_name: Seq<char>) -> StateView {
    StateView { count: 0, last_incr: 0, admin, token, market_name, status: Status::Active }
}

/// The refusal of `increment`, if any.
pub open spec fn increment_refusal(stored: Option<StateView>, incr: u32) -> Option<Error> {
    match stored {
        None => Some(Error::StateNotInitialized),
        Some(s) => if s.count + incr <= MAX_COUNT {
            None
        } else {
            Some(Error::MaxCountReached)
        },
    }
}

/// The market record after an accepted `increment` by `incr`.
pub open spec fn incremented(s: StateView, incr: u32) -> StateView {
    StateView { count: (s.count + incr) as u32, last_incr: incr, ..s }
}

/// The market record after `reset_admin` hands the role to `admin_new`.
pub open spec fn admin_reset(s: StateView, admin_new: Seq<char>) -> StateView {
    StateView { admin: admin_new, ..s }
}

/// `increment` aborts when the counter would leave the `u32` range.
pub open spec fn increment_aborts(stored: Option<StateView>, incr: u32) -> bool {
    stored matches Some(s) && s.count + incr > u32::MAX
}

/// A user's record after `amount` is credited to it at time `now`.
pub open spec fn credited(u: UserView, amount: u128, now: u64) -> UserView {
    UserView { balance: (u.balance + amount) as u128, updated_at: now, ..u }
}

/// A user's record after `amount` is debited from it at time `now`.
pub open spec fn debited(u: UserView, amount: u128, now: u64) -> UserView {
    UserView { balance: (u.balance - amount) as u128, updated_at: now, ..u }
}

/// The refusal of `deposit_token`, if any: the sender's token balance and its
/// allowance to the market must each cover the amount, and the sender must be
/// registered.
pub open spec fn deposit_refusal(
    amount: u128,
    sender_balance: i128,
    allowance: i128,
    stored: Option<UserView>,
) -> Option<Error> {
    if sender_balance < amount {
        Some(Error::InsufficientBalance)
    } else if allowance < amount {
        Some(Error::InsufficientAllowance)
    } else if stored is None {
        Some(Error::UserDoesNotExist)
    } else {
        None
    }
}

/// `deposit_token` aborts when the amount does not fit the token interface or
/// when the credited balance would leave the `u128` range.
pub open spec fn deposit_aborts(
    amount: u128,
    sender_balance: i128,
    allowance: i128,
    stored: Option<UserView>,
) -> bool {
    ||| amount > i128::MAX
    ||| deposit_refusal(amount, sender_balance, allowance, stored) is None
        && stored->0.balance + amount > u128::MAX
}

/// The refusal of `withdraw_token`, if any: the market's token balance must
/// cover the amount and the sender must be registered.
pub open spec fn withdraw_refusal(amount: u128, contract_balance: i128, stored: Option<UserView>) -> Option<Error> {
    if contract_balance < amount {
        Some(Error::InsufficientBalance)
    } else if stored is None {
        Some(Error::UserDoesNotExist)
    } else {
        None
    }
}

/// `withdraw_token` aborts when the amount does not fit the token interface or
/// when it exceeds the user's balance with the market.
pub open spec fn withdraw_aborts(amount: u128, contract_balance: i128, stored: Option<UserView>) -> bool {
    ||| amount > i128::MAX
    ||| withdraw_refusal(amount, contract_balance, stored) is None && stored->0.balance < amount
}

impl Prediction {
    /// The market record that construction stores: counter at zero and
    /// status active.
    pub fn __constructor(admin: String, token: String, market_name: String) -> (s: State)
        ensures
            s@ == initial_state(admin@, token@, market_name@),
    {
        State { count: 0, last_incr: 0, admin, token, market_name, status: Status::Active }
    }

    /// The stored market record, or `StateNotInitialized` when there is none.
    pub fn get_state(stored: Option<State>) -> (r: Result<State, Error>)
        ensures
            stored is None ==> r == Err::<State, Error>(Error::StateNotInitialized),
            stored matches Some(s) ==> (r matches Ok(t) && t@ == s@),
    {
        match stored {
            Some(s) => Ok(s),
            None => Err(Error::StateNotInitialized),
        }
    }

    /// Whether `increment` would abort on these inputs.
    pub fn increment_aborts(stored: &Option<State>, incr: u32) -> (r: bool)
        ensures
            r == increment_aborts(opt_view(*stored), incr),
    {
        match stored {
            Some(s) => s.count > u32::MAX - incr,
            None => false,
        }
    }

    /// Adds `incr` to the counter. The record to store comes back only while
    /// the counter stays within `MAX_COUNT`; the original counter is kept
    /// otherwise.
    pub fn increment(stored: Option<State>, incr: u32) -> (r: Result<State, Error>)
        requires
            !increment_aborts(opt_view(stored), incr),
        ensures
            r is Err <==> increment_refusal(opt_view(stored), incr) is Some,
            r matches Err(e) ==> increment_refusal(opt_view(stored), incr) == Some(e),
            r matches Ok(t) ==> t@ == incremented(stored->0@, incr),
            r matches Ok(t) ==> t.count <= MAX_COUNT,
    {
        let mut state = Self::get_state(stored)?;
        state.count = state.count + incr;
        state.last_incr = incr;
        if state.count <= MAX_COUNT {
            Ok(state)
        } else {
            Err(Error::MaxCountReached)
        }
    }

    /// Hands the admin role to `admin_new`. Any caller that authorised the
    /// call may do so; the stored admin is not consulted.
    pub fn reset_admin(stored: Option<State>, admin_new: String) -> (r: Result<State, Error>)
        ensures
            stored is None ==> r == Err::<State, Error>(Error::StateNotInitialized),
            stored matches Some(s) ==> (r matches Ok(t) && t@ == admin_reset(s@, admin_new@)),
    {
        let mut state = Self::get_state(stored)?;
        state.admin = admin_new;
        Ok(state)
    }

    /// The stored user, or `UserDoesNotExist` when there is none.
    pub fn get_user(stored: Option<User>) -> (r: Result<User, Error>)
        ensures
            stored is None ==> r == Err::<User, Error>(Error::UserDoesNotExist),
            stored matches Some(u) ==> (r matches Ok(v) && v@ == u@),
    {
        match stored {
            Some(u) => Ok(u),
            None => Err(Error::UserDoesNotExist),
        }
    }

    /// Registers `addr` under `id` with a zero balance at time `now`; refused
    /// with `UserExists` when a record is already stored.
    pub fn add_user(stored: Option<User>, addr: String, id: String, now: u64) -> (r: Result<User, Error>)
        ensures
            stored is Some ==> r == Err::<User, Error>(Error::UserExists),
            stored is None ==> (r matches Ok(u) && u@ == UserView {
                addr: addr@,
                id: id@,
                balance: 0,
                updated_at: now,
            }),
    {
        if stored.is_some() {
            return Err(Error::UserExists);
        }
        Ok(User { addr, id, balance: 0, updated_at: now })
    }

    /// Checks that a user may be deleted: it must exist and hold no balance.
    /// On success the stored record comes back unchanged; the contract uses
    /// that record itself, not the user's registry key, as the key it
    /// removes, so the registry entry stays in place.
    pub fn delete_user(stored: Option<User>) -> (r: Result<User, Error>)
        ensures
            stored is None ==> r == Err::<User, Error>(Error::UserDoesNotExist),
            stored matches Some(u) ==> if u.balance > 0 {
                r == Err::<User, Error>(Error::UserBalanceExists)
            } else {
                r matches Ok(v) && v@ == u@
            },
    {
        let user = Self::get_user(stored)?;
        if user.balance > 0 {
            return Err(Error::UserBalanceExists);
        }
        Ok(user)
    }

    /// Whether `deposit_token` would abort on these inputs.
    pub fn deposit_token_aborts(amount: u128, sender_balance: i128, allowance: i128, stored: &Option<User>) -> (r: bool)
        ensures
            r == deposit_aborts(amount, sender_balance, allowance, opt_view(*stored)),
    {
        if amount > i128::MAX as u128 {
            return true;
        }
        let a = amount as i128;
        if sender_balance < a || allowance < a {
            return false;
        }
        match stored {
            Some(u) => u.balance > u128::MAX - amount,
            None => false,
        }
    }

    /// Credits a deposit of `amount` to the sender's record at time `now`.
    /// The caller then moves `amount` tokens from the sender to the market.
    pub fn deposit_token(amount: u128, sender_balance: i128, allowance: i128, stored: Option<User>, now: u64) -> (r: Result<User, Error>)
        requires
            !deposit_aborts(amount, sender_balance, allowance, opt_view(stored)),
        ensures
            r is Err <==> deposit_refusal(amount, sender_balance, allowance, opt_view(stored)) is Some,
            r matches Err(e) ==> deposit_refusal(amount, sender_balance, allowance, opt_view(stored)) == Some(e),
            r matches Ok(u) ==> u@ == credited(stored->0@, amount, now),
    {
        let amount_i = amount as i128;
        if sender_balance < amount_i {
            return Err(Error::InsufficientBalance);
        }
        if allowance < amount_i {
            return Err(Error::InsufficientAllowance);
        }
        let mut user = Self::get_user(stored)?;
        user.balance = user.balance + amount;
        user.updated_at = now;
        Ok(user)
    }

    /// Whether `withdraw_token` would abort on these inputs.
    pub fn withdraw_token_aborts(amount: u128, contract_balance: i128, stored: &Option<User>) -> (r: bool)
        ensures
            r == withdraw_aborts(amount, contract_balance, opt_view(*stored)),
    {
        if amount > i128::MAX as u128 {
            return true;
        }
        if contract_balance < amount as i128 {
            return false;
        }
        match stored {
            Some(u) => u.balance < amount,
            None => false,
        }
    }

    /// Debits a withdrawal of `amount` from the sender's record at time
    /// `now`. The caller then moves `amount` tokens from the market to the
    /// sender.
    pub fn withdraw_token(amount: u128, contract_balance: i128, stored: Option<User>, now: u64) -> (r: Result<User, Error>)
        requires
            !withdraw_aborts(amount, contract_balance, opt_view(stored)),
        ensures
            r is Err <==> withdraw_refusal(amount, contract_balance, opt_view(stored)) is Some,
            r matches Err(e) ==> withdraw_refusal(amount, contract_balance, opt_view(stored)) == Some(e),
            r matches Ok(u) ==> u@ == debited(stored->0@, amount, now),
    {
        let amount_i = amount as i128;
        if contract_balance < amount_i {
            return Err(Error::InsufficientBalance);
        }
        let mut user = Self::get_user(stored)?;
        user.balance = user.balance - amount;
        user.updated_at = now;
        Ok(user)
    }
}

} // verus!
