use soroban_contracts::debug::llc;
use soroban_contracts::prediction::games::CLAIM_MIN_HOLDING;
use soroban_contracts::prediction::market::Prediction;
use soroban_contracts::prediction::types::{Bet, Error, Game, State, Status, User, MAX_COUNT};

const INITBALC: i128 = 9_000_i128;
const ADMIN: &str = "GDADMINXXXXXXXXXXXXXXXXXXXXXXXXXXXXXXXXXXXXXXXXXXXXXXXXX";
const USER1: &str = "GDUSER1XXXXXXXXXXXXXXXXXXXXXXXXXXXXXXXXXXXXXXXXXXXXXXXXX";
const USER2: &str = "GDUSER2XXXXXXXXXXXXXXXXXXXXXXXXXXXXXXXXXXXXXXXXXXXXXXXXX";
const TOKEN: &str = "CDTOKENXXXXXXXXXXXXXXXXXXXXXXXXXXXXXXXXXXXXXXXXXXXXXXXXX";
const VAULT: &str = "GDVAULTXXXXXXXXXXXXXXXXXXXXXXXXXXXXXXXXXXXXXXXXXXXXXXXXX";

/// A token ledger of balances and allowances to the market.
struct Token {
    balances: Vec<(String, i128)>,
    allowances: Vec<(String, i128)>,
}

impl Token {
    fn balance(&self, who: &str) -> i128 {
        self.balances.iter().find(|(a, _)| a == who).map(|(_, b)| *b).unwrap_or(0)
    }

    fn allowance(&self, who: &str) -> i128 {
        self.allowances.iter().find(|(a, _)| a == who).map(|(_, b)| *b).unwrap_or(0)
    }

    fn set(list: &mut Vec<(String, i128)>, who: &str, v: i128) {
        list.retain(|(a, _)| a != who);
        list.push((who.to_string(), v));
    }

    fn transfer(&mut self, from: &str, to: &str, amount: i128) {
        let f = self.balance(from);
        let t = self.balance(to);
        assert!(f >= amount);
        Token::set(&mut self.balances, from, f - amount);
        Token::set(&mut self.balances, to, t + amount);
    }

    fn transfer_from(&mut self, owner: &str, to: &str, amount: i128) {
        let a = self.allowance(owner);
        assert!(a >= amount);
        Token::set(&mut self.allowances, owner, a - amount);
        self.transfer(owner, to, amount);
    }
}

const MARKET: &str = "CDMARKETXXXXXXXXXXXXXXXXXXXXXXXXXXXXXXXXXXXXXXXXXXXXXXXX";

/// The market contract's storage and token as a client sees them, driven
/// through the library's decision functions.
struct Market {
    state: Option<State>,
    users: Vec<User>,
    games: Vec<(u32, Game)>,
    bets: Vec<(String, u32, Bet)>,
    token: Token,
    now: u64,
}

fn fail(e: Error) -> ! {
    panic!("HostError: Error(Contract, #{})", e.code())
}

impl Market {
    fn setup() -> Market {
        let state = Prediction::__constructor(ADMIN.to_string(), TOKEN.to_string(), "prediction".to_string());
        let mut token = Token { balances: Vec::new(), allowances: Vec::new() };
        Token::set(&mut token.balances, USER1, INITBALC);
        Token::set(&mut token.balances, USER2, INITBALC);
        Token::set(&mut token.allowances, USER1, INITBALC);
        Token::set(&mut token.allowances, USER2, INITBALC);
        Market { state: Some(state), users: Vec::new(), games: Vec::new(), bets: Vec::new(), token, now: 0 }
    }

    fn get_state(&self) -> State {
        match Prediction::get_state(self.state.clone()) {
            Ok(s) => s,
            Err(e) => fail(e),
        }
    }

    fn try_increment(&mut self, incr: u32) -> Result<u32, Error> {
        assert!(!Prediction::increment_aborts(&self.state, incr));
        let s = Prediction::increment(self.state.clone(), incr)?;
        let count = s.count;
        self.state = Some(s);
        Ok(count)
    }

    fn increment(&mut self, incr: u32) -> u32 {
        match self.try_increment(incr) {
            Ok(c) => c,
            Err(e) => fail(e),
        }
    }

    fn stored_user(&self, addr: &str) -> Option<User> {
        self.users.iter().find(|u| u.addr == addr).cloned()
    }

    fn store_user(&mut self, user: User) {
        self.users.retain(|u| u.addr != user.addr);
        self.users.push(user);
    }

    fn get_user(&self, addr: &str) -> User {
        match Prediction::get_user(self.stored_user(addr)) {
            Ok(u) => u,
            Err(e) => fail(e),
        }
    }

    fn add_user(&mut self, addr: &str, id: &str) -> u32 {
        match Prediction::add_user(self.stored_user(addr), addr.to_string(), id.to_string(), self.now) {
            Ok(u) => {
                self.store_user(u);
                0
            },
            Err(e) => fail(e),
        }
    }

    fn delete_user(&mut self, addr: &str) -> u32 {
        match Prediction::delete_user(self.stored_user(addr)) {
            Ok(_) => 0,
            Err(e) => fail(e),
        }
    }

    fn try_deposit_token(&mut self, sender: &str, amount: u128) -> Result<u32, Error> {
        let bal = self.token.balance(sender);
        let allow = self.token.allowance(sender);
        let stored = self.stored_user(sender);
        assert!(!Prediction::deposit_token_aborts(amount, bal, allow, &stored));
        let u = Prediction::deposit_token(amount, bal, allow, stored, self.now)?;
        self.store_user(u);
        self.token.transfer_from(sender, MARKET, amount as i128);
        Ok(0)
    }

    fn try_withdraw_token(&mut self, sender: &str, amount: u128) -> Result<u32, Error> {
        let bal = self.token.balance(MARKET);
        let stored = self.stored_user(sender);
        assert!(!Prediction::withdraw_token_aborts(amount, bal, &stored));
        let u = Prediction::withdraw_token(amount, bal, stored, self.now)?;
        self.store_user(u);
        self.token.transfer(MARKET, sender, amount as i128);
        Ok(0)
    }

    fn get_game(&self, id: u32) -> Option<Game> {
        self.games.iter().find(|(g, _)| *g == id).map(|(_, g)| g.clone())
    }

    fn store_game(&mut self, id: u32, game: Game) {
        self.games.retain(|(g, _)| *g != id);
        self.games.push((id, game));
    }

    fn get_bet(&self, user: &str, id: u32) -> Option<Bet> {
        self.bets.iter().find(|(u, g, _)| u == user && *g == id).map(|(_, _, b)| b.clone())
    }

    fn store_bet(&mut self, user: &str, id: u32, bet: Bet) {
        self.bets.retain(|(u, g, _)| !(u == user && *g == id));
        self.bets.push((user.to_string(), id, bet));
    }

    fn try_set_game(&mut self, admin: &str, id: u32, start: u64, end: u64, rate: u128) -> Result<u32, Error> {
        let g = Prediction::set_game(self.get_game(id), admin.to_string(), self.now, start, end, rate)?;
        self.store_game(id, g);
        Ok(0)
    }

    fn try_bet(&mut self, user: &str, id: u32, value: u128, idx: u32) -> Result<u32, Error> {
        assert!(Prediction::bet_arguments_valid(value, idx));
        let state = self.state.clone();
        let (bal, allow) = match Prediction::active_market_token(&state) {
            Some(t) => {
                assert_eq!(t, TOKEN);
                (self.token.balance(user), self.token.allowance(user))
            },
            None => (0, 0),
        };
        let game = self.get_game(id);
        let bet = self.get_bet(user, id);
        assert!(!Prediction::bet_aborts(&state, bal, allow, &game, &bet, self.now, value, idx));
        let (g, b) = Prediction::bet(&state, bal, allow, game, bet, self.now, value, idx)?;
        self.store_game(id, g);
        self.store_bet(user, id, b);
        self.token.transfer_from(user, MARKET, value as i128);
        Ok(0)
    }

    fn try_settle(&mut self, admin: &str, id: u32, outcome: Vec<u32>, vault: &str) -> Result<i128, Error> {
        let game = self.get_game(id);
        let admin = admin.to_string();
        assert!(!Prediction::settle_aborts(&game, &admin, self.now, &outcome));
        let bal = self.token.balance(MARKET);
        let (g, fee) = Prediction::settle(game, &admin, self.now, outcome, self.state.clone(), bal)?;
        self.store_game(id, g);
        self.token.transfer(MARKET, vault, fee);
        Ok(fee)
    }

    fn try_claim(&mut self, user: &str, id: u32) -> Result<u128, Error> {
        let state = self.state.clone();
        let (bal, allow) = match Prediction::active_market_token(&state) {
            Some(_) => (self.token.balance(user), self.token.allowance(user)),
            None => (0, 0),
        };
        let game = self.get_game(id);
        let bet = self.get_bet(user, id);
        assert!(!Prediction::claim_aborts(&state, bal, allow, &game, &bet, self.now));
        let (b, amount) = Prediction::claim(&state, bal, allow, game, bet, self.now)?;
        self.store_bet(user, id, b);
        self.token.transfer(MARKET, user, amount as i128);
        Ok(amount)
    }
}

fn llc_print(name: &str, input: &str) {
    println!("{}", llc(name, input));
}

#[test]
fn test_init_conditions() {
    let ctrt = Market::setup();
    let state = ctrt.get_state();
    assert_eq!(state.count, 0);
    assert_eq!(state.admin, ADMIN);
    assert_eq!(state.token, TOKEN);
    assert_eq!(state.market_name, "prediction");
    assert_eq!(state.status, Status::Active);
    assert_eq!(ctrt.token.balance(USER1), INITBALC);
    assert_eq!(ctrt.token.balance(USER2), INITBALC);
    assert_eq!(ctrt.token.allowance(USER1), INITBALC);
    assert_eq!(ctrt.token.allowance(USER2), INITBALC);
    assert_eq!(ctrt.token.balance(MARKET), 0);
}

#[test]
fn test_token() {
    let mut ctrt = Market::setup();
    let user_id = "user1";
    let out1 = ctrt.add_user(USER1, user_id);
    assert_eq!(out1, 0);
    let user1u = ctrt.get_user(USER1);
    assert_eq!(user1u.id, user_id);

    ctrt.try_deposit_token(USER1, 700).unwrap();
    assert_eq!(ctrt.token.balance(USER1), INITBALC - 700);
    assert_eq!(ctrt.token.balance(MARKET), 700);

    ctrt.try_withdraw_token(USER1, 500).unwrap();
    assert_eq!(ctrt.token.balance(USER1), INITBALC - 200);
    assert_eq!(ctrt.token.balance(MARKET), 200);

    let user1u = ctrt.get_user(USER1);
    assert_eq!(user1u.balance, 200);

    ctrt.try_withdraw_token(USER1, 200).unwrap();
    ctrt.delete_user(USER1);
    let user1u = ctrt.get_user(USER1);
    assert_eq!(user1u.updated_at, 0);
}

#[test]
fn test_game() {
    let mut ctrt = Market::setup();
    let game_id = 1;
    let time_start = 0u64;
    let time_end = 100u64;
    let game = ctrt.get_game(game_id);
    llc_print("game", &format!("{:?}", game));
    ctrt.try_set_game(USER1, game_id, time_start, time_end, 0).unwrap();

    let value = 100u128;
    let bet_index = 0u32;

    let game = ctrt.get_game(game_id);
    let game_value = game.clone().unwrap().values[bet_index as usize];
    let game_number = game.clone().unwrap().numbers[bet_index as usize];

    let bet = ctrt.get_bet(USER1, game_id);
    llc_print("bet", &format!("{:?}", bet));
    let bet_value = 0;

    ctrt.try_bet(USER1, game_id, value, bet_index).unwrap();
    let bet = ctrt.get_bet(USER1, game_id);
    assert_eq!(bet_value + value, bet.unwrap().bet_values[bet_index as usize]);
    let game = ctrt.get_game(game_id);
    assert_eq!(game_value + value, game.clone().unwrap().values[bet_index as usize]);
    assert_eq!(game_number + 1, game.unwrap().numbers[bet_index as usize]);

    let balc1 = ctrt.token.balance(MARKET);
    assert_eq!(balc1.cast_unsigned(), value);
}

#[test]
fn test_state() {
    let mut ctrt = Market::setup();
    let state = ctrt.get_state();
    assert_eq!(state.count, 0);
    assert_eq!(ctrt.increment(3), 3);
    assert_eq!(ctrt.increment(2), 5);
    let state = ctrt.get_state();
    assert_eq!(state.count, 5);
}

#[test]
fn testf_max_count() {
    let mut ctrt = Market::setup();
    assert_eq!(ctrt.increment(5), 5);
    assert_eq!(ctrt.try_increment(1), Err(Error::MaxCountReached));
}

#[test]
#[should_panic(expected = "HostError: Error(Contract, #43)")]
fn testf_max_count2() {
    let mut ctrt = Market::setup();
    assert_eq!(ctrt.increment(5), 5);
    let state = ctrt.get_state();
    assert_eq!(state.count, 5);
    ctrt.increment(1);
}

#[test]
fn prediction_missing_or_paused_market_refuses_first() {
    let mut ctrt = Market::setup();
    ctrt.try_set_game(ADMIN, 1, 0, 10, 0).unwrap();
    assert_eq!(Prediction::active_market_token(&ctrt.state), Some(TOKEN.to_string()));
    ctrt.state = None;
    assert_eq!(Prediction::active_market_token(&ctrt.state), None);
    assert_eq!(ctrt.try_bet(USER1, 1, 10, 0), Err(Error::StateNotInitialized));
    assert_eq!(ctrt.try_claim(USER1, 1), Err(Error::StateNotInitialized));
    let mut paused = Prediction::__constructor(ADMIN.to_string(), TOKEN.to_string(), "m".to_string());
    paused.status = Status::Paused;
    ctrt.state = Some(paused);
    assert_eq!(Prediction::active_market_token(&ctrt.state), None);
    assert_eq!(ctrt.try_claim(USER1, 1), Err(Error::StateStatusInvalid));
}

#[test]
fn prediction_counter_bound_over_calls() {
    let mut ctrt = Market::setup();
    for incr in [2u32, 2, 2, 1, 0, 5, u32::MAX] {
        if !Prediction::increment_aborts(&ctrt.state, incr) {
            let _ = ctrt.try_increment(incr);
        }
        ctrt.state = Some(Prediction::reset_admin(ctrt.state.clone(), USER2.to_string()).unwrap());
        assert!(ctrt.get_state().count <= MAX_COUNT);
    }
    assert_eq!(ctrt.get_state().count, 5);
}

#[test]
fn prediction_llc_line() {
    assert_eq!(llc("game", "None"), "\u{1b}[32m game: None\u{1b}[0m");
}

#[test]
fn prediction_state_missing() {
    assert_eq!(Prediction::get_state(None), Err(Error::StateNotInitialized));
    assert_eq!(Prediction::increment(None, 1), Err(Error::StateNotInitialized));
    assert_eq!(Prediction::reset_admin(None, USER1.to_string()), Err(Error::StateNotInitialized));
}

#[test]
fn prediction_counter_is_bounded() {
    let mut ctrt = Market::setup();
    assert_eq!(ctrt.increment(4), 4);
    assert_eq!(ctrt.try_increment(2), Err(Error::MaxCountReached));
    assert_eq!(ctrt.get_state().count, 4);
    assert_eq!(ctrt.get_state().count <= MAX_COUNT, true);
    assert!(Prediction::increment_aborts(&ctrt.state, u32::MAX - 3));
}

#[test]
fn prediction_reset_admin_replaces_admin() {
    let ctrt = Market::setup();
    let s = Prediction::reset_admin(ctrt.state.clone(), USER2.to_string()).unwrap();
    assert_eq!(s.admin, USER2);
    assert_eq!(s.token, TOKEN);
    assert_eq!(s.count, 0);
}

#[test]
fn prediction_user_errors() {
    let mut ctrt = Market::setup();
    assert_eq!(Prediction::get_user(None), Err(Error::UserDoesNotExist));
    assert_eq!(ctrt.try_deposit_token(USER1, 10), Err(Error::UserDoesNotExist));
    ctrt.now = 42;
    ctrt.add_user(USER1, "u1");
    assert_eq!(ctrt.get_user(USER1).updated_at, 42);
    assert_eq!(
        Prediction::add_user(ctrt.stored_user(USER1), USER1.to_string(), "again".to_string(), 43),
        Err(Error::UserExists)
    );
    assert_eq!(ctrt.try_deposit_token(USER1, INITBALC as u128 + 1), Err(Error::InsufficientBalance));
    Token::set(&mut ctrt.token.allowances, USER1, 5);
    assert_eq!(ctrt.try_deposit_token(USER1, 6), Err(Error::InsufficientAllowance));
    assert_eq!(ctrt.try_deposit_token(USER1, 5), Ok(0));
    assert_eq!(Prediction::delete_user(ctrt.stored_user(USER1)), Err(Error::UserBalanceExists));
    assert_eq!(ctrt.try_withdraw_token(USER1, 6), Err(Error::InsufficientBalance));
    // A deposit followed by the same withdrawal restores the balance.
    assert_eq!(ctrt.try_withdraw_token(USER1, 5), Ok(0));
    assert_eq!(ctrt.get_user(USER1).balance, 0);
    // The record stays registered after deletion.
    assert_eq!(ctrt.delete_user(USER1), 0);
    assert_eq!(ctrt.get_user(USER1).id, "u1");
}

#[test]
fn prediction_withdraw_beyond_user_balance_aborts() {
    let user = User { addr: USER1.to_string(), id: "u".to_string(), balance: 3, updated_at: 1 };
    assert!(Prediction::withdraw_token_aborts(4, 100, &Some(user.clone())));
    assert!(!Prediction::withdraw_token_aborts(3, 100, &Some(user)));
    assert!(Prediction::deposit_token_aborts(u128::MAX, i128::MAX, i128::MAX, &None));
}

#[test]
fn prediction_set_game_rules() {
    let mut ctrt = Market::setup();
    assert_eq!(ctrt.try_set_game(ADMIN, 1, 10, 10, 5), Err(Error::EndTimeTooSmall));
    ctrt.now = 50;
    assert_eq!(ctrt.try_set_game(ADMIN, 1, 0, 40, 5), Err(Error::AfterEndTime));
    assert_eq!(ctrt.try_set_game(ADMIN, 1, 0, 100, 5), Ok(0));
    let g = ctrt.get_game(1).unwrap();
    assert_eq!(g.values, vec![0, 0, 0, 0]);
    assert_eq!(g.numbers, vec![0, 0, 0, 0]);
    assert_eq!(g.status, Status::Active);
    assert_eq!(g.commission_rate, 5);
    assert_eq!(ctrt.try_set_game(USER1, 1, 0, 200, 5), Err(Error::GameAdminUnauthorized));
    assert_eq!(ctrt.try_set_game(ADMIN, 1, 0, 200, 5), Err(Error::BeforeEndTime));
    ctrt.now = 100;
    assert_eq!(ctrt.try_set_game(ADMIN, 1, 100, 200, 5), Err(Error::GameStatusInvalid));
}

#[test]
fn prediction_bet_errors() {
    let mut ctrt = Market::setup();
    assert_eq!(ctrt.try_bet(USER1, 1, 10, 0), Err(Error::GameDoesNotExist));
    ctrt.now = 10;
    ctrt.try_set_game(ADMIN, 1, 20, 30, 0).unwrap();
    assert_eq!(ctrt.try_bet(USER1, 1, 10, 0), Err(Error::BeforeStartTime));
    ctrt.now = 30;
    assert_eq!(ctrt.try_bet(USER1, 1, 10, 0), Err(Error::AfterEndTime));
    ctrt.now = 25;
    assert_eq!(ctrt.try_bet(USER1, 1, INITBALC as u128 + 1, 0), Err(Error::InsufficientBalance));
    Token::set(&mut ctrt.token.allowances, USER1, 5);
    assert_eq!(ctrt.try_bet(USER1, 1, 6, 0), Err(Error::InsufficientAllowance));
    let mut paused = ctrt.get_state();
    paused.status = Status::Paused;
    ctrt.state = Some(paused);
    assert_eq!(ctrt.try_bet(USER1, 1, 1, 0), Err(Error::StateStatusInvalid));
    assert!(!Prediction::bet_arguments_valid(0, 0));
    assert!(!Prediction::bet_arguments_valid(1, 4));
    assert!(!Prediction::bet_arguments_valid(u128::MAX, 0));
}

#[test]
fn prediction_bet_on_short_records() {
    let state = Prediction::__constructor(ADMIN.to_string(), TOKEN.to_string(), "m".to_string());
    let game = Game {
        game_admin: ADMIN.to_string(),
        time_start: 0,
        time_end: 10,
        commission_rate: 0,
        users_profit: 0,
        total_wins: 0,
        status: Status::Active,
        values: vec![0, 0],
        numbers: vec![0],
        outcome: vec![],
    };
    let r = Prediction::bet(&Some(state.clone()), 100, 100, Some(game.clone()), None, 1, 5, 2);
    assert_eq!(r.err(), Some(Error::GameValueInvalid));
    let r = Prediction::bet(&Some(state.clone()), 100, 100, Some(game.clone()), None, 1, 5, 1);
    assert_eq!(r.err(), Some(Error::GameNumberInvalid));
    let short_bet = Bet { bet_values: vec![1], claimed: false };
    let r = Prediction::bet(&Some(state.clone()), 100, 100, Some(game), Some(short_bet), 1, 5, 0);
    assert_eq!(r.map(|(_, b)| b), Ok(Bet { bet_values: vec![6], claimed: false }));
}

/// A whole round: two users bet, the admin settles with a commission, each
/// winner claims once; the payouts stay within what is left to users.
#[test]
fn prediction_round_pays_within_pool() {
    let mut ctrt = Market::setup();
    ctrt.try_set_game(ADMIN, 7, 0, 100, 25).unwrap();
    ctrt.now = 10;
    ctrt.try_bet(USER1, 7, 300, 0).unwrap();
    ctrt.try_bet(USER2, 7, 100, 0).unwrap();
    ctrt.try_bet(USER2, 7, 601, 2).unwrap();
    ctrt.try_bet(USER1, 7, 50, 2).unwrap();
    let g = ctrt.get_game(7).unwrap();
    assert_eq!(g.values, vec![400, 0, 651, 0]);
    assert_eq!(g.numbers, vec![2, 0, 2, 0]);

    assert_eq!(ctrt.try_settle(ADMIN, 7, vec![1, 0, 0, 0], VAULT), Err(Error::BeforeEndTime));
    ctrt.now = 100;
    assert_eq!(ctrt.try_claim(USER1, 7), Err(Error::GameStatusInvalid));
    assert_eq!(ctrt.try_settle(USER1, 7, vec![1, 0, 0, 0], VAULT), Err(Error::GameAdminUnauthorized));
    // pool 1051, fee ceil(1051 * 25 / 1000) = ceil(26.275) = 27
    assert_eq!(ctrt.try_settle(ADMIN, 7, vec![1, 0, 0, 0], VAULT), Ok(27));
    assert_eq!(ctrt.token.balance(VAULT), 27);
    let g = ctrt.get_game(7).unwrap();
    assert_eq!(g.status, Status::Settled);
    assert_eq!(g.users_profit, 1024);
    assert_eq!(g.total_wins, 400);
    assert_eq!(ctrt.try_settle(ADMIN, 7, vec![0, 0, 1, 0], VAULT), Err(Error::GameStatusInvalid));

    // user1: 1024 * 300 / 400 = 768; user2: 1024 * 100 / 400 = 256
    assert_eq!(ctrt.try_claim(USER1, 7), Ok(768));
    assert_eq!(ctrt.try_claim(USER1, 7), Err(Error::BetClaimedAlready));
    assert_eq!(ctrt.try_claim(USER2, 7), Ok(256));
    assert!(768 + 256 <= 1024);
    assert_eq!(ctrt.token.balance(MARKET), 1051 - 27 - 768 - 256);
    assert_eq!(ctrt.try_claim(VAULT, 7), Err(Error::InsufficientBalance));
}

#[test]
fn prediction_claim_errors() {
    let mut ctrt = Market::setup();
    assert_eq!(ctrt.try_claim(USER1, 3), Err(Error::GameDoesNotExist));
    ctrt.try_set_game(ADMIN, 3, 0, 10, 0).unwrap();
    ctrt.try_bet(USER1, 3, 10, 1).unwrap();
    ctrt.try_bet(USER2, 3, 10, 0).unwrap();
    assert_eq!(ctrt.try_claim(USER1, 3), Err(Error::AfterEndTime));
    ctrt.now = 10;
    ctrt.try_settle(ADMIN, 3, vec![1, 0, 0, 0], VAULT).unwrap();
    assert_eq!(ctrt.try_claim(ADMIN, 3), Err(Error::InsufficientBalance));
    Token::set(&mut ctrt.token.balances, ADMIN, CLAIM_MIN_HOLDING);
    assert_eq!(ctrt.try_claim(ADMIN, 3), Err(Error::InsufficientAllowance));
    Token::set(&mut ctrt.token.allowances, ADMIN, CLAIM_MIN_HOLDING);
    assert_eq!(ctrt.try_claim(ADMIN, 3), Err(Error::BetDoesNotExist));
    assert_eq!(ctrt.try_claim(USER1, 3), Err(Error::UserClaimsZero));
    assert_eq!(ctrt.try_claim(USER2, 3), Ok(20));
}

#[test]
fn prediction_settle_needs_state_and_funds() {
    let mut ctrt = Market::setup();
    ctrt.try_set_game(ADMIN, 1, 0, 10, 1000).unwrap();
    ctrt.try_bet(USER1, 1, 10, 0).unwrap();
    ctrt.now = 10;
    let game = ctrt.get_game(1);
    let admin = ADMIN.to_string();
    let r = Prediction::settle(game.clone(), &admin, 10, vec![1, 0, 0, 0], None, 100);
    assert_eq!(r.err(), Some(Error::StateNotInitialized));
    let r = Prediction::settle(game.clone(), &admin, 10, vec![1, 0, 0, 0], ctrt.state.clone(), 9);
    assert_eq!(r.err(), Some(Error::InsufficientBalance));
    let r = Prediction::settle(None, &admin, 10, vec![1], ctrt.state.clone(), 9);
    assert_eq!(r.err(), Some(Error::GameDoesNotExist));
    // A rate above a thousandth of a thousand leaves a fee above the pool.
    let mut g = game.unwrap();
    g.commission_rate = 1001;
    assert!(Prediction::settle_aborts(&Some(g.clone()), &admin, 10, &vec![1, 0, 0, 0]));
    g.commission_rate = 1000;
    assert!(Prediction::settle_aborts(&Some(g.clone()), &admin, 10, &vec![0, 0, 0, 0, 1]));
    assert!(!Prediction::settle_aborts(&Some(g), &admin, 10, &vec![1, 0, 0, 0]));
}

#[test]
fn prediction_error_codes() {
    let all = [
        (Error::AmountInvalid, 1),
        (Error::InsufficientBalance, 2),
        (Error::InsufficientAllowance, 3),
        (Error::StateNotInitialized, 10),
        (Error::StateStatusInvalid, 11),
        (Error::UserExists, 21),
        (Error::UserDoesNotExist, 22),
        (Error::UserBalanceExists, 23),
        (Error::UserClaimsZero, 24),
        (Error::GameDoesNotExist, 30),
        (Error::GameAdminUnauthorized, 31),
        (Error::GameStatusInvalid, 32),
        (Error::GameValueInvalid, 33),
        (Error::GameNumberInvalid, 34),
        (Error::GameOutcomeNone, 35),
        (Error::BeforeStartTime, 36),
        (Error::AfterEndTime, 37),
        (Error::BeforeEndTime, 38),
        (Error::EndTimeTooSmall, 39),
        (Error::BetDoesNotExist, 40),
        (Error::BetIndexInvalid, 41),
        (Error::BetValueInvalid, 42),
        (Error::BetClaimedAlready, 44),
        (Error::MaxCountReached, 43),
    ];
    for (e, c) in all {
        assert_eq!(e.code(), c);
    }
}
