// Scenarios of the escrow run against a small stand-in for the ledger: it
// keeps token balances, authorizations and published events, and carries out
// what each call decides, undoing everything when a call fails.
use std::collections::HashMap;

use escrow::{Address, EscrowContract, Error, Event, Match, MatchState, Outcome, Platform, Winner, MATCH_TTL_LEDGERS};

/// Why the ledger aborted a call.
#[derive(Debug, PartialEq)]
enum Abort {
    MissingAuth,
    InsufficientBalance,
}

/// A call's answer: its value, the contract's error, or the ledger's abort.
type Invoke<T> = Result<T, Result<Error, Abort>>;

struct Ledger {
    contract: EscrowContract,
    balances: HashMap<Vec<u8>, i128>,
    sequence: u32,
    events: Vec<Event>,
    mock_all: bool,
    authorized: Vec<Vec<u8>>,
    next: u32,
}

fn addr(name: &str) -> Address {
    Address::new(name.as_bytes().to_vec())
}

fn same(a: &Address, b: &Address) -> bool {
    a.key == b.key
}

impl Ledger {
    fn new() -> Ledger {
        Ledger {
            contract: EscrowContract::new(addr("CESCROW")),
            balances: HashMap::new(),
            sequence: 0,
            events: Vec::new(),
            mock_all: true,
            authorized: Vec::new(),
            next: 0,
        }
    }

    fn contract_id(&self) -> Address {
        self.contract.address.clone()
    }

    fn generate(&mut self) -> Address {
        self.next += 1;
        addr(&format!("GACCOUNT{}", self.next))
    }

    fn mint(&mut self, to: &Address, amount: i128) {
        *self.balances.entry(to.key.clone()).or_insert(0) += amount;
    }

    fn balance(&self, of: &Address) -> i128 {
        *self.balances.get(&of.key).unwrap_or(&0)
    }

    fn mock_auths(&mut self, who: &[&Address]) {
        self.mock_all = false;
        self.authorized = who.iter().map(|a| a.key.clone()).collect();
    }

    fn mock_all_auths(&mut self) {
        self.mock_all = true;
    }

    fn has_auth(&self, who: &Address) -> bool {
        self.mock_all || self.authorized.iter().any(|k| *k == who.key)
    }

    /// Carries out what a call decided, or undoes it when the ledger aborts.
    fn settle<T>(&mut self, before: EscrowContract, out: Outcome<T>) -> Invoke<T> {
        if let Some(who) = &out.auth {
            if !self.has_auth(who) {
                self.contract = before;
                return Err(Err(Abort::MissingAuth));
            }
        }
        let value = match out.result {
            Ok(v) => v,
            Err(e) => return Err(Ok(e)),
        };
        let saved = self.balances.clone();
        for t in out.transfers.iter() {
            let from = self.balance(&t.from);
            if from < t.amount {
                self.balances = saved;
                self.contract = before;
                return Err(Err(Abort::InsufficientBalance));
            }
            self.balances.insert(t.from.key.clone(), from - t.amount);
            self.mint(&t.to, t.amount);
        }
        self.events.extend(out.events);
        Ok(value)
    }

    fn try_initialize(&mut self, oracle: &Address, admin: &Address) -> Invoke<()> {
        if self.contract.is_initialized() {
            panic!("Contract already initialized");
        }
        let before = self.contract.copy();
        let out = self.contract.initialize(oracle.clone(), admin.clone());
        self.settle(before, out)
    }

    fn try_pause(&mut self) -> Invoke<()> {
        let before = self.contract.copy();
        let out = self.contract.pause();
        self.settle(before, out)
    }

    fn try_unpause(&mut self) -> Invoke<()> {
        let before = self.contract.copy();
        let out = self.contract.unpause();
        self.settle(before, out)
    }

    fn try_update_oracle(&mut self, oracle: &Address) -> Invoke<()> {
        let before = self.contract.copy();
        let out = self.contract.update_oracle(oracle.clone());
        self.settle(before, out)
    }

    fn try_create_match(
        &mut self,
        player1: &Address,
        player2: &Address,
        stake: i128,
        token: &Address,
        game_id: &str,
        platform: Platform,
    ) -> Invoke<u64> {
        let before = self.contract.copy();
        let out = self.contract.create_match(
            player1.clone(),
            player2.clone(),
            stake,
            token.clone(),
            game_id.as_bytes().to_vec(),
            platform,
            self.sequence,
        );
        self.settle(before, out)
    }

    fn try_deposit(&mut self, id: u64, player: &Address) -> Invoke<()> {
        let before = self.contract.copy();
        let out = self.contract.deposit(id, player.clone());
        self.settle(before, out)
    }

    fn try_submit_result(&mut self, id: u64, winner: Winner, caller: &Address) -> Invoke<()> {
        let before = self.contract.copy();
        let out = self.contract.submit_result(id, winner, caller.clone(), self.sequence);
        self.settle(before, out)
    }

    fn try_cancel_match(&mut self, id: u64, caller: &Address) -> Invoke<()> {
        let before = self.contract.copy();
        let out = self.contract.cancel_match(id, caller.clone(), self.sequence);
        self.settle(before, out)
    }

    fn try_expire_match(&mut self, id: u64) -> Invoke<()> {
        let before = self.contract.copy();
        let out = self.contract.expire_match(id, self.sequence);
        self.settle(before, out)
    }

    fn try_transfer_admin(&mut self, admin: &Address) -> Invoke<()> {
        let before = self.contract.copy();
        let out = self.contract.transfer_admin(admin.clone());
        self.settle(before, out)
    }

    fn try_propose_admin(&mut self, admin: &Address) -> Invoke<()> {
        let before = self.contract.copy();
        let out = self.contract.propose_admin(admin.clone());
        self.settle(before, out)
    }

    fn try_accept_admin(&mut self) -> Invoke<()> {
        let before = self.contract.copy();
        let out = self.contract.accept_admin();
        self.settle(before, out)
    }

    fn transfer_admin(&mut self, admin: &Address) {
        ok(self.try_transfer_admin(admin))
    }
    fn propose_admin(&mut self, admin: &Address) {
        ok(self.try_propose_admin(admin))
    }
    fn accept_admin(&mut self) {
        ok(self.try_accept_admin())
    }
    fn get_admin(&self) -> Address {
        ok(self.contract.get_admin().map_err(Ok))
    }
    fn is_paused(&self) -> bool {
        self.contract.is_paused()
    }
    fn get_pending_matches(&self) -> Vec<Match> {
        self.contract.get_pending_matches()
    }
    fn get_match_count(&self) -> u64 {
        self.contract.get_match_count()
    }
    fn get_player_matches(&self, player: &Address) -> Vec<u64> {
        self.contract.get_player_matches(player)
    }
    fn get_match_duration(&self, id: u64) -> Invoke<Option<u32>> {
        self.contract.get_match_duration(id).map_err(Ok)
    }

    fn try_get_match(&self, id: u64) -> Invoke<Match> {
        self.contract.get_match(id).map_err(Ok)
    }

    fn initialize(&mut self, oracle: &Address, admin: &Address) {
        ok(self.try_initialize(oracle, admin))
    }
    fn pause(&mut self) {
        ok(self.try_pause())
    }
    fn unpause(&mut self) {
        ok(self.try_unpause())
    }
    fn update_oracle(&mut self, oracle: &Address) {
        ok(self.try_update_oracle(oracle))
    }
    fn create_match(
        &mut self,
        player1: &Address,
        player2: &Address,
        stake: i128,
        token: &Address,
        game_id: &str,
        platform: Platform,
    ) -> u64 {
        ok(self.try_create_match(player1, player2, stake, token, game_id, platform))
    }
    fn deposit(&mut self, id: u64, player: &Address) {
        ok(self.try_deposit(id, player))
    }
    fn submit_result(&mut self, id: u64, winner: Winner, caller: &Address) {
        ok(self.try_submit_result(id, winner, caller))
    }
    fn cancel_match(&mut self, id: u64, caller: &Address) {
        ok(self.try_cancel_match(id, caller))
    }
    fn expire_match(&mut self, id: u64) {
        ok(self.try_expire_match(id))
    }
    fn get_match(&self, id: u64) -> Match {
        ok(self.try_get_match(id))
    }
    fn get_oracle(&self) -> Address {
        ok(self.contract.get_oracle().map_err(Ok))
    }
    fn is_funded(&self, id: u64) -> bool {
        ok(self.contract.is_funded(id).map_err(Ok))
    }
    fn get_escrow_balance(&self, id: u64) -> i128 {
        ok(self.contract.get_escrow_balance(id).map_err(Ok))
    }
    fn get_live_matches(&self) -> Vec<Match> {
        ok(self.contract.get_live_matches().map_err(Ok))
    }
}

/// The value of a call that must succeed; a contract error aborts the test
/// with its number.
fn ok<T>(r: Invoke<T>) -> T {
    match r {
        Ok(v) => v,
        Err(Ok(e)) => panic!("Error(Contract, #{})", e.code()),
        Err(Err(a)) => panic!("aborted: {:?}", a),
    }
}

struct Setup {
    env: Ledger,
    oracle: Address,
    player1: Address,
    player2: Address,
    token: Address,
    admin: Address,
}

fn setup() -> Setup {
    let mut env = Ledger::new();
    let admin = env.generate();
    let oracle = env.generate();
    let player1 = env.generate();
    let player2 = env.generate();
    let token = addr("CTOKEN");
    env.mint(&player1, 1000);
    env.mint(&player2, 1000);
    env.initialize(&oracle, &admin);
    Setup { env, oracle, player1, player2, token, admin }
}

fn created_event(events: &[Event]) -> Option<(u64, Address, Address, i128)> {
    events.iter().find_map(|e| match e {
        Event::MatchCreated { id, player1, player2, stake_amount } => {
            Some((*id, player1.clone(), player2.clone(), *stake_amount))
        }
        _ => None,
    })
}

fn activated_event(events: &[Event]) -> Option<u64> {
    events.iter().find_map(|e| match e {
        Event::MatchActivated { id } => Some(*id),
        _ => None,
    })
}

fn completed_event(events: &[Event]) -> Option<(u64, Winner)> {
    events.iter().find_map(|e| match e {
        Event::MatchCompleted { id, winner } => Some((*id, *winner)),
        _ => None,
    })
}

fn cancelled_event(events: &[Event]) -> Option<u64> {
    events.iter().find_map(|e| match e {
        Event::MatchCancelled { id } => Some(*id),
        _ => None,
    })
}

#[test]
fn test_create_match() {
    let Setup { mut env, player1, player2, token, .. } = setup();
    let id = env.create_match(&player1, &player2, 100, &token, "abc123", Platform::Lichess);
    assert_eq!(id, 0);
    let m = env.get_match(id);
    assert_eq!(m.state, MatchState::Pending);
}

#[test]
fn test_create_match_sets_created_ledger() {
    let Setup { mut env, player1, player2, token, .. } = setup();
    let id = env.create_match(&player1, &player2, 100, &token, "ledger_test", Platform::Lichess);
    let m = env.get_match(id);
    assert_eq!(m.created_ledger, env.sequence);
}

#[test]
fn test_get_match_returns_match_not_found_for_unknown_id() {
    let Setup { env, .. } = setup();
    let result = env.try_get_match(999);
    assert!(matches!(result, Err(Ok(Error::MatchNotFound))));
}

#[test]
fn test_deposit_and_activate() {
    let Setup { mut env, player1, player2, token, .. } = setup();
    let id = env.create_match(&player1, &player2, 100, &token, "abc123", Platform::Lichess);
    env.deposit(id, &player1);
    assert!(!env.is_funded(id));
    env.deposit(id, &player2);
    assert!(env.is_funded(id));
    assert_eq!(env.get_escrow_balance(id), 200);
}

#[test]
fn test_deposit_emits_activated_event() {
    let Setup { mut env, player1, player2, token, .. } = setup();
    let id = env.create_match(&player1, &player2, 100, &token, "game_activated", Platform::Lichess);
    env.deposit(id, &player1);
    assert!(
        activated_event(&env.events).is_none(),
        "activated event must not fire after first deposit"
    );
    env.deposit(id, &player2);
    let matched = activated_event(&env.events);
    assert!(matched.is_some(), "match activated event not emitted on second deposit");
    assert_eq!(matched.unwrap(), id);
}

#[test]
fn test_deposit_into_cancelled_match_returns_invalid_state() {
    let Setup { mut env, player1, player2, token, .. } = setup();
    let id = env.create_match(&player1, &player2, 100, &token, "cancelled_deposit_test", Platform::Lichess);
    env.cancel_match(id, &player1);
    assert_eq!(env.get_match(id).state, MatchState::Cancelled);
    let result = env.try_deposit(id, &player1);
    assert_eq!(
        result,
        Err(Ok(Error::MatchCancelled)),
        "deposit into cancelled match must return MatchCancelled"
    );
}

#[test]
fn test_payout_winner() {
    let Setup { mut env, oracle, player1, player2, token, .. } = setup();
    let id = env.create_match(&player1, &player2, 100, &token, "game1", Platform::Lichess);
    env.deposit(id, &player1);
    env.deposit(id, &player2);
    env.submit_result(id, Winner::Player1, &oracle);
    assert_eq!(env.balance(&player1), 1100);
    assert_eq!(env.get_match(id).state, MatchState::Completed);
}

#[test]
fn test_draw_refund() {
    let Setup { mut env, oracle, player1, player2, token, .. } = setup();
    let id = env.create_match(&player1, &player2, 100, &token, "game2", Platform::ChessDotCom);
    env.deposit(id, &player1);
    env.deposit(id, &player2);
    env.submit_result(id, Winner::Draw, &oracle);
    assert_eq!(env.balance(&player1), 1000);
    assert_eq!(env.balance(&player2), 1000);
}

#[test]
fn test_cancel_refunds_deposit() {
    let Setup { mut env, player1, player2, token, .. } = setup();
    let id = env.create_match(&player1, &player2, 100, &token, "game3", Platform::Lichess);
    env.deposit(id, &player1);
    env.cancel_match(id, &player1);
    assert_eq!(env.balance(&player1), 1000);
    assert_eq!(env.get_match(id).state, MatchState::Cancelled);
}

#[test]
fn test_create_match_emits_event() {
    let Setup { mut env, player1, player2, token, .. } = setup();
    let id = env.create_match(&player1, &player2, 100, &token, "game_ev2", Platform::Lichess);
    let matched = created_event(&env.events);
    assert!(matched.is_some(), "match created event not emitted");
    let (ev_id, ev_p1, ev_p2, ev_stake) = matched.unwrap();
    assert_eq!(ev_id, id);
    assert!(same(&ev_p1, &player1));
    assert!(same(&ev_p2, &player2));
    assert_eq!(ev_stake, 100);
}

#[test]
fn test_submit_result_emits_event() {
    let Setup { mut env, oracle, player1, player2, token, .. } = setup();
    let id = env.create_match(&player1, &player2, 100, &token, "game_evt", Platform::Lichess);
    env.deposit(id, &player1);
    env.deposit(id, &player2);
    env.submit_result(id, Winner::Player1, &oracle);
    let matched = completed_event(&env.events);
    assert!(matched.is_some(), "match completed event not emitted");
    assert_eq!(matched.unwrap(), (id, Winner::Player1));
}

#[test]
fn test_cancel_match_emits_event() {
    let Setup { mut env, player1, player2, token, .. } = setup();
    let id = env.create_match(&player1, &player2, 100, &token, "game_cancel", Platform::Lichess);
    env.cancel_match(id, &player1);
    let matched = cancelled_event(&env.events);
    assert!(matched.is_some(), "match cancelled event not emitted");
    assert_eq!(matched.unwrap(), id);
}

#[test]
fn tests_test_admin_pause_blocks_create_match() {
    let Setup { mut env, player1, player2, token, .. } = setup();
    env.pause();
    let result = env.try_create_match(&player1, &player2, 100, &token, "paused_game", Platform::Lichess);
    assert_eq!(result, Err(Ok(Error::ContractPaused)));
}

#[test]
fn tests_test_admin_unpause_allows_create_match() {
    let Setup { mut env, player1, player2, token, .. } = setup();
    env.pause();
    env.unpause();
    let id = env.create_match(&player1, &player2, 100, &token, "unpaused_game", Platform::Lichess);
    assert_eq!(id, 0);
}

#[test]
fn test_admin_pause_blocks_submit_result() {
    let Setup { mut env, oracle, player1, player2, token, .. } = setup();
    let id = env.create_match(&player1, &player2, 100, &token, "paused_submit_game", Platform::Lichess);
    env.deposit(id, &player1);
    env.deposit(id, &player2);
    assert_eq!(env.get_match(id).state, MatchState::Active);
    env.pause();
    let result = env.try_submit_result(id, Winner::Player1, &oracle);
    assert_eq!(
        result,
        Err(Ok(Error::ContractPaused)),
        "submit_result must be blocked when contract is paused"
    );
}

#[test]
#[should_panic(expected = "Error(Contract, #10)")]
fn test_create_match_with_zero_stake_fails() {
    let Setup { mut env, player1, player2, token, .. } = setup();
    let _id = env.create_match(&player1, &player2, 0, &token, "zero_stake_game", Platform::Lichess);
}

#[test]
fn test_player2_cancel_pending_match() {
    let Setup { mut env, player1, player2, token, .. } = setup();
    let id = env.create_match(&player1, &player2, 100, &token, "game_p2_cancel", Platform::Lichess);
    env.cancel_match(id, &player2);
    assert_eq!(env.get_match(id).state, MatchState::Cancelled);
}

#[test]
fn test_player2_cancel_refunds_both_players() {
    let Setup { mut env, player1, player2, token, .. } = setup();
    let id = env.create_match(&player1, &player2, 100, &token, "game_p2_cancel_refund", Platform::Lichess);
    env.deposit(id, &player1);
    env.deposit(id, &player2);
    let result = env.try_cancel_match(id, &player2);
    assert!(result.is_err());
}

#[test]
fn test_player2_cancel_only_player2_deposited() {
    let Setup { mut env, player1, player2, token, .. } = setup();
    let id = env.create_match(&player1, &player2, 100, &token, "game_p2_only", Platform::Lichess);
    env.deposit(id, &player2);
    env.cancel_match(id, &player2);
    assert_eq!(env.balance(&player2), 1000);
    assert_eq!(env.get_match(id).state, MatchState::Cancelled);
}

#[test]
fn test_non_oracle_cannot_submit_result() {
    let Setup { mut env, player1, player2, token, .. } = setup();
    let id = env.create_match(&player1, &player2, 100, &token, "game_unauth_oracle", Platform::Lichess);
    env.deposit(id, &player1);
    env.deposit(id, &player2);
    let impostor = env.generate();
    let result = env.try_submit_result(id, Winner::Player1, &impostor);
    assert_eq!(
        result,
        Err(Ok(Error::Unauthorized)),
        "expected Unauthorized when non-oracle calls submit_result"
    );
    assert_eq!(env.get_match(id).state, MatchState::Active);
    assert_eq!(env.balance(&player1), 900);
    assert_eq!(env.balance(&player2), 900);
}

#[test]
fn test_submit_result_on_cancelled_match_returns_invalid_state() {
    let Setup { mut env, oracle, player1, player2, token, .. } = setup();
    let id = env.create_match(&player1, &player2, 100, &token, "cancelled_game", Platform::Lichess);
    env.cancel_match(id, &player1);
    assert_eq!(env.get_match(id).state, MatchState::Cancelled);
    let result = env.try_submit_result(id, Winner::Player1, &oracle);
    assert_eq!(
        result,
        Err(Ok(Error::InvalidState)),
        "oracle must not be able to submit a result for a Cancelled match"
    );
}

#[test]
fn test_submit_result_on_completed_match_returns_invalid_state() {
    let Setup { mut env, oracle, player1, player2, token, .. } = setup();
    let id = env.create_match(&player1, &player2, 100, &token, "completed_game", Platform::Lichess);
    env.deposit(id, &player1);
    env.deposit(id, &player2);
    env.submit_result(id, Winner::Player1, &oracle);
    assert_eq!(env.get_match(id).state, MatchState::Completed);
    let result = env.try_submit_result(id, Winner::Player2, &oracle);
    assert_eq!(
        result,
        Err(Ok(Error::InvalidState)),
        "oracle must not be able to submit a result for an already Completed match"
    );
}

#[test]
fn test_cancel_active_match_fails_with_invalid_state() {
    let Setup { mut env, player1, player2, token, .. } = setup();
    let id = env.create_match(&player1, &player2, 100, &token, "game_active_cancel", Platform::Lichess);
    env.deposit(id, &player1);
    env.deposit(id, &player2);
    assert_eq!(env.get_match(id).state, MatchState::Active);
    let result = env.try_cancel_match(id, &player1);
    assert_eq!(
        result,
        Err(Ok(Error::InvalidState)),
        "expected InvalidState error when cancelling an Active match"
    );
    assert_eq!(env.get_match(id).state, MatchState::Active);
    assert_eq!(env.balance(&player1), 900);
    assert_eq!(env.balance(&player2), 900);
}

#[test]
#[should_panic(expected = "Error(Contract, #4)")]
fn test_unauthorized_player_cannot_cancel() {
    let Setup { mut env, player1, player2, token, .. } = setup();
    let id = env.create_match(&player1, &player2, 100, &token, "game_unauthorized", Platform::Lichess);
    let unauthorized = env.generate();
    env.cancel_match(id, &unauthorized);
}

#[test]
fn test_non_admin_cannot_pause() {
    let mut env = Ledger::new();
    let admin = env.generate();
    let non_admin = env.generate();
    let oracle = env.generate();
    env.initialize(&oracle, &admin);
    env.mock_auths(&[&non_admin]);
    let result = env.try_pause();
    assert!(result.is_err(), "non-admin should not be able to call pause()");
}

#[test]
fn test_non_admin_cannot_unpause() {
    let mut env = Ledger::new();
    let admin = env.generate();
    let non_admin = env.generate();
    let oracle = env.generate();
    env.initialize(&oracle, &admin);
    env.pause();
    env.mock_auths(&[&non_admin]);
    let result = env.try_unpause();
    assert!(result.is_err(), "non-admin should not be able to call unpause()");
}

#[test]
fn test_cancel_both_deposited_active_returns_invalid_state() {
    let Setup { mut env, player1, player2, token, .. } = setup();
    let id = env.create_match(&player1, &player2, 100, &token, "both_dep_cancel", Platform::Lichess);
    env.deposit(id, &player1);
    env.deposit(id, &player2);
    assert_eq!(env.get_match(id).state, MatchState::Active);
    let result = env.try_cancel_match(id, &player1);
    assert_eq!(
        result,
        Err(Ok(Error::InvalidState)),
        "cancelling an Active match must return InvalidState"
    );
    assert_eq!(env.balance(&player1), 900);
    assert_eq!(env.balance(&player2), 900);
}

#[test]
fn test_cancel_only_player1_deposited_refunds_player1() {
    let Setup { mut env, player1, player2, token, .. } = setup();
    let id = env.create_match(&player1, &player2, 100, &token, "p1_only_cancel", Platform::Lichess);
    env.deposit(id, &player1);
    assert_eq!(env.balance(&player1), 900);
    assert_eq!(env.balance(&player2), 1000);
    env.cancel_match(id, &player1);
    assert_eq!(env.balance(&player1), 1000, "player1 should be fully refunded");
    assert_eq!(env.balance(&player2), 1000, "player2 balance must not change");
    assert_eq!(env.get_match(id).state, MatchState::Cancelled);
}

#[test]
fn test_cancel_only_player2_deposited_refunds_player2() {
    let Setup { mut env, player1, player2, token, .. } = setup();
    let id = env.create_match(&player1, &player2, 100, &token, "p2_only_cancel2", Platform::Lichess);
    env.deposit(id, &player2);
    assert_eq!(env.balance(&player1), 1000);
    assert_eq!(env.balance(&player2), 900);
    env.cancel_match(id, &player2);
    assert_eq!(env.balance(&player2), 1000, "player2 should be fully refunded");
    assert_eq!(env.balance(&player1), 1000, "player1 balance must not change");
    assert_eq!(env.get_match(id).state, MatchState::Cancelled);
}

#[test]
fn test_get_escrow_balance_returns_zero_after_cancel_with_no_deposits() {
    let Setup { mut env, player1, player2, token, .. } = setup();
    let id = env.create_match(&player1, &player2, 100, &token, "no_deposit_cancel", Platform::Lichess);
    env.cancel_match(id, &player1);
    assert_eq!(env.get_escrow_balance(id), 0);
    assert_eq!(env.get_match(id).state, MatchState::Cancelled);
}

#[test]
fn test_cancel_completed_match_returns_invalid_state() {
    let Setup { mut env, oracle, player1, player2, token, .. } = setup();
    let id = env.create_match(&player1, &player2, 100, &token, "completed_cancel_game", Platform::Lichess);
    env.deposit(id, &player1);
    env.deposit(id, &player2);
    env.submit_result(id, Winner::Player1, &oracle);
    assert_eq!(env.get_match(id).state, MatchState::Completed);
    assert_eq!(env.balance(&player1), 1100);
    assert_eq!(env.balance(&player2), 900);
    let result = env.try_cancel_match(id, &player1);
    assert_eq!(
        result,
        Err(Ok(Error::InvalidState)),
        "cancel_match on a Completed match must return InvalidState"
    );
    assert_eq!(env.get_match(id).state, MatchState::Completed);
    assert_eq!(env.balance(&player1), 1100);
    assert_eq!(env.balance(&player2), 900);
}

#[test]
fn test_deposit_into_completed_match_returns_invalid_state() {
    let Setup { mut env, oracle, player1, player2, token, .. } = setup();
    let id = env.create_match(&player1, &player2, 100, &token, "completed_deposit_game", Platform::Lichess);
    env.deposit(id, &player1);
    env.deposit(id, &player2);
    env.submit_result(id, Winner::Player1, &oracle);
    assert_eq!(env.get_match(id).state, MatchState::Completed);
    assert_eq!(env.balance(&player1), 1100);
    assert_eq!(env.balance(&player2), 900);
    let result = env.try_deposit(id, &player1);
    assert_eq!(
        result,
        Err(Ok(Error::MatchCompleted)),
        "deposit into a Completed match must return MatchCompleted"
    );
    assert_eq!(env.balance(&player1), 1100);
    assert_eq!(env.balance(&player2), 900);
}

#[test]
fn test_pause_emits_event() {
    let Setup { mut env, .. } = setup();
    env.pause();
    assert!(
        env.events.iter().any(|e| matches!(e, Event::ContractPaused)),
        "paused event not emitted"
    );
}

#[test]
fn test_unpause_emits_event() {
    let Setup { mut env, .. } = setup();
    env.pause();
    env.unpause();
    assert!(
        env.events.iter().any(|e| matches!(e, Event::ContractUnpaused)),
        "unpaused event not emitted"
    );
}

#[test]
fn test_duplicate_game_id_rejected() {
    let Setup { mut env, player1, player2, token, .. } = setup();
    env.create_match(&player1, &player2, 100, &token, "unique_game_123", Platform::Lichess);
    let result = env.try_create_match(&player1, &player2, 100, &token, "unique_game_123", Platform::Lichess);
    assert_eq!(result, Err(Ok(Error::DuplicateGameId)));
}

#[test]
fn test_deposit_into_cancelled_match_returns_match_cancelled() {
    let Setup { mut env, player1, player2, token, .. } = setup();
    let id = env.create_match(&player1, &player2, 100, &token, "cancelled_deposit", Platform::Lichess);
    env.cancel_match(id, &player1);
    let result = env.try_deposit(id, &player2);
    assert_eq!(result, Err(Ok(Error::MatchCancelled)));
}

#[test]
fn test_deposit_into_completed_match_returns_match_completed() {
    let Setup { mut env, oracle, player1, player2, token, .. } = setup();
    let id = env.create_match(&player1, &player2, 100, &token, "completed_deposit", Platform::Lichess);
    env.deposit(id, &player1);
    env.deposit(id, &player2);
    env.submit_result(id, Winner::Player1, &oracle);
    let result = env.try_deposit(id, &player2);
    assert_eq!(result, Err(Ok(Error::MatchCompleted)));
}

#[test]
fn test_expire_match_before_timeout_fails() {
    let Setup { mut env, player1, player2, token, .. } = setup();
    let id = env.create_match(&player1, &player2, 100, &token, "expire_early", Platform::Lichess);
    env.deposit(id, &player1);
    let result = env.try_expire_match(id);
    assert_eq!(result, Err(Ok(Error::MatchNotExpired)));
}

#[test]
fn test_expire_match_refunds_depositor_after_timeout() {
    let Setup { mut env, player1, player2, token, .. } = setup();
    let id = env.create_match(&player1, &player2, 100, &token, "expire_refund", Platform::Lichess);
    env.deposit(id, &player1);
    let balance_before = env.balance(&player1);
    env.sequence += MATCH_TTL_LEDGERS;
    env.expire_match(id);
    let m = env.get_match(id);
    assert_eq!(m.state, MatchState::Cancelled);
    assert_eq!(env.balance(&player1), balance_before + 100);
}

#[test]
fn test_get_escrow_balance_stages() {
    let Setup { mut env, player1, player2, token, .. } = setup();
    let stake = 100_i128;
    let id = env.create_match(&player1, &player2, stake, &token, "balance_stages", Platform::Lichess);
    assert_eq!(env.get_escrow_balance(id), 0);
    env.deposit(id, &player1);
    assert_eq!(env.get_escrow_balance(id), stake);
    env.deposit(id, &player2);
    assert_eq!(env.get_escrow_balance(id), 2 * stake);
}

#[test]
fn test_submit_result_returns_not_funded_when_deposits_missing() {
    let mut env = Ledger::new();
    let admin = env.generate();
    let oracle = env.generate();
    let player1 = env.generate();
    let player2 = env.generate();
    let token = addr("CTOKEN");
    env.mint(&player1, 1000);
    env.mint(&player2, 1000);
    env.initialize(&oracle, &admin);
    let id = env.create_match(&player1, &player2, 100, &token, "not_funded_game", Platform::Lichess);
    // Force the stored match into the Active state without any deposit.
    let slot = env.contract.matches.iter().position(|m| m.id == id).unwrap();
    env.contract.matches[slot].state = MatchState::Active;
    let result = env.try_submit_result(id, Winner::Player1, &oracle);
    assert_eq!(
        result,
        Err(Ok(Error::NotFunded)),
        "submit_result must return NotFunded when deposits are missing despite Active state"
    );
}

#[test]
fn test_expire_match_emits_expired_event() {
    let Setup { mut env, player1, player2, token, .. } = setup();
    let id = env.create_match(&player1, &player2, 100, &token, "expire_event", Platform::Lichess);
    env.sequence += MATCH_TTL_LEDGERS;
    env.expire_match(id);
    assert!(
        env.events.iter().any(|e| matches!(e, Event::MatchExpired { .. })),
        "expired event not emitted"
    );
}

#[test]
fn test_create_match_with_oversized_game_id_fails() {
    let Setup { mut env, player1, player2, token, .. } = setup();
    let oversized_id = "aaaaaaaaaabbbbbbbbbbccccccccccddddddddddeeeeeeeeeeffffffffffffffff1";
    let result = env.try_create_match(&player1, &player2, 100, &token, oversized_id, Platform::Lichess);
    assert_eq!(
        result,
        Err(Ok(Error::InvalidGameId)),
        "create_match must reject game_id longer than 64 characters"
    );
}

#[test]
fn tests_test_deposit_blocked_when_paused() {
    let Setup { mut env, player1, player2, token, .. } = setup();
    let id = env.create_match(&player1, &player2, 100, &token, "paused_deposit_game", Platform::Lichess);
    env.pause();
    let result = env.try_deposit(id, &player1);
    assert_eq!(
        result,
        Err(Ok(Error::ContractPaused)),
        "deposit must return ContractPaused when the contract is paused"
    );
}

#[test]
fn test_expire_active_match_fails() {
    let Setup { mut env, player1, player2, token, .. } = setup();
    let id = env.create_match(&player1, &player2, 100, &token, "expire_active", Platform::Lichess);
    env.deposit(id, &player1);
    env.deposit(id, &player2);
    env.sequence += MATCH_TTL_LEDGERS;
    let result = env.try_expire_match(id);
    assert_eq!(result, Err(Ok(Error::InvalidState)));
}

#[test]
fn tests_test_submit_result_blocked_when_paused() {
    let Setup { mut env, oracle, player1, player2, token, .. } = setup();
    let id = env.create_match(&player1, &player2, 100, &token, "paused_submit_game", Platform::Lichess);
    env.deposit(id, &player1);
    env.deposit(id, &player2);
    env.pause();
    let result = env.try_submit_result(id, Winner::Player1, &oracle);
    assert_eq!(result, Err(Ok(Error::ContractPaused)));
}

#[test]
fn test_is_funded_false_after_only_player1_deposits() {
    let Setup { mut env, player1, player2, token, .. } = setup();
    let id = env.create_match(&player1, &player2, 100, &token, "partial_funded_game", Platform::Lichess);
    env.deposit(id, &player1);
    assert!(!env.is_funded(id), "is_funded must be false after only player1 deposits");
    env.deposit(id, &player2);
    assert!(env.is_funded(id), "is_funded must be true after both players deposit");
}

#[test]
fn test_deposit_flags_set_correctly_after_each_deposit() {
    let Setup { mut env, player1, player2, token, .. } = setup();
    let id = env.create_match(&player1, &player2, 100, &token, "deposit_flags_test", Platform::Lichess);
    let m = env.get_match(id);
    assert!(!m.player1_deposited, "player1_deposited must be false before any deposit");
    assert!(!m.player2_deposited, "player2_deposited must be false before any deposit");
    env.deposit(id, &player1);
    let m = env.get_match(id);
    assert!(m.player1_deposited, "player1_deposited must be true after player1 deposits");
    assert!(!m.player2_deposited, "player2_deposited must still be false after only player1 deposits");
    env.deposit(id, &player2);
    let m = env.get_match(id);
    assert!(m.player1_deposited, "player1_deposited must remain true after player2 deposits");
    assert!(m.player2_deposited, "player2_deposited must be true after player2 deposits");
}

#[test]
fn test_draw_refunds_exact_stake_and_zeroes_escrow_balance() {
    let Setup { mut env, oracle, player1, player2, token, .. } = setup();
    let stake: i128 = 100;
    let id = env.create_match(&player1, &player2, stake, &token, "draw_escrow_zero", Platform::Lichess);
    env.deposit(id, &player1);
    env.deposit(id, &player2);
    assert_eq!(env.get_escrow_balance(id), 2 * stake);
    let p1_before = env.balance(&player1);
    let p2_before = env.balance(&player2);
    env.submit_result(id, Winner::Draw, &oracle);
    assert_eq!(env.balance(&player1), p1_before + stake, "player1 must receive exactly stake_amount on draw");
    assert_eq!(env.balance(&player2), p2_before + stake, "player2 must receive exactly stake_amount on draw");
    assert_eq!(env.get_escrow_balance(id), 0, "escrow balance must be 0 after draw payout");
    assert_eq!(env.get_match(id).state, MatchState::Completed);
}

#[test]
fn test_match_count_increments_and_get_match_returns_correct_data() {
    let Setup { mut env, player1, player2, token, .. } = setup();
    let game_ids = ["count_game_0", "count_game_1", "count_game_2", "count_game_3", "count_game_4"];
    let stakes: [i128; 5] = [10, 20, 30, 40, 50];
    for i in 0..5_u64 {
        let id = env.create_match(
            &player1,
            &player2,
            stakes[i as usize],
            &token,
            game_ids[i as usize],
            Platform::Lichess,
        );
        assert_eq!(id, i, "create_match must return sequential ID {i}");
    }
    let count: u64 = env.contract.match_count;
    assert_eq!(count, 5, "MatchCount must equal 5 after creating 5 matches");
    for i in 0..5_u64 {
        let m = env.get_match(i);
        assert_eq!(m.id, i, "match.id must equal {i}");
        assert!(same(&m.player1, &player1), "match.player1 mismatch for id {i}");
        assert!(same(&m.player2, &player2), "match.player2 mismatch for id {i}");
        assert_eq!(m.stake_amount, stakes[i as usize], "match.stake_amount mismatch for id {i}");
        assert_eq!(m.game_id, game_ids[i as usize].as_bytes().to_vec(), "match.game_id mismatch for id {i}");
        assert_eq!(m.platform, Platform::Lichess, "match.platform mismatch for id {i}");
        assert_eq!(m.state, MatchState::Pending, "match.state must be Pending for id {i}");
    }
}

#[test]
fn test_create_match_rejects_contract_address_as_player2() {
    let Setup { mut env, player1, token, .. } = setup();
    let contract_id = env.contract_id();
    let result = env.try_create_match(&player1, &contract_id, 100, &token, "invalid_player2", Platform::Lichess);
    assert_eq!(result, Err(Ok(Error::InvalidPlayers)));
}

#[test]
fn test_cancel_match_sets_completed_ledger() {
    let Setup { mut env, player1, player2, token, .. } = setup();
    let id = env.create_match(&player1, &player2, 100, &token, "cancel_ledger_test", Platform::Lichess);
    let ledger_before = env.sequence;
    env.cancel_match(id, &player1);
    let ledger_after = env.sequence;
    let m = env.get_match(id);
    assert!(m.completed_ledger.is_some());
    let completed = m.completed_ledger.unwrap();
    assert!(completed >= ledger_before && completed <= ledger_after);
}

#[test]
fn test_expire_match_sets_completed_ledger() {
    let Setup { mut env, player1, player2, token, .. } = setup();
    let id = env.create_match(&player1, &player2, 100, &token, "expire_ledger_test", Platform::Lichess);
    env.deposit(id, &player1);
    env.sequence += 518_400;
    let ledger_before = env.sequence;
    env.expire_match(id);
    let ledger_after = env.sequence;
    let m = env.get_match(id);
    assert!(m.completed_ledger.is_some());
    let completed = m.completed_ledger.unwrap();
    assert!(completed >= ledger_before && completed <= ledger_after);
}

#[test]
fn test_get_live_matches_returns_only_fully_funded_matches() {
    let Setup { mut env, player1, player2, token, .. } = setup();
    let _pending_id = env.create_match(&player1, &player2, 100, &token, "pending_match", Platform::Lichess);
    let active_id = env.create_match(&player1, &player2, 100, &token, "active_match", Platform::Lichess);
    env.deposit(active_id, &player1);
    env.deposit(active_id, &player2);
    let live_matches = env.get_live_matches();
    assert_eq!(live_matches.len(), 1);
    assert_eq!(live_matches[0].id, active_id);
}

#[test]
fn test_pause_on_uninitialized_contract_returns_unauthorized() {
    let mut env = Ledger::new();
    let result = env.try_pause();
    assert_eq!(result, Err(Ok(Error::Unauthorized)));
}

#[test]
fn admin_test_admin_pause_blocks_create_match() {
    let Setup { mut env, player1, player2, token, .. } = setup();
    env.pause();
    let result = env.try_create_match(&player1, &player2, 100, &token, "paused_game", Platform::Lichess);
    assert_eq!(result, Err(Ok(Error::ContractPaused)));
}

#[test]
fn admin_test_admin_unpause_allows_create_match() {
    let Setup { mut env, player1, player2, token, .. } = setup();
    env.pause();
    env.unpause();
    let id = env.create_match(&player1, &player2, 100, &token, "unpaused_game", Platform::Lichess);
    assert_eq!(id, 0);
}

#[test]
fn test_paused_contract_rejects_deposit() {
    let Setup { mut env, player1, player2, token, .. } = setup();
    let id = env.create_match(&player1, &player2, 100, &token, "game123", Platform::Lichess);
    env.pause();
    let result = env.try_deposit(id, &player1);
    assert_eq!(result, Err(Ok(Error::ContractPaused)));
}

#[test]
fn admin_test_deposit_blocked_when_paused() {
    let Setup { mut env, player1, player2, token, .. } = setup();
    let id = env.create_match(&player1, &player2, 100, &token, "paused_deposit_game", Platform::Lichess);
    env.pause();
    let result = env.try_deposit(id, &player1);
    assert_eq!(
        result,
        Err(Ok(Error::ContractPaused)),
        "deposit must return ContractPaused when the contract is paused"
    );
}

#[test]
fn test_deposit_by_unauthorized_address_returns_unauthorized() {
    let Setup { mut env, player1, player2, token, .. } = setup();
    let id = env.create_match(&player1, &player2, 100, &token, "unauth_deposit_game", Platform::Lichess);
    let unauthorized_address = env.generate();
    let result = env.try_deposit(id, &unauthorized_address);
    assert_eq!(result, Err(Ok(Error::Unauthorized)));
}

#[test]
fn admin_test_submit_result_blocked_when_paused() {
    let Setup { mut env, player1, player2, token, .. } = setup();
    let id = env.create_match(&player1, &player2, 100, &token, "paused_submit_game", Platform::Lichess);
    env.deposit(id, &player1);
    env.deposit(id, &player2);
    env.pause();
    let oracle = env.get_oracle();
    let result = env.try_submit_result(id, Winner::Player1, &oracle);
    assert_eq!(result, Err(Ok(Error::ContractPaused)));
}

#[test]
fn test_admin_can_rotate_oracle() {
    let Setup { mut env, .. } = setup();
    let next_oracle = env.generate();
    env.update_oracle(&next_oracle);
    assert!(same(&env.get_oracle(), &next_oracle));
    let attacker = env.generate();
    let rotate_to = env.generate();
    env.mock_auths(&[&attacker]);
    assert!(env.try_update_oracle(&rotate_to).is_err());
}

#[test]
fn test_update_oracle_rejects_self_address() {
    let Setup { mut env, .. } = setup();
    let contract_id = env.contract_id();
    let result = env.try_update_oracle(&contract_id);
    assert_eq!(result, Err(Ok(Error::InvalidAddress)));
}

#[test]
fn test_old_oracle_rejected_after_rotation() {
    let Setup { mut env, oracle, player1, player2, token, .. } = setup();
    let new_oracle = env.generate();
    env.update_oracle(&new_oracle);
    let id = env.create_match(&player1, &player2, 100, &token, "oracle_rotation", Platform::Lichess);
    env.deposit(id, &player1);
    env.deposit(id, &player2);
    env.mock_auths(&[&oracle]);
    let current = env.get_oracle();
    let result = env.try_submit_result(id, Winner::Player2, &current);
    assert!(matches!(result, Err(Err(_))), "old oracle must not be able to submit results");
    env.mock_auths(&[&new_oracle]);
    let current = env.get_oracle();
    env.submit_result(id, Winner::Player2, &current);
    assert_eq!(env.get_match(id).state, MatchState::Completed);
}

#[test]
fn test_non_oracle_unauthorized_even_when_paused() {
    let Setup { mut env, player1, player2, token, .. } = setup();
    let id = env.create_match(&player1, &player2, 100, &token, "paused_unauth", Platform::Lichess);
    env.deposit(id, &player1);
    env.deposit(id, &player2);
    env.pause();
    let non_oracle = env.generate();
    env.mock_auths(&[&non_oracle]);
    let current = env.get_oracle();
    let result = env.try_submit_result(id, Winner::Player1, &current);
    assert!(
        matches!(
            result,
            Err(Err(_)) | Err(Ok(Error::Unauthorized)) | Err(Ok(Error::ContractPaused))
        ),
        "expected auth failure (Abort, Unauthorized, or ContractPaused) for non-oracle caller on paused contract"
    );
}

#[test]
fn test_update_oracle_routes_submit_result() {
    let Setup { mut env, oracle: oracle_old, player1, player2, token, .. } = setup();
    let oracle_new = env.generate();
    env.update_oracle(&oracle_new);
    assert!(same(&env.get_oracle(), &oracle_new));
    let id1 = env.create_match(&player1, &player2, 100, &token, "oracle_new_match", Platform::Lichess);
    env.deposit(id1, &player1);
    env.deposit(id1, &player2);
    env.mock_auths(&[&oracle_new]);
    let current = env.get_oracle();
    env.submit_result(id1, Winner::Player1, &current);
    assert_eq!(env.get_match(id1).state, MatchState::Completed);
    env.mock_all_auths();
    env.mint(&player1, 100);
    env.mint(&player2, 100);
    let id2 = env.create_match(&player1, &player2, 100, &token, "oracle_old_match", Platform::Lichess);
    env.deposit(id2, &player1);
    env.deposit(id2, &player2);
    env.mock_auths(&[&oracle_old]);
    let current = env.get_oracle();
    let result = env.try_submit_result(id2, Winner::Player1, &current);
    assert!(matches!(result, Err(Err(_))), "old oracle must be rejected after rotation");
}

#[test]
fn test_submit_result_from_non_oracle_returns_unauthorized() {
    let Setup { mut env, player1, player2, token, .. } = setup();
    let id = env.create_match(&player1, &player2, 100, &token, "non_oracle_submit_game", Platform::Lichess);
    env.deposit(id, &player1);
    env.deposit(id, &player2);
    let non_oracle = env.generate();
    env.mock_auths(&[&non_oracle]);
    let current = env.get_oracle();
    let result = env.try_submit_result(id, Winner::Player1, &current);
    assert!(
        matches!(result, Err(Err(_)) | Err(Ok(Error::Unauthorized))),
        "expected auth failure for non-oracle caller"
    );
}

#[test]
fn test_get_oracle_returns_initialized_address() {
    let Setup { env, oracle, .. } = setup();
    assert!(same(&env.get_oracle(), &oracle));
}

#[test]
fn test_get_oracle_returns_updated_address_after_update_oracle() {
    let Setup { mut env, .. } = setup();
    let new_oracle = env.generate();
    env.update_oracle(&new_oracle);
    assert!(same(&env.get_oracle(), &new_oracle));
}

#[test]
fn test_update_oracle_rejects_non_admin_caller() {
    let Setup { mut env, .. } = setup();
    let attacker = env.generate();
    let new_oracle = env.generate();
    env.mock_auths(&[&attacker]);
    let result = env.try_update_oracle(&new_oracle);
    assert!(result.is_err(), "update_oracle must reject a non-admin caller");
}

#[test]
fn test_get_match_duration_after_cancelled_match() {
    let Setup { mut env, player1, player2, token, .. } = setup();
    let id = env.create_match(&player1, &player2, 100, &token, "duration_cancel_test", Platform::Lichess);
    env.cancel_match(id, &player1);
    let duration = env.get_match_duration(id).unwrap();
    let m = env.get_match(id);
    assert_eq!(duration, Some(m.completed_ledger.unwrap().saturating_sub(m.created_ledger)));
    assert!(duration.is_some());
}

#[test]
fn test_get_match_duration_after_completion() {
    let Setup { mut env, oracle, player1, player2, token, .. } = setup();
    let id = env.create_match(&player1, &player2, 100, &token, "duration_complete_test", Platform::Lichess);
    env.deposit(id, &player1);
    env.deposit(id, &player2);
    env.submit_result(id, Winner::Player1, &oracle);
    let duration = env.get_match_duration(id).unwrap();
    let m = env.get_match(id);
    assert_eq!(duration, Some(m.completed_ledger.unwrap().saturating_sub(m.created_ledger)));
    assert!(duration.is_some());
}

#[test]
fn test_transfer_admin_pause_auth() {
    let Setup { mut env, admin, .. } = setup();
    let new_admin = env.generate();
    env.transfer_admin(&new_admin);
    assert!(same(&env.get_admin(), &new_admin));
    env.mock_auths(&[&admin]);
    let result = env.try_pause();
    assert!(result.is_err(), "old admin should be rejected from pause after transfer");
    env.mock_auths(&[&new_admin]);
    env.pause();
}

#[test]
fn test_is_paused_cycle() {
    let Setup { mut env, .. } = setup();
    assert!(!env.is_paused());
    env.pause();
    assert!(env.is_paused());
    env.unpause();
    assert!(!env.is_paused());
}

#[test]
fn test_propose_admin_stores_pending_admin_and_emits_event() {
    let Setup { mut env, .. } = setup();
    let new_admin = env.generate();
    env.propose_admin(&new_admin);
    let matched = env.events.iter().find_map(|e| match e {
        Event::AdminProposed { admin } => Some(admin.clone()),
        _ => None,
    });
    assert!(matched.is_some(), "propose event not emitted");
    assert!(same(&matched.unwrap(), &new_admin));
}

#[test]
fn test_accept_admin_finalizes_transfer_and_emits_event() {
    let Setup { mut env, .. } = setup();
    let new_admin = env.generate();
    env.propose_admin(&new_admin);
    env.mock_auths(&[&new_admin]);
    env.accept_admin();
    assert!(same(&env.get_admin(), &new_admin));
    let matched = env.events.iter().find_map(|e| match e {
        Event::AdminTransferred { admin } => Some(admin.clone()),
        _ => None,
    });
    assert!(matched.is_some(), "xfer event not emitted");
    assert!(same(&matched.unwrap(), &new_admin));
}

#[test]
fn test_current_admin_retains_privileges_after_propose_before_accept() {
    let Setup { mut env, admin, .. } = setup();
    let new_admin = env.generate();
    env.propose_admin(&new_admin);
    env.mock_auths(&[&admin]);
    env.pause();
    assert!(env.is_paused());
}

#[test]
fn test_second_pending_admin_replaces_first_proposal() {
    let Setup { mut env, .. } = setup();
    let pending_admin_a = env.generate();
    let pending_admin_b = env.generate();
    env.propose_admin(&pending_admin_a);
    env.propose_admin(&pending_admin_b);
    env.mock_auths(&[&pending_admin_a]);
    let result = env.try_accept_admin();
    assert!(result.is_err(), "pending_admin_a should not be able to accept");
    env.mock_auths(&[&pending_admin_b]);
    env.accept_admin();
    assert!(same(&env.get_admin(), &pending_admin_b));
}

#[test]
fn test_player_history_index_excludes_unrelated_matches() {
    let Setup { mut env, player1, player2, token, .. } = setup();
    let player3 = env.generate();
    let player4 = env.generate();
    env.mint(&player3, 1000);
    env.mint(&player4, 1000);
    let match_id_1 = env.create_match(&player1, &player2, 100, &token, "game_1", Platform::Lichess);
    let match_id_2 = env.create_match(&player1, &player2, 100, &token, "game_2", Platform::Lichess);
    let match_id_3 = env.create_match(&player3, &player4, 100, &token, "game_3", Platform::Lichess);
    let match_id_4 = env.create_match(&player3, &player4, 100, &token, "game_4", Platform::Lichess);
    let player1_matches = env.get_player_matches(&player1);
    assert_eq!(player1_matches.len(), 2);
    assert_eq!(player1_matches[0], match_id_1);
    assert_eq!(player1_matches[1], match_id_2);
    let player2_matches = env.get_player_matches(&player2);
    assert_eq!(player2_matches.len(), 2);
    assert_eq!(player2_matches[0], match_id_1);
    assert_eq!(player2_matches[1], match_id_2);
    let player3_matches = env.get_player_matches(&player3);
    assert_eq!(player3_matches.len(), 2);
    assert_eq!(player3_matches[0], match_id_3);
    assert_eq!(player3_matches[1], match_id_4);
    let player4_matches = env.get_player_matches(&player4);
    assert_eq!(player4_matches.len(), 2);
    assert_eq!(player4_matches[0], match_id_3);
    assert_eq!(player4_matches[1], match_id_4);
}

#[test]
fn test_get_player_matches_preserves_insertion_order() {
    let Setup { mut env, player1, player2, token, .. } = setup();
    let match_id_1 = env.create_match(&player1, &player2, 100, &token, "game_1", Platform::Lichess);
    let match_id_2 = env.create_match(&player1, &player2, 100, &token, "game_2", Platform::Lichess);
    let match_id_3 = env.create_match(&player1, &player2, 100, &token, "game_3", Platform::Lichess);
    let match_id_4 = env.create_match(&player1, &player2, 100, &token, "game_4", Platform::Lichess);
    let player1_matches = env.get_player_matches(&player1);
    assert_eq!(player1_matches.len(), 4);
    assert_eq!(player1_matches[0], match_id_1);
    assert_eq!(player1_matches[1], match_id_2);
    assert_eq!(player1_matches[2], match_id_3);
    assert_eq!(player1_matches[3], match_id_4);
}

#[test]
fn test_get_match_count_increments_correctly() {
    let Setup { mut env, player1, player2, token, .. } = setup();
    assert_eq!(env.get_match_count(), 0);
    env.create_match(&player1, &player2, 100, &token, "game_1", Platform::Lichess);
    assert_eq!(env.get_match_count(), 1);
    env.create_match(&player1, &player2, 100, &token, "game_2", Platform::Lichess);
    assert_eq!(env.get_match_count(), 2);
    env.create_match(&player1, &player2, 100, &token, "game_3", Platform::Lichess);
    assert_eq!(env.get_match_count(), 3);
    env.create_match(&player1, &player2, 100, &token, "game_4", Platform::Lichess);
    assert_eq!(env.get_match_count(), 4);
}


#[test]
fn test_get_pending_matches_returns_only_pending_matches() {
    let Setup { mut env, player1, player2, token, .. } = setup();
    let pending_id = env.create_match(&player1, &player2, 100, &token, "pending_match", Platform::Lichess);
    let active_id = env.create_match(&player1, &player2, 100, &token, "active_match", Platform::Lichess);
    env.deposit(active_id, &player1);
    env.deposit(active_id, &player2);
    let pending_matches = env.get_pending_matches();
    assert_eq!(pending_matches.len(), 1);
    assert_eq!(pending_matches[0].id, pending_id);
    let active_matches = env.get_live_matches();
    assert_eq!(active_matches.len(), 1);
    assert_eq!(active_matches[0].id, active_id);
}

#[test]
fn test_match_transitions_from_pending_to_active_matches() {
    let Setup { mut env, player1, player2, token, .. } = setup();
    let match_id = env.create_match(&player1, &player2, 100, &token, "transition_match", Platform::Lichess);
    env.deposit(match_id, &player1);
    let pending_matches = env.get_pending_matches();
    assert_eq!(pending_matches.len(), 1);
    assert_eq!(pending_matches[0].id, match_id);
    let active_matches = env.get_live_matches();
    assert_eq!(active_matches.len(), 0);
    env.deposit(match_id, &player2);
    let pending_matches = env.get_pending_matches();
    assert_eq!(pending_matches.len(), 0);
    let active_matches = env.get_live_matches();
    assert_eq!(active_matches.len(), 1);
    assert_eq!(active_matches[0].id, match_id);
}

// This scenario expects `AlreadyExists` for a reused game id, while the code
// and `test_duplicate_game_id_rejected` answer `DuplicateGameId`; the latter
// is asserted here.
#[test]
fn test_game_id_reservation_survives_ledger_advancement() {
    let Setup { mut env, player1, player2, token, .. } = setup();
    let _match_id_1 = env.create_match(&player1, &player2, 100, &token, "game_123", Platform::Lichess);
    env.sequence += 100;
    let result = env.try_create_match(&player1, &player2, 100, &token, "game_123", Platform::Lichess);
    assert_eq!(result, Err(Ok(Error::DuplicateGameId)));
}

// The active matches are read with `get_live_matches`. This scenario cancels
// an active match; the code and `test_cancel_active_match_fails_with_invalid_state`
// refuse that with `InvalidState`, so the refused cancel is asserted and the
// cancelled-for match stays active alongside the third.
#[test]
fn test_active_index_correct_after_concurrent_cancellations_and_completions() {
    let Setup { mut env, oracle, player1, player2, token, .. } = setup();
    let match_id_1 = env.create_match(&player1, &player2, 100, &token, "game_1", Platform::Lichess);
    let match_id_2 = env.create_match(&player1, &player2, 100, &token, "game_2", Platform::Lichess);
    let match_id_3 = env.create_match(&player1, &player2, 100, &token, "game_3", Platform::Lichess);
    env.deposit(match_id_1, &player1);
    env.deposit(match_id_1, &player2);
    env.deposit(match_id_2, &player1);
    env.deposit(match_id_2, &player2);
    env.deposit(match_id_3, &player1);
    env.deposit(match_id_3, &player2);
    assert_eq!(env.try_cancel_match(match_id_1, &player1), Err(Ok(Error::InvalidState)));
    env.submit_result(match_id_2, Winner::Player1, &oracle);
    let active_matches = env.get_live_matches();
    assert_eq!(active_matches.len(), 2);
    assert_eq!(active_matches[0].id, match_id_1);
    assert_eq!(active_matches[1].id, match_id_3);
}

// The active matches are read with `get_live_matches`. Cancelling the active
// second match is refused with `InvalidState` (as the code and the other
// cancel tests require), so all four stay active, in creation order.
#[test]
fn test_active_index_ordering_stable_after_cancellation_gaps() {
    let Setup { mut env, player1, player2, token, .. } = setup();
    let match_id_1 = env.create_match(&player1, &player2, 100, &token, "game_1", Platform::Lichess);
    let match_id_2 = env.create_match(&player1, &player2, 100, &token, "game_2", Platform::Lichess);
    let match_id_3 = env.create_match(&player1, &player2, 100, &token, "game_3", Platform::Lichess);
    let match_id_4 = env.create_match(&player1, &player2, 100, &token, "game_4", Platform::Lichess);
    for match_id in [match_id_1, match_id_2, match_id_3, match_id_4].iter() {
        env.deposit(*match_id, &player1);
        env.deposit(*match_id, &player2);
    }
    assert_eq!(env.try_cancel_match(match_id_2, &player1), Err(Ok(Error::InvalidState)));
    let active_matches = env.get_live_matches();
    assert_eq!(active_matches.len(), 4);
    assert_eq!(active_matches[0].id, match_id_1);
    assert_eq!(active_matches[1].id, match_id_2);
    assert_eq!(active_matches[2].id, match_id_3);
    assert_eq!(active_matches[3].id, match_id_4);
}

// The active matches are read with `get_live_matches`. Twenty-five stakes of
// 100 need 2500 per player, more than the 1000 minted in the setup, so each
// player is minted the 1500 missing before depositing.
#[test]
fn test_active_pagination_handles_empty_and_partial_pages() {
    let Setup { mut env, player1, player2, token, .. } = setup();
    env.mint(&player1, 1500);
    env.mint(&player2, 1500);
    let mut match_ids = Vec::new();
    for i in 0..25 {
        let match_id = env.create_match(&player1, &player2, 100, &token, &format!("game_{}", i), Platform::Lichess);
        match_ids.push(match_id);
    }
    for match_id in match_ids.iter() {
        env.deposit(*match_id, &player1);
        env.deposit(*match_id, &player2);
    }
    let all_active = env.get_live_matches();
    assert_eq!(all_active.len(), 25);
    for (i, match_id) in match_ids.iter().enumerate() {
        assert_eq!(all_active[i].id, *match_id);
    }
}
