use vstd::prelude::*;

use crate::effects::{done, refuse, refused, Event, EventView, Outcome, Receipt, Transfer, TransferView};
use crate::errors::Error;
use crate::state::{
    contains_bytes, distinct_ids, find_slot, id_set, lemma_append, lemma_id_set_push, lemma_replace,
    lemma_slot, match_map,
};
use crate::types::{copy_bytes, copy_opt, opt_view, Address, Match, MatchState, MatchView, Platform, Winner};

verus! {

/// How many ledgers a pending match must wait before anyone may expire it
/// (about 30 days at 5 seconds a ledger).
pub const MATCH_TTL_LEDGERS: u32 = 518_400;

/// The longest game id accepted, in bytes. Lichess ids have 8 characters and
/// Chess.com ids about 7 to 12 digits.
pub const MAX_GAME_ID_LEN: usize = 64;

/// The stored state of the escrow contract.
///
/// `matches` holds the stored matches, each under its own `id`; `game_ids`
/// holds every game id that a match has reserved; `match_count` is the id
/// that the next match will get. `address` is the escrow's own address.
pub struct EscrowContract {
    pub address: Address,
    pub oracle: Option<Address>,
    pub admin: Option<Address>,
    pub pending_admin: Option<Address>,
    pub paused: bool,
    pub match_count: u64,
    pub matches: Vec<Match>,
    pub game_ids: Vec<Vec<u8>>,
}

/// The stored state of the escrow as plain values: matches form a map from
/// id to match, and the reserved game ids a set.
#[verifier::ext_equal]
pub struct EscrowView {
    pub address: Seq<u8>,
    pub oracle: Option<Seq<u8>>,
    pub admin: Option<Seq<u8>>,
    pub pending_admin: Option<Seq<u8>>,
    pub paused: bool,
    pub match_count: u64,
    pub matches: Map<u64, MatchView>,
    pub game_ids: Set<Seq<u8>>,
}

impl View for EscrowContract {
    type V = EscrowView;

    open spec fn view(&self) -> EscrowView {
        EscrowView {
            address: self.address@,
            oracle: opt_view(self.oracle),
            admin: opt_view(self.admin),
            pending_admin: opt_view(self.pending_admin),
            paused: self.paused,
            match_count: self.match_count,
            matches: match_map(self.matches@),
            game_ids: id_set(self.game_ids@),
        }
    }
}

/// Whether a match is over: completed or cancelled.
pub open spec fn is_terminal(st: MatchState) -> bool {
    st == MatchState::Completed || st == MatchState::Cancelled
}

/// How many of the two players have deposited.
pub open spec fn deposit_count(m: MatchView) -> int {
    (if m.player1_deposited { 1int } else { 0int }) + (if m.player2_deposited { 1int } else { 0int })
}

/// What the escrow holds for a match: nothing once it is over, else one
/// stake for each player who has deposited.
pub open spec fn escrow_held(m: MatchView) -> int {
    if is_terminal(m.state) {
        0
    } else {
        deposit_count(m) * m.stake_amount
    }
}

/// What the escrow holds for a match, case by case.
pub proof fn lemma_held_value(m: MatchView)
    ensures
        escrow_held(m) == if is_terminal(m.state) {
            0
        } else if m.player1_deposited && m.player2_deposited {
            2 * m.stake_amount
        } else if m.player1_deposited || m.player2_deposited {
            m.stake_amount as int
        } else {
            0
        },
{
    let d: int = deposit_count(m);
    assert(d * m.stake_amount == if d == 2 {
        2 * m.stake_amount
    } else if d == 1 {
        m.stake_amount as int
    } else {
        0
    }) by (nonlinear_arith)
        requires
            0 <= d <= 2,
    ;
}

/// A transfer of `amount` of the match's token from the escrow to `to`.
pub open spec fn payment(m: MatchView, contract: Seq<u8>, to: Seq<u8>, amount: int) -> TransferView {
    TransferView { token: m.token, from: contract, to, amount: amount as i128 }
}

/// The refunds of a match's deposits: the first player's stake if deposited,
/// then the second player's.
pub open spec fn refunds(m: MatchView, contract: Seq<u8>) -> Seq<TransferView> {
    (if m.player1_deposited {
        seq![payment(m, contract, m.player1, m.stake_amount as int)]
    } else {
        Seq::empty()
    }) + (if m.player2_deposited {
        seq![payment(m, contract, m.player2, m.stake_amount as int)]
    } else {
        Seq::empty()
    })
}

/// The payout of an active match: the whole pot, two stakes, to the winner;
/// on a draw, each player's stake back to them.
pub open spec fn payouts(m: MatchView, winner: Winner, contract: Seq<u8>) -> Seq<TransferView> {
    match winner {
        Winner::Player1 => seq![payment(m, contract, m.player1, 2 * m.stake_amount)],
        Winner::Player2 => seq![payment(m, contract, m.player2, 2 * m.stake_amount)],
        Winner::Draw => seq![
            payment(m, contract, m.player1, m.stake_amount as int),
            payment(m, contract, m.player2, m.stake_amount as int),
        ],
    }
}

/// The ledgers that have passed since `start`, or 0 if `now` is earlier.
pub open spec fn elapsed(now: u32, start: u32) -> u32 {
    if now >= start {
        (now - start) as u32
    } else {
        0
    }
}

/// `initialize`: sets the oracle and the admin, unpauses, and restarts the
/// match counter. The escrow's own address cannot be the oracle.
pub open spec fn initialize_step(s: EscrowView, oracle: Seq<u8>, admin: Seq<u8>) -> (
    EscrowView,
    Receipt<()>,
) {
    if oracle == s.address {
        (s, refused(None, Error::InvalidAddress))
    } else {
        (
            EscrowView { oracle: Some(oracle), admin: Some(admin), paused: false, match_count: 0, ..s },
            done(None, (), Seq::empty(), Seq::empty()),
        )
    }
}

/// `transfer_admin`: the admin hands the role to `admin` at once.
pub open spec fn transfer_admin_step(s: EscrowView, admin: Seq<u8>) -> (EscrowView, Receipt<()>) {
    match s.admin {
        None => (s, refused(None, Error::Unauthorized)),
        Some(a) => (EscrowView { admin: Some(admin), ..s }, done(Some(a), (), Seq::empty(), Seq::empty())),
    }
}

/// `propose_admin`: the admin names a successor, who takes over only on
/// accepting; a new proposal replaces the previous one.
pub open spec fn propose_admin_step(s: EscrowView, admin: Seq<u8>) -> (EscrowView, Receipt<()>) {
    match s.admin {
        None => (s, refused(None, Error::Unauthorized)),
        Some(a) => (
            EscrowView { pending_admin: Some(admin), ..s },
            done(Some(a), (), Seq::empty(), seq![EventView::AdminProposed { admin }]),
        ),
    }
}

/// `accept_admin`: the proposed successor takes over the admin role.
pub open spec fn accept_admin_step(s: EscrowView) -> (EscrowView, Receipt<()>) {
    match s.pending_admin {
        None => (s, refused(None, Error::Unauthorized)),
        Some(p) => (
            EscrowView { admin: Some(p), pending_admin: None, ..s },
            done(Some(p), (), Seq::empty(), seq![EventView::AdminTransferred { admin: p }]),
        ),
    }
}

/// `pause` (when `on`) and `unpause`: the admin sets the pause flag.
pub open spec fn set_paused_step(s: EscrowView, on: bool) -> (EscrowView, Receipt<()>) {
    match s.admin {
        None => (s, refused(None, Error::Unauthorized)),
        Some(a) => (
            EscrowView { paused: on, ..s },
            done(
                Some(a),
                (),
                Seq::empty(),
                seq![if on { EventView::ContractPaused } else { EventView::ContractUnpaused }],
            ),
        ),
    }
}

/// `update_oracle`: the admin names a new oracle, which cannot be the
/// escrow's own address.
pub open spec fn update_oracle_step(s: EscrowView, oracle: Seq<u8>) -> (EscrowView, Receipt<()>) {
    match s.admin {
        None => (s, refused(None, Error::Unauthorized)),
        Some(a) => if oracle == s.address {
            (s, refused(Some(a), Error::InvalidAddress))
        } else {
            (EscrowView { oracle: Some(oracle), ..s }, done(Some(a), (), Seq::empty(), Seq::empty()))
        },
    }
}

/// The match that `create_match` stores.
pub open spec fn new_match(
    id: u64,
    player1: Seq<u8>,
    player2: Seq<u8>,
    stake_amount: i128,
    token: Seq<u8>,
    game_id: Seq<u8>,
    platform: Platform,
    ledger: u32,
) -> MatchView {
    MatchView {
        id,
        player1,
        player2,
        stake_amount,
        token,
        game_id,
        platform,
        state: MatchState::Pending,
        player1_deposited: false,
        player2_deposited: false,
        created_ledger: ledger,
        completed_ledger: None,
    }
}

/// `create_match`, authorized by the first player: stores a pending match
/// under the next id and reserves its game id. An empty game id, or one
/// longer than `MAX_GAME_ID_LEN` bytes, is refused as `InvalidGameId`.
pub open spec fn create_match_step(
    s: EscrowView,
    player1: Seq<u8>,
    player2: Seq<u8>,
    stake_amount: i128,
    token: Seq<u8>,
    game_id: Seq<u8>,
    platform: Platform,
    ledger: u32,
) -> (EscrowView, Receipt<u64>) {
    let auth: Option<Seq<u8>> = Some(player1);
    let id: u64 = s.match_count;
    if s.paused {
        (s, refused(auth, Error::ContractPaused))
    } else if stake_amount <= 0 {
        (s, refused(auth, Error::InvalidAmount))
    } else if game_id.len() == 0 || game_id.len() > MAX_GAME_ID_LEN {
        (s, refused(auth, Error::InvalidGameId))
    } else if player2 == s.address {
        (s, refused(auth, Error::InvalidPlayers))
    } else if s.game_ids.contains(game_id) {
        (s, refused(auth, Error::DuplicateGameId))
    } else if s.matches.contains_key(id) {
        (s, refused(auth, Error::AlreadyExists))
    } else if id == u64::MAX {
        (s, refused(auth, Error::Overflow))
    } else {
        (
            EscrowView {
                matches: s.matches.insert(
                    id,
                    new_match(id, player1, player2, stake_amount, token, game_id, platform, ledger),
                ),
                match_count: (id + 1) as u64,
                game_ids: s.game_ids.insert(game_id),
                ..s
            },
            done(
                auth,
                id,
                Seq::empty(),
                seq![EventView::MatchCreated { id, player1, player2, stake_amount }],
            ),
        )
    }
}

/// `deposit`, authorized by the depositing player: takes the player's stake
/// into escrow; the match becomes active once both stakes are in.
pub open spec fn deposit_step(s: EscrowView, id: u64, player: Seq<u8>) -> (EscrowView, Receipt<()>) {
    let auth: Option<Seq<u8>> = Some(player);
    if s.paused {
        (s, refused(auth, Error::ContractPaused))
    } else if !s.matches.contains_key(id) {
        (s, refused(auth, Error::MatchNotFound))
    } else {
        let m: MatchView = s.matches[id];
        let is_p1: bool = player == m.player1;
        let is_p2: bool = player == m.player2;
        if m.state == MatchState::Cancelled {
            (s, refused(auth, Error::MatchCancelled))
        } else if m.state == MatchState::Completed {
            (s, refused(auth, Error::MatchCompleted))
        } else if m.state != MatchState::Pending {
            (s, refused(auth, Error::InvalidState))
        } else if !is_p1 && !is_p2 {
            (s, refused(auth, Error::Unauthorized))
        } else if is_p1 && m.player1_deposited {
            (s, refused(auth, Error::AlreadyFunded))
        } else if is_p2 && m.player2_deposited {
            (s, refused(auth, Error::AlreadyFunded))
        } else {
            let f: MatchView = if is_p1 {
                MatchView { player1_deposited: true, ..m }
            } else {
                MatchView { player2_deposited: true, ..m }
            };
            let activated: bool = f.player1_deposited && f.player2_deposited;
            let n: MatchView = if activated {
                MatchView { state: MatchState::Active, ..f }
            } else {
                f
            };
            (
                EscrowView { matches: s.matches.insert(id, n), ..s },
                done(
                    auth,
                    (),
                    seq![TransferView { token: m.token, from: player, to: s.address, amount: m.stake_amount }],
                    if activated {
                        seq![EventView::MatchActivated { id }]
                    } else {
                        Seq::empty()
                    },
                ),
            )
        }
    }
}

/// Whether `submit_result` gets as far as computing the pot.
pub open spec fn reaches_payout(s: EscrowView, id: u64, caller: Seq<u8>) -> bool {
    &&& !s.paused
    &&& s.oracle == Some(caller)
    &&& s.matches.contains_key(id)
    &&& s.matches[id].state == MatchState::Active
    &&& s.matches[id].player1_deposited
    &&& s.matches[id].player2_deposited
}

/// The pot, two stakes, fits in the amount type.
pub open spec fn pot_in_range(m: MatchView) -> bool {
    i128::MIN <= 2 * m.stake_amount <= i128::MAX
}

/// `submit_result`, by the oracle: pays out an active, funded match and
/// completes it at ledger `ledger`. A result for a match that is over is
/// refused as `InvalidState`; one submitted before both players have
/// deposited is refused as `NotFunded`.
pub open spec fn submit_result_step(
    s: EscrowView,
    id: u64,
    winner: Winner,
    caller: Seq<u8>,
    ledger: u32,
) -> (EscrowView, Receipt<()>) {
    let auth: Option<Seq<u8>> = Some(caller);
    if s.paused {
        (s, refused(None, Error::ContractPaused))
    } else if s.oracle != Some(caller) {
        (s, refused(None, Error::Unauthorized))
    } else if !s.matches.contains_key(id) {
        (s, refused(auth, Error::MatchNotFound))
    } else {
        let m: MatchView = s.matches[id];
        if is_terminal(m.state) {
            (s, refused(auth, Error::InvalidState))
        } else if !m.player1_deposited || !m.player2_deposited {
            (s, refused(auth, Error::NotFunded))
        } else if m.state != MatchState::Active {
            (s, refused(auth, Error::InvalidState))
        } else {
            (
                EscrowView {
                    matches: s.matches.insert(
                        id,
                        MatchView { state: MatchState::Completed, completed_ledger: Some(ledger), ..m },
                    ),
                    ..s
                },
                done(auth, (), payouts(m, winner, s.address), seq![EventView::MatchCompleted { id, winner }]),
            )
        }
    }
}

/// `cancel_match`, by either player of a pending match: refunds whoever
/// deposited and cancels the match at ledger `ledger`.
pub open spec fn cancel_match_step(s: EscrowView, id: u64, caller: Seq<u8>, ledger: u32) -> (
    EscrowView,
    Receipt<()>,
) {
    if !s.matches.contains_key(id) {
        (s, refused(None, Error::MatchNotFound))
    } else {
        let m: MatchView = s.matches[id];
        if m.state != MatchState::Pending {
            (s, refused(None, Error::InvalidState))
        } else if caller != m.player1 && caller != m.player2 {
            (s, refused(None, Error::Unauthorized))
        } else {
            (
                EscrowView {
                    matches: s.matches.insert(
                        id,
                        MatchView { state: MatchState::Cancelled, completed_ledger: Some(ledger), ..m },
                    ),
                    ..s
                },
                done(Some(caller), (), refunds(m, s.address), seq![EventView::MatchCancelled { id }]),
            )
        }
    }
}

/// `expire_match`, by anyone: once a pending match has waited
/// `MATCH_TTL_LEDGERS` ledgers, refunds whoever deposited and cancels it.
pub open spec fn expire_match_step(s: EscrowView, id: u64, ledger: u32) -> (EscrowView, Receipt<()>) {
    if !s.matches.contains_key(id) {
        (s, refused(None, Error::MatchNotFound))
    } else {
        let m: MatchView = s.matches[id];
        if m.state != MatchState::Pending {
            (s, refused(None, Error::InvalidState))
        } else if elapsed(ledger, m.created_ledger) < MATCH_TTL_LEDGERS {
            (s, refused(None, Error::MatchNotExpired))
        } else {
            (
                EscrowView {
                    matches: s.matches.insert(
                        id,
                        MatchView { state: MatchState::Cancelled, completed_ledger: Some(ledger), ..m },
                    ),
                    ..s
                },
                done(None, (), refunds(m, s.address), seq![EventView::MatchExpired { id }]),
            )
        }
    }
}

/// The stored matches in state `st` among the ids below `n`, in increasing
/// id order.
pub open spec fn listed_below(s: EscrowView, st: MatchState, n: nat) -> Seq<MatchView>
    decreases n,
{
    if n == 0 {
        Seq::empty()
    } else {
        let k: u64 = (n - 1) as u64;
        let rest: Seq<MatchView> = listed_below(s, st, (n - 1) as nat);
        if s.matches.contains_key(k) && s.matches[k].state == st {
            rest.push(s.matches[k])
        } else {
            rest
        }
    }
}

/// `get_live_matches`: the active matches among the ids handed out so far,
/// in increasing id order.
pub open spec fn live_matches(s: EscrowView) -> Seq<MatchView> {
    listed_below(s, MatchState::Active, s.match_count as nat)
}

/// `get_pending_matches`: the pending matches among the ids handed out so
/// far, in increasing id order.
pub open spec fn pending_matches(s: EscrowView) -> Seq<MatchView> {
    listed_below(s, MatchState::Pending, s.match_count as nat)
}

/// The ids below `n` of the stored matches in which `player` plays, in
/// increasing order.
pub open spec fn player_ids_below(s: EscrowView, player: Seq<u8>, n: nat) -> Seq<u64>
    decreases n,
{
    if n == 0 {
        Seq::empty()
    } else {
        let k: u64 = (n - 1) as u64;
        let rest: Seq<u64> = player_ids_below(s, player, (n - 1) as nat);
        if s.matches.contains_key(k) && (s.matches[k].player1 == player || s.matches[k].player2 == player) {
            rest.push(k)
        } else {
            rest
        }
    }
}

/// `get_player_matches`: the ids of the matches in which `player` plays,
/// among the ids handed out so far, in the order they were created.
pub open spec fn player_matches(s: EscrowView, player: Seq<u8>) -> Seq<u64> {
    player_ids_below(s, player, s.match_count as nat)
}

/// `get_match_duration`: for a closed match, the ledgers from its creation
/// to its closing.
pub open spec fn duration_of(s: EscrowView, id: u64) -> Result<Option<u32>, Error> {
    if s.matches.contains_key(id) {
        Ok(
            match s.matches[id].completed_ledger {
                Some(c) => Some(elapsed(c, s.matches[id].created_ledger)),
                None => None,
            },
        )
    } else {
        Err(Error::MatchNotFound)
    }
}

/// `get_admin`.
pub open spec fn admin_of(s: EscrowView) -> Result<Seq<u8>, Error> {
    match s.admin {
        Some(a) => Ok(a),
        None => Err(Error::Unauthorized),
    }
}

/// `get_oracle`.
pub open spec fn oracle_of(s: EscrowView) -> Result<Seq<u8>, Error> {
    match s.oracle {
        Some(a) => Ok(a),
        None => Err(Error::Unauthorized),
    }
}

/// `get_match`.
pub open spec fn match_of(s: EscrowView, id: u64) -> Result<MatchView, Error> {
    if s.matches.contains_key(id) {
        Ok(s.matches[id])
    } else {
        Err(Error::MatchNotFound)
    }
}

/// `is_funded`: both players have deposited.
pub open spec fn funded_of(s: EscrowView, id: u64) -> Result<bool, Error> {
    if s.matches.contains_key(id) {
        Ok(s.matches[id].player1_deposited && s.matches[id].player2_deposited)
    } else {
        Err(Error::MatchNotFound)
    }
}

/// `get_escrow_balance`: what the escrow holds for the match.
pub open spec fn balance_of(s: EscrowView, id: u64) -> Result<int, Error> {
    if s.matches.contains_key(id) {
        Ok(escrow_held(s.matches[id]))
    } else {
        Err(Error::MatchNotFound)
    }
}

/// An address result seen as a byte sequence result.
pub open spec fn address_result(r: Result<Address, Error>) -> Result<Seq<u8>, Error> {
    match r {
        Ok(a) => Ok(a@),
        Err(e) => Err(e),
    }
}

/// A match result seen as a match view result.
pub open spec fn match_result(r: Result<Match, Error>) -> Result<MatchView, Error> {
    match r {
        Ok(m) => Ok(m@),
        Err(e) => Err(e),
    }
}

/// A copy of a list of matches, match for match.
fn copy_matches(ms: &Vec<Match>) -> (c: Vec<Match>)
    ensures
        c@.len() == ms@.len(),
        forall|i: int| 0 <= i < ms@.len() ==> (#[trigger] c@[i])@ == ms@[i]@,
{
    let mut c: Vec<Match> = Vec::new();
    let n: usize = ms.len();
    let mut i: usize = 0;
    while i < n
        invariant
            n == ms@.len(),
            i <= n,
            c@.len() == i,
            forall|k: int| 0 <= k < i ==> (#[trigger] c@[k])@ == ms@[k]@,
        decreases n - i,
    {
        c.push(ms[i].clone());
        i = i + 1;
    }
    c
}

/// A copy of a list of byte strings, string for string.
fn copy_byte_lists(g: &Vec<Vec<u8>>) -> (c: Vec<Vec<u8>>)
    ensures
        c@.len() == g@.len(),
        forall|i: int| 0 <= i < g@.len() ==> (#[trigger] c@[i])@ == g@[i]@,
{
    let mut c: Vec<Vec<u8>> = Vec::new();
    let n: usize = g.len();
    let mut i: usize = 0;
    while i < n
        invariant
            n == g@.len(),
            i <= n,
            c@.len() == i,
            forall|k: int| 0 <= k < i ==> (#[trigger] c@[k])@ == g@[k]@,
        decreases n - i,
    {
        c.push(copy_bytes(&g[i]));
        i = i + 1;
    }
    c
}

impl EscrowContract {
    /// A copy of the stored state.
    pub fn copy(&self) -> (c: EscrowContract)
        requires
            self.wf(),
        ensures
            c.wf(),
            c@ == self@,
    {
        let matches: Vec<Match> = copy_matches(&self.matches);
        let game_ids: Vec<Vec<u8>> = copy_byte_lists(&self.game_ids);
        let c: EscrowContract = EscrowContract {
            address: self.address.clone(),
            oracle: copy_opt(&self.oracle),
            admin: copy_opt(&self.admin),
            pending_admin: copy_opt(&self.pending_admin),
            paused: self.paused,
            match_count: self.match_count,
            matches,
            game_ids,
        };
        assert forall|i: int, j: int|
            #![trigger c.matches@[i], c.matches@[j]]
            0 <= i < c.matches@.len() && 0 <= j < c.matches@.len() && i != j implies c.matches@[i].id
            != c.matches@[j].id by {
            assert(c.matches@[i]@.id == self.matches@[i]@.id);
            assert(c.matches@[j]@.id == self.matches@[j]@.id);
        }
        assert forall|id: u64| crate::state::holds_id(c.matches@, id) == crate::state::holds_id(
            self.matches@,
            id,
        ) by {
            if crate::state::holds_id(c.matches@, id) {
                let i: int = crate::state::slot_of(c.matches@, id);
                assert(c.matches@[i]@.id == self.matches@[i]@.id);
            }
            if crate::state::holds_id(self.matches@, id) {
                let i: int = crate::state::slot_of(self.matches@, id);
                assert(c.matches@[i]@.id == self.matches@[i]@.id);
            }
        }
        assert forall|id: u64| #[trigger] c@.matches.contains_key(id) implies c@.matches[id]
            == self@.matches[id] by {
            let i: int = crate::state::slot_of(c.matches@, id);
            lemma_slot(c.matches@, i);
            assert(c.matches@[i]@.id == self.matches@[i]@.id);
            lemma_slot(self.matches@, i);
        }
        assert(c@.matches =~= self@.matches);
        assert forall|x: Seq<u8>| c@.game_ids.contains(x) == self@.game_ids.contains(x) by {
            if c@.game_ids.contains(x) {
                let i: int = choose|i: int| #![trigger c.game_ids@[i]] 0 <= i < c.game_ids@.len() && c.game_ids@[i]@ == x;
                assert(self.game_ids@[i]@ == x);
            }
            if self@.game_ids.contains(x) {
                let i: int = choose|i: int| #![trigger self.game_ids@[i]] 0 <= i < self.game_ids@.len() && self.game_ids@[i]@ == x;
                assert(c.game_ids@[i]@ == x);
            }
        }
        assert(c@.game_ids =~= self@.game_ids);
        assert(c@ =~= self@);
        c
    }

    /// The representation is sound: no two stored matches share an id.
    pub open spec fn wf(&self) -> bool {
        distinct_ids(self.matches@)
    }

    /// The state of a contract at `address` that has never been called:
    /// no oracle, no admin, not paused, no matches.
    pub fn new(address: Address) -> (c: EscrowContract)
        ensures
            c.wf(),
            c@.address == address@,
            c@.oracle is None,
            c@.admin is None,
            c@.pending_admin is None,
            !c@.paused,
            c@.match_count == 0,
            c@.matches =~= Map::<u64, MatchView>::empty(),
            c@.game_ids =~= Set::<Seq<u8>>::empty(),
    {
        EscrowContract {
            address,
            oracle: None,
            admin: None,
            pending_admin: None,
            paused: false,
            match_count: 0,
            matches: Vec::new(),
            game_ids: Vec::new(),
        }
    }

    /// Whether `initialize` has been called.
    pub fn is_initialized(&self) -> (r: bool)
        ensures
            r == self@.oracle is Some,
    {
        self.oracle.is_some()
    }

    /// Initialize the contract with a trusted oracle and an admin.
    pub fn initialize(&mut self, oracle: Address, admin: Address) -> (out: Outcome<()>)
        requires
            old(self).wf(),
            old(self).oracle is None,
        ensures
            final(self).wf(),
            final(self)@ == initialize_step(old(self)@, oracle@, admin@).0,
            out@ == initialize_step(old(self)@, oracle@, admin@).1,
    {
        if oracle.same_as(&self.address) {
            return refuse(None, Error::InvalidAddress);
        }
        self.oracle = Some(oracle);
        self.admin = Some(admin);
        self.match_count = 0;
        self.paused = false;
        let out: Outcome<()> = Outcome { auth: None, result: Ok(()), transfers: Vec::new(), events: Vec::new() };
        assert(out@ =~= initialize_step(old(self)@, oracle@, admin@).1);
        assert(self@ =~= initialize_step(old(self)@, oracle@, admin@).0);
        out
    }

    /// Set the pause flag on behalf of the admin.
    fn set_paused(&mut self, on: bool) -> (out: Outcome<()>)
        requires
            old(self).wf(),
        ensures
            final(self).wf(),
            final(self)@ == set_paused_step(old(self)@, on).0,
            out@ == set_paused_step(old(self)@, on).1,
    {
        let admin: Address = match &self.admin {
            None => {
                return refuse(None, Error::Unauthorized);
            },
            Some(a) => a.clone(),
        };
        self.paused = on;
        let mut events: Vec<Event> = Vec::new();
        if on {
            events.push(Event::ContractPaused);
        } else {
            events.push(Event::ContractUnpaused);
        }
        let out: Outcome<()> = Outcome { auth: Some(admin), result: Ok(()), transfers: Vec::new(), events };
        assert(out@ =~= set_paused_step(old(self)@, on).1);
        assert(self@ =~= set_paused_step(old(self)@, on).0);
        out
    }

    /// Pause the contract, on behalf of the admin: creating matches,
    /// depositing and submitting results are blocked until it is unpaused.
    pub fn pause(&mut self) -> (out: Outcome<()>)
        requires
            old(self).wf(),
        ensures
            final(self).wf(),
            final(self)@ == set_paused_step(old(self)@, true).0,
            out@ == set_paused_step(old(self)@, true).1,
    {
        self.set_paused(true)
    }

    /// Unpause the contract, on behalf of the admin.
    pub fn unpause(&mut self) -> (out: Outcome<()>)
        requires
            old(self).wf(),
        ensures
            final(self).wf(),
            final(self)@ == set_paused_step(old(self)@, false).0,
            out@ == set_paused_step(old(self)@, false).1,
    {
        self.set_paused(false)
    }

    /// Replace the oracle, on behalf of the admin.
    pub fn update_oracle(&mut self, new_oracle: Address) -> (out: Outcome<()>)
        requires
            old(self).wf(),
        ensures
            final(self).wf(),
            final(self)@ == update_oracle_step(old(self)@, new_oracle@).0,
            out@ == update_oracle_step(old(self)@, new_oracle@).1,
    {
        let admin: Address = match &self.admin {
            None => {
                return refuse(None, Error::Unauthorized);
            },
            Some(a) => a.clone(),
        };
        if new_oracle.same_as(&self.address) {
            return refuse(Some(admin), Error::InvalidAddress);
        }
        self.oracle = Some(new_oracle);
        let out: Outcome<()> = Outcome {
            auth: Some(admin),
            result: Ok(()),
            transfers: Vec::new(),
            events: Vec::new(),
        };
        assert(out@ =~= update_oracle_step(old(self)@, new_oracle@).1);
        assert(self@ =~= update_oracle_step(old(self)@, new_oracle@).0);
        out
    }

    /// Create a new match on behalf of `player1`; both players must then
    /// deposit the stake. Returns the new match's id.
    pub fn create_match(
        &mut self,
        player1: Address,
        player2: Address,
        stake_amount: i128,
        token: Address,
        game_id: Vec<u8>,
        platform: Platform,
        ledger: u32,
    ) -> (out: Outcome<u64>)
        requires
            old(self).wf(),
        ensures
            final(self).wf(),
            final(self)@ == create_match_step(
                old(self)@,
                player1@,
                player2@,
                stake_amount,
                token@,
                game_id@,
                platform,
                ledger,
            ).0,
            out@ == create_match_step(
                old(self)@,
                player1@,
                player2@,
                stake_amount,
                token@,
                game_id@,
                platform,
                ledger,
            ).1,
    {
        let ghost step = create_match_step(
            self@,
            player1@,
            player2@,
            stake_amount,
            token@,
            game_id@,
            platform,
            ledger,
        );
        let auth: Option<Address> = Some(player1.clone());
        if self.paused {
            return refuse(auth, Error::ContractPaused);
        }
        if stake_amount <= 0 {
            return refuse(auth, Error::InvalidAmount);
        }
        if game_id.len() == 0 || game_id.len() > MAX_GAME_ID_LEN {
            return refuse(auth, Error::InvalidGameId);
        }
        if player2.same_as(&self.address) {
            return refuse(auth, Error::InvalidPlayers);
        }
        if contains_bytes(&self.game_ids, &game_id) {
            return refuse(auth, Error::DuplicateGameId);
        }
        let id: u64 = self.match_count;
        if find_slot(&self.matches, id).is_some() {
            return refuse(auth, Error::AlreadyExists);
        }
        let next_id: u64 = match id.checked_add(1) {
            None => {
                return refuse(auth, Error::Overflow);
            },
            Some(n) => n,
        };
        let event: Event = Event::MatchCreated {
            id,
            player1: player1.clone(),
            player2: player2.clone(),
            stake_amount,
        };
        let m: Match = Match {
            id,
            player1,
            player2,
            stake_amount,
            token,
            game_id: copy_bytes(&game_id),
            platform,
            state: MatchState::Pending,
            player1_deposited: false,
            player2_deposited: false,
            created_ledger: ledger,
            completed_ledger: None,
        };
        proof {
            lemma_append(self.matches@, m);
            lemma_id_set_push(self.game_ids@, game_id);
        }
        self.matches.push(m);
        self.match_count = next_id;
        self.game_ids.push(game_id);
        let mut events: Vec<Event> = Vec::new();
        events.push(event);
        let out: Outcome<u64> = Outcome { auth, result: Ok(id), transfers: Vec::new(), events };
        assert(out@ =~= step.1);
        assert(self@ =~= step.0);
        out
    }

    /// Deposit `player`'s stake into escrow for the match.
    pub fn deposit(&mut self, match_id: u64, player: Address) -> (out: Outcome<()>)
        requires
            old(self).wf(),
        ensures
            final(self).wf(),
            final(self)@ == deposit_step(old(self)@, match_id, player@).0,
            out@ == deposit_step(old(self)@, match_id, player@).1,
    {
        let ghost step = deposit_step(self@, match_id, player@);
        let auth: Option<Address> = Some(player.clone());
        if self.paused {
            return refuse(auth, Error::ContractPaused);
        }
        let j: usize = match find_slot(&self.matches, match_id) {
            None => {
                return refuse(auth, Error::MatchNotFound);
            },
            Some(j) => j,
        };
        proof {
            lemma_slot(self.matches@, j as int);
        }
        let mut m: Match = self.matches[j].clone();
        if m.state == MatchState::Cancelled {
            return refuse(auth, Error::MatchCancelled);
        }
        if m.state == MatchState::Completed {
            return refuse(auth, Error::MatchCompleted);
        }
        if m.state != MatchState::Pending {
            return refuse(auth, Error::InvalidState);
        }
        let is_p1: bool = player.same_as(&m.player1);
        let is_p2: bool = player.same_as(&m.player2);
        if !is_p1 && !is_p2 {
            return refuse(auth, Error::Unauthorized);
        }
        if is_p1 && m.player1_deposited {
            return refuse(auth, Error::AlreadyFunded);
        }
        if is_p2 && m.player2_deposited {
            return refuse(auth, Error::AlreadyFunded);
        }
        let mut transfers: Vec<Transfer> = Vec::new();
        transfers.push(
            Transfer {
                token: m.token.clone(),
                from: player,
                to: self.address.clone(),
                amount: m.stake_amount,
            },
        );
        if is_p1 {
            m.player1_deposited = true;
        } else {
            m.player2_deposited = true;
        }
        let mut events: Vec<Event> = Vec::new();
        if m.player1_deposited && m.player2_deposited {
            m.state = MatchState::Active;
            events.push(Event::MatchActivated { id: match_id });
        }
        proof {
            lemma_replace(self.matches@, j as int, m);
        }
        self.matches.set(j, m);
        let out: Outcome<()> = Outcome { auth, result: Ok(()), transfers, events };
        assert(out@ =~= step.1);
        assert(self@ =~= step.0);
        out
    }

    /// The oracle reports the result of an active match: the pot is paid out
    /// and the match completes at ledger `ledger`.
    pub fn submit_result(&mut self, match_id: u64, winner: Winner, caller: Address, ledger: u32) -> (out:
        Outcome<()>)
        requires
            old(self).wf(),
            reaches_payout(old(self)@, match_id, caller@) ==> pot_in_range(
                old(self)@.matches[match_id],
            ),
        ensures
            final(self).wf(),
            final(self)@ == submit_result_step(old(self)@, match_id, winner, caller@, ledger).0,
            out@ == submit_result_step(old(self)@, match_id, winner, caller@, ledger).1,
    {
        let ghost step = submit_result_step(self@, match_id, winner, caller@, ledger);
        if self.paused {
            return refuse(None, Error::ContractPaused);
        }
        let is_oracle: bool = match &self.oracle {
            None => false,
            Some(o) => caller.same_as(o),
        };
        if !is_oracle {
            return refuse(None, Error::Unauthorized);
        }
        let auth: Option<Address> = Some(caller);
        let j: usize = match find_slot(&self.matches, match_id) {
            None => {
                return refuse(auth, Error::MatchNotFound);
            },
            Some(j) => j,
        };
        proof {
            lemma_slot(self.matches@, j as int);
        }
        let mut m: Match = self.matches[j].clone();
        if m.state == MatchState::Completed || m.state == MatchState::Cancelled {
            return refuse(auth, Error::InvalidState);
        }
        if !m.player1_deposited || !m.player2_deposited {
            return refuse(auth, Error::NotFunded);
        }
        if m.state != MatchState::Active {
            return refuse(auth, Error::InvalidState);
        }
        let pot: i128 = m.stake_amount * 2;
        let mut transfers: Vec<Transfer> = Vec::new();
        match winner {
            Winner::Player1 => {
                transfers.push(
                    Transfer {
                        token: m.token.clone(),
                        from: self.address.clone(),
                        to: m.player1.clone(),
                        amount: pot,
                    },
                );
            },
            Winner::Player2 => {
                transfers.push(
                    Transfer {
                        token: m.token.clone(),
                        from: self.address.clone(),
                        to: m.player2.clone(),
                        amount: pot,
                    },
                );
            },
            Winner::Draw => {
                transfers.push(
                    Transfer {
                        token: m.token.clone(),
                        from: self.address.clone(),
                        to: m.player1.clone(),
                        amount: m.stake_amount,
                    },
                );
                transfers.push(
                    Transfer {
                        token: m.token.clone(),
                        from: self.address.clone(),
                        to: m.player2.clone(),
                        amount: m.stake_amount,
                    },
                );
            },
        }
        m.state = MatchState::Completed;
        m.completed_ledger = Some(ledger);
        proof {
            lemma_replace(self.matches@, j as int, m);
        }
        self.matches.set(j, m);
        let mut events: Vec<Event> = Vec::new();
        events.push(Event::MatchCompleted { id: match_id, winner });
        let out: Outcome<()> = Outcome { auth, result: Ok(()), transfers, events };
        assert(out@ =~= step.1);
        assert(self@ =~= step.0);
        out
    }

    /// Whether `submit_result` can be asked to settle the match for
    /// `caller`: true unless the call would reach the payout of a pot of two
    /// stakes that does not fit in the amount type.
    pub fn payout_fits(&self, match_id: u64, caller: &Address) -> (r: bool)
        requires
            self.wf(),
        ensures
            r == (reaches_payout(self@, match_id, caller@) ==> pot_in_range(self@.matches[match_id])),
    {
        let is_oracle: bool = match &self.oracle {
            None => false,
            Some(o) => caller.same_as(o),
        };
        if self.paused || !is_oracle {
            return true;
        }
        match find_slot(&self.matches, match_id) {
            None => true,
            Some(j) => {
                proof {
                    lemma_slot(self.matches@, j as int);
                }
                let m: &Match = &self.matches[j];
                if m.state != MatchState::Active || !m.player1_deposited || !m.player2_deposited {
                    return true;
                }
                m.stake_amount.checked_mul(2).is_some()
            },
        }
    }

    /// Whether `get_escrow_balance` can be asked about the match: true unless
    /// what the escrow holds for it does not fit in the amount type.
    pub fn balance_fits(&self, match_id: u64) -> (r: bool)
        requires
            self.wf(),
        ensures
            r == (self@.matches.contains_key(match_id) ==> i128::MIN <= escrow_held(
                self@.matches[match_id],
            ) <= i128::MAX),
    {
        match find_slot(&self.matches, match_id) {
            None => true,
            Some(j) => {
                proof {
                    lemma_slot(self.matches@, j as int);
                }
                let m: &Match = &self.matches[j];
                proof {
                    lemma_held_value(m@);
                }
                if m.state == MatchState::Completed || m.state == MatchState::Cancelled {
                    return true;
                }
                if m.player1_deposited && m.player2_deposited {
                    m.stake_amount.checked_mul(2).is_some()
                } else {
                    true
                }
            },
        }
    }

    /// The refunds of the match's deposits, in order.
    fn refund_transfers(&self, m: &Match) -> (ts: Vec<Transfer>)
        ensures
            ts@.map_values(|t: Transfer| t@) =~= refunds(m@, self@.address),
    {
        let mut ts: Vec<Transfer> = Vec::new();
        if m.player1_deposited {
            ts.push(
                Transfer {
                    token: m.token.clone(),
                    from: self.address.clone(),
                    to: m.player1.clone(),
                    amount: m.stake_amount,
                },
            );
        }
        if m.player2_deposited {
            ts.push(
                Transfer {
                    token: m.token.clone(),
                    from: self.address.clone(),
                    to: m.player2.clone(),
                    amount: m.stake_amount,
                },
            );
        }
        ts
    }

    /// Cancel a pending match on behalf of one of its players, refunding
    /// any deposits; the match is closed at ledger `ledger`.
    pub fn cancel_match(&mut self, match_id: u64, caller: Address, ledger: u32) -> (out: Outcome<()>)
        requires
            old(self).wf(),
        ensures
            final(self).wf(),
            final(self)@ == cancel_match_step(old(self)@, match_id, caller@, ledger).0,
            out@ == cancel_match_step(old(self)@, match_id, caller@, ledger).1,
    {
        let ghost step = cancel_match_step(self@, match_id, caller@, ledger);
        let j: usize = match find_slot(&self.matches, match_id) {
            None => {
                return refuse(None, Error::MatchNotFound);
            },
            Some(j) => j,
        };
        proof {
            lemma_slot(self.matches@, j as int);
        }
        let mut m: Match = self.matches[j].clone();
        if m.state != MatchState::Pending {
            return refuse(None, Error::InvalidState);
        }
        let is_p1: bool = caller.same_as(&m.player1);
        let is_p2: bool = caller.same_as(&m.player2);
        if !is_p1 && !is_p2 {
            return refuse(None, Error::Unauthorized);
        }
        let transfers: Vec<Transfer> = self.refund_transfers(&m);
        m.state = MatchState::Cancelled;
        m.completed_ledger = Some(ledger);
        proof {
            lemma_replace(self.matches@, j as int, m);
        }
        self.matches.set(j, m);
        let mut events: Vec<Event> = Vec::new();
        events.push(Event::MatchCancelled { id: match_id });
        let out: Outcome<()> = Outcome { auth: Some(caller), result: Ok(()), transfers, events };
        assert(out@ =~= step.1);
        assert(self@ =~= step.0);
        out
    }

    /// Expire a pending match that has waited at least `MATCH_TTL_LEDGERS`
    /// ledgers by ledger `ledger`; anyone may call this, and whoever
    /// deposited is refunded.
    pub fn expire_match(&mut self, match_id: u64, ledger: u32) -> (out: Outcome<()>)
        requires
            old(self).wf(),
        ensures
            final(self).wf(),
            final(self)@ == expire_match_step(old(self)@, match_id, ledger).0,
            out@ == expire_match_step(old(self)@, match_id, ledger).1,
    {
        let ghost step = expire_match_step(self@, match_id, ledger);
        let j: usize = match find_slot(&self.matches, match_id) {
            None => {
                return refuse(None, Error::MatchNotFound);
            },
            Some(j) => j,
        };
        proof {
            lemma_slot(self.matches@, j as int);
        }
        let mut m: Match = self.matches[j].clone();
        if m.state != MatchState::Pending {
            return refuse(None, Error::InvalidState);
        }
        let waited: u32 = ledger.saturating_sub(m.created_ledger);
        if waited < MATCH_TTL_LEDGERS {
            return refuse(None, Error::MatchNotExpired);
        }
        let transfers: Vec<Transfer> = self.refund_transfers(&m);
        m.state = MatchState::Cancelled;
        m.completed_ledger = Some(ledger);
        proof {
            lemma_replace(self.matches@, j as int, m);
        }
        self.matches.set(j, m);
        let mut events: Vec<Event> = Vec::new();
        events.push(Event::MatchExpired { id: match_id });
        let out: Outcome<()> = Outcome { auth: None, result: Ok(()), transfers, events };
        assert(out@ =~= step.1);
        assert(self@ =~= step.0);
        out
    }

    /// The stored matches in state `st` among the ids handed out so far, in
    /// increasing id order.
    fn matches_in_state(&self, st: MatchState) -> (v: Vec<Match>)
        requires
            self.wf(),
        ensures
            v@.map_values(|m: Match| m@) == listed_below(self@, st, self@.match_count as nat),
    {
        let count: u64 = self.match_count;
        let mut found: Vec<Match> = Vec::new();
        let mut i: u64 = 0;
        while i < count
            invariant
                self.wf(),
                count == self.match_count,
                i <= count,
                found@.map_values(|m: Match| m@) == listed_below(self@, st, i as nat),
            decreases count - i,
        {
            let ghost before: Seq<MatchView> = found@.map_values(|m: Match| m@);
            match find_slot(&self.matches, i) {
                Some(j) => {
                    proof {
                        lemma_slot(self.matches@, j as int);
                    }
                    if self.matches[j].state == st {
                        found.push(self.matches[j].clone());
                        assert(found@.map_values(|m: Match| m@) =~= before.push(self@.matches[i]));
                    }
                },
                None => {},
            }
            i = i + 1;
        }
        found
    }

    /// The active matches among the ids handed out so far, in increasing
    /// id order.
    pub fn get_live_matches(&self) -> (r: Result<Vec<Match>, Error>)
        requires
            self.wf(),
        ensures
            match r {
                Ok(v) => v@.map_values(|m: Match| m@) == live_matches(self@),
                Err(_) => false,
            },
    {
        Ok(self.matches_in_state(MatchState::Active))
    }

    /// The pending matches among the ids handed out so far, in increasing
    /// id order.
    pub fn get_pending_matches(&self) -> (v: Vec<Match>)
        requires
            self.wf(),
        ensures
            v@.map_values(|m: Match| m@) == pending_matches(self@),
    {
        self.matches_in_state(MatchState::Pending)
    }

    /// The ids of the matches in which `player` plays, in the order they
    /// were created.
    pub fn get_player_matches(&self, player: &Address) -> (v: Vec<u64>)
        requires
            self.wf(),
        ensures
            v@ == player_matches(self@, player@),
    {
        let count: u64 = self.match_count;
        let mut ids: Vec<u64> = Vec::new();
        let mut i: u64 = 0;
        while i < count
            invariant
                self.wf(),
                count == self.match_count,
                i <= count,
                ids@ == player_ids_below(self@, player@, i as nat),
            decreases count - i,
        {
            match find_slot(&self.matches, i) {
                Some(j) => {
                    proof {
                        lemma_slot(self.matches@, j as int);
                    }
                    if player.same_as(&self.matches[j].player1) || player.same_as(&self.matches[j].player2) {
                        ids.push(i);
                    }
                },
                None => {},
            }
            i = i + 1;
        }
        ids
    }

    /// How many match ids have been handed out.
    pub fn get_match_count(&self) -> (n: u64)
        ensures
            n == self@.match_count,
    {
        self.match_count
    }

    /// Whether the contract is paused.
    pub fn is_paused(&self) -> (p: bool)
        ensures
            p == self@.paused,
    {
        self.paused
    }

    /// For a closed match, the ledgers from its creation to its closing.
    pub fn get_match_duration(&self, match_id: u64) -> (r: Result<Option<u32>, Error>)
        requires
            self.wf(),
        ensures
            r == duration_of(self@, match_id),
    {
        match find_slot(&self.matches, match_id) {
            Some(j) => {
                proof {
                    lemma_slot(self.matches@, j as int);
                }
                let m: &Match = &self.matches[j];
                match m.completed_ledger {
                    Some(c) => Ok(Some(c.saturating_sub(m.created_ledger))),
                    None => Ok(None),
                }
            },
            None => Err(Error::MatchNotFound),
        }
    }

    /// Hand the admin role to `new_admin` at once, on behalf of the admin.
    pub fn transfer_admin(&mut self, new_admin: Address) -> (out: Outcome<()>)
        requires
            old(self).wf(),
        ensures
            final(self).wf(),
            final(self)@ == transfer_admin_step(old(self)@, new_admin@).0,
            out@ == transfer_admin_step(old(self)@, new_admin@).1,
    {
        let admin: Address = match &self.admin {
            None => {
                return refuse(None, Error::Unauthorized);
            },
            Some(a) => a.clone(),
        };
        self.admin = Some(new_admin);
        let out: Outcome<()> = Outcome {
            auth: Some(admin),
            result: Ok(()),
            transfers: Vec::new(),
            events: Vec::new(),
        };
        assert(out@ =~= transfer_admin_step(old(self)@, new_admin@).1);
        assert(self@ =~= transfer_admin_step(old(self)@, new_admin@).0);
        out
    }

    /// Propose `new_admin` as the next admin, on behalf of the admin; the
    /// proposal replaces any earlier one and takes effect when accepted.
    pub fn propose_admin(&mut self, new_admin: Address) -> (out: Outcome<()>)
        requires
            old(self).wf(),
        ensures
            final(self).wf(),
            final(self)@ == propose_admin_step(old(self)@, new_admin@).0,
            out@ == propose_admin_step(old(self)@, new_admin@).1,
    {
        let admin: Address = match &self.admin {
            None => {
                return refuse(None, Error::Unauthorized);
            },
            Some(a) => a.clone(),
        };
        let mut events: Vec<Event> = Vec::new();
        events.push(Event::AdminProposed { admin: new_admin.clone() });
        self.pending_admin = Some(new_admin);
        let out: Outcome<()> = Outcome { auth: Some(admin), result: Ok(()), transfers: Vec::new(), events };
        assert(out@ =~= propose_admin_step(old(self)@, new_admin@).1);
        assert(self@ =~= propose_admin_step(old(self)@, new_admin@).0);
        out
    }

    /// The proposed admin accepts the role.
    pub fn accept_admin(&mut self) -> (out: Outcome<()>)
        requires
            old(self).wf(),
        ensures
            final(self).wf(),
            final(self)@ == accept_admin_step(old(self)@).0,
            out@ == accept_admin_step(old(self)@).1,
    {
        let pending: Address = match &self.pending_admin {
            None => {
                return refuse(None, Error::Unauthorized);
            },
            Some(p) => p.clone(),
        };
        let mut events: Vec<Event> = Vec::new();
        events.push(Event::AdminTransferred { admin: pending.clone() });
        self.admin = Some(pending.clone());
        self.pending_admin = None;
        let out: Outcome<()> = Outcome { auth: Some(pending), result: Ok(()), transfers: Vec::new(), events };
        assert(out@ =~= accept_admin_step(old(self)@).1);
        assert(self@ =~= accept_admin_step(old(self)@).0);
        out
    }

    /// The admin's address.
    pub fn get_admin(&self) -> (r: Result<Address, Error>)
        ensures
            address_result(r) == admin_of(self@),
    {
        match &self.admin {
            Some(a) => Ok(a.clone()),
            None => Err(Error::Unauthorized),
        }
    }

    /// The oracle's address.
    pub fn get_oracle(&self) -> (r: Result<Address, Error>)
        ensures
            address_result(r) == oracle_of(self@),
    {
        match &self.oracle {
            Some(a) => Ok(a.clone()),
            None => Err(Error::Unauthorized),
        }
    }

    /// The match stored under `match_id`.
    pub fn get_match(&self, match_id: u64) -> (r: Result<Match, Error>)
        requires
            self.wf(),
        ensures
            match_result(r) == match_of(self@, match_id),
    {
        match find_slot(&self.matches, match_id) {
            Some(j) => {
                proof {
                    lemma_slot(self.matches@, j as int);
                }
                Ok(self.matches[j].clone())
            },
            None => Err(Error::MatchNotFound),
        }
    }

    /// Whether both players of the match have deposited.
    pub fn is_funded(&self, match_id: u64) -> (r: Result<bool, Error>)
        requires
            self.wf(),
        ensures
            r == funded_of(self@, match_id),
    {
        match find_slot(&self.matches, match_id) {
            Some(j) => {
                proof {
                    lemma_slot(self.matches@, j as int);
                }
                Ok(self.matches[j].player1_deposited && self.matches[j].player2_deposited)
            },
            None => Err(Error::MatchNotFound),
        }
    }

    /// What the escrow holds for the match: 0, one stake or two stakes.
    pub fn get_escrow_balance(&self, match_id: u64) -> (r: Result<i128, Error>)
        requires
            self.wf(),
            self@.matches.contains_key(match_id) ==> i128::MIN <= escrow_held(
                self@.matches[match_id],
            ) <= i128::MAX,
        ensures
            match r {
                Ok(v) => balance_of(self@, match_id) == Ok::<int, Error>(v as int),
                Err(e) => balance_of(self@, match_id) == Err::<int, Error>(e),
            },
    {
        match find_slot(&self.matches, match_id) {
            Some(j) => {
                proof {
                    lemma_slot(self.matches@, j as int);
                }
                let m: &Match = &self.matches[j];
                if m.state == MatchState::Completed || m.state == MatchState::Cancelled {
                    return Ok(0);
                }
                let depositors: i128 = (if m.player1_deposited { 1i128 } else { 0i128 }) + (
                if m.player2_deposited {
                    1i128
                } else {
                    0i128
                });
                Ok(depositors * m.stake_amount)
            },
            None => Err(Error::MatchNotFound),
        }
    }
}

} // verus!
