//! Properties of the escrow that hold across all of its calls.
use vstd::prelude::*;

use crate::contract::{
    accept_admin_step, balance_of, cancel_match_step, create_match_step, deposit_step,
    escrow_held, expire_match_step, funded_of, initialize_step, is_terminal, lemma_held_value,
    listed_below, live_matches, match_of, new_match, oracle_of, payment, pending_matches,
    player_ids_below, player_matches, pot_in_range, propose_admin_step, reaches_payout, refunds,
    set_paused_step, submit_result_step, transfer_admin_step, update_oracle_step, EscrowContract,
    EscrowView, MATCH_TTL_LEDGERS, MAX_GAME_ID_LEN,
};
use crate::effects::{EventView, Receipt, TransferView};
use crate::errors::Error;
use crate::state::slot_of;
use crate::types::{MatchState, MatchView, Platform, Winner};

verus! {

/// A call that changes the escrow, with its arguments as plain values.
pub enum Call {
    Initialize { oracle: Seq<u8>, admin: Seq<u8> },
    Pause,
    Unpause,
    UpdateOracle { oracle: Seq<u8> },
    TransferAdmin { admin: Seq<u8> },
    ProposeAdmin { admin: Seq<u8> },
    AcceptAdmin,
    CreateMatch {
        player1: Seq<u8>,
        player2: Seq<u8>,
        stake_amount: i128,
        token: Seq<u8>,
        game_id: Seq<u8>,
        platform: Platform,
        ledger: u32,
    },
    Deposit { id: u64, player: Seq<u8> },
    SubmitResult { id: u64, winner: Winner, caller: Seq<u8>, ledger: u32 },
    CancelMatch { id: u64, caller: Seq<u8>, ledger: u32 },
    ExpireMatch { id: u64, ledger: u32 },
}

/// A receipt with its answer reduced to success or the error.
pub open spec fn plain<R>(r: Receipt<R>) -> Receipt<()> {
    Receipt {
        auth: r.auth,
        result: match r.result {
            Ok(_) => Ok(()),
            Err(e) => Err(e),
        },
        transfers: r.transfers,
        events: r.events,
    }
}

/// What the call does to the escrow: its new state and its receipt.
pub open spec fn step(s: EscrowView, c: Call) -> (EscrowView, Receipt<()>) {
    match c {
        Call::Initialize { oracle, admin } => initialize_step(s, oracle, admin),
        Call::Pause => set_paused_step(s, true),
        Call::Unpause => set_paused_step(s, false),
        Call::UpdateOracle { oracle } => update_oracle_step(s, oracle),
        Call::TransferAdmin { admin } => transfer_admin_step(s, admin),
        Call::ProposeAdmin { admin } => propose_admin_step(s, admin),
        Call::AcceptAdmin => accept_admin_step(s),
        Call::CreateMatch { player1, player2, stake_amount, token, game_id, platform, ledger } => {
            let (t, r) = create_match_step(
                s,
                player1,
                player2,
                stake_amount,
                token,
                game_id,
                platform,
                ledger,
            );
            (t, plain(r))
        },
        Call::Deposit { id, player } => deposit_step(s, id, player),
        Call::SubmitResult { id, winner, caller, ledger } => submit_result_step(
            s,
            id,
            winner,
            caller,
            ledger,
        ),
        Call::CancelMatch { id, caller, ledger } => cancel_match_step(s, id, caller, ledger),
        Call::ExpireMatch { id, ledger } => expire_match_step(s, id, ledger),
    }
}

/// The call is one that the library takes: the contract is initialized only
/// once, and a payout's pot fits in the amount type.
pub open spec fn admissible(s: EscrowView, c: Call) -> bool {
    match c {
        Call::Initialize { .. } => s.oracle is None,
        Call::SubmitResult { id, caller, .. } => reaches_payout(s, id, caller) ==> pot_in_range(
            s.matches[id],
        ),
        _ => true,
    }
}

/// The match that the call works on, if any.
pub open spec fn target(c: Call) -> Option<u64> {
    match c {
        Call::Deposit { id, .. } => Some(id),
        Call::SubmitResult { id, .. } => Some(id),
        Call::CancelMatch { id, .. } => Some(id),
        Call::ExpireMatch { id, .. } => Some(id),
        _ => None,
    }
}

/// The sum of the amounts of a list of transfers.
pub open spec fn total_amount(ts: Seq<TransferView>) -> int
    decreases ts.len(),
{
    if ts.len() == 0 {
        0
    } else {
        total_amount(ts.drop_last()) + ts.last().amount
    }
}

/// What the call pays into escrow for match `k`: the transfers of a
/// successful deposit into `k`.
pub open spec fn paid_in(c: Call, r: Receipt<()>, k: u64) -> int {
    match c {
        Call::Deposit { id, .. } => if id == k && r.result is Ok {
            total_amount(r.transfers)
        } else {
            0
        },
        _ => 0,
    }
}

/// What the call pays out of escrow for match `k`: the transfers of a
/// successful result, cancellation or expiry of `k`.
pub open spec fn paid_out(c: Call, r: Receipt<()>, k: u64) -> int {
    if target(c) == Some(k) && r.result is Ok && !(c is Deposit) {
        total_amount(r.transfers)
    } else {
        0
    }
}

/// What the escrow holds for the match stored under `k`, or 0 when there is
/// none.
pub open spec fn held_at(s: EscrowView, k: u64) -> int {
    if s.matches.contains_key(k) {
        escrow_held(s.matches[k])
    } else {
        0
    }
}

/// The state after a run of calls.
pub open spec fn run(s: EscrowView, cs: Seq<Call>) -> EscrowView
    decreases cs.len(),
{
    if cs.len() == 0 {
        s
    } else {
        step(run(s, cs.drop_last()), cs.last()).0
    }
}

/// Every call of the run is one that the library takes, in the state that
/// the calls before it built.
pub open spec fn run_admissible(s: EscrowView, cs: Seq<Call>) -> bool
    decreases cs.len(),
{
    cs.len() == 0 || (run_admissible(s, cs.drop_last()) && admissible(
        run(s, cs.drop_last()),
        cs.last(),
    ))
}

/// All that the calls of the run pay into escrow for match `k`.
pub open spec fn total_in(s: EscrowView, cs: Seq<Call>, k: u64) -> int
    decreases cs.len(),
{
    if cs.len() == 0 {
        0
    } else {
        total_in(s, cs.drop_last(), k) + paid_in(
            cs.last(),
            step(run(s, cs.drop_last()), cs.last()).1,
            k,
        )
    }
}

/// All that the calls of the run pay out of escrow for match `k`.
pub open spec fn total_out(s: EscrowView, cs: Seq<Call>, k: u64) -> int
    decreases cs.len(),
{
    if cs.len() == 0 {
        0
    } else {
        total_out(s, cs.drop_last(), k) + paid_out(
            cs.last(),
            step(run(s, cs.drop_last()), cs.last()).1,
            k,
        )
    }
}

/// A match may move from one state to another: it stays where it is, a
/// pending match becomes active or is cancelled, an active match completes.
pub open spec fn allowed_move(from: MatchState, to: MatchState) -> bool {
    ||| from == to
    ||| from == MatchState::Pending && to == MatchState::Active
    ||| from == MatchState::Pending && to == MatchState::Cancelled
    ||| from == MatchState::Active && to == MatchState::Completed
}

/// The terms agreed when the match was created: who plays, for what stake,
/// in which token, on which game, created when.
pub open spec fn same_terms(a: MatchView, b: MatchView) -> bool {
    &&& a.id == b.id
    &&& a.player1 == b.player1
    &&& a.player2 == b.player2
    &&& a.stake_amount == b.stake_amount
    &&& a.token == b.token
    &&& a.game_id == b.game_id
    &&& a.platform == b.platform
    &&& a.created_ledger == b.created_ledger
}

/// A refused call leaves the stored state as it was, moves no funds and
/// publishes nothing.
pub proof fn law_refusal_changes_nothing(s: EscrowView, c: Call)
    requires
        step(s, c).1.result is Err,
    ensures
        step(s, c).0 == s,
        step(s, c).1.transfers.len() == 0,
        step(s, c).1.events.len() == 0,
{
}

/// Matches are never removed. A match only moves forward through its life
/// (pending, then active, then completed; or pending, then cancelled), its
/// terms never change, and once completed or cancelled it never changes at
/// all. A call that works on another match, or on none, leaves it as it was.
pub proof fn law_match_lifecycle(s: EscrowView, c: Call, k: u64)
    requires
        s.matches.contains_key(k),
    ensures
        step(s, c).0.matches.contains_key(k),
        allowed_move(s.matches[k].state, step(s, c).0.matches[k].state),
        same_terms(s.matches[k], step(s, c).0.matches[k]),
        is_terminal(s.matches[k].state) ==> step(s, c).0.matches[k] == s.matches[k],
        target(c) != Some(k) ==> step(s, c).0.matches[k] == s.matches[k],
{
    match c {
        Call::CreateMatch { .. } => {},
        Call::Deposit { .. } => {},
        Call::SubmitResult { .. } => {},
        Call::CancelMatch { .. } => {},
        Call::ExpireMatch { .. } => {},
        _ => {},
    }
}

/// Escrow accounting, call by call: every call changes what the escrow
/// holds for the match under `k` by exactly what it pays into escrow for
/// that match less what it pays out of escrow for it; every transfer of a
/// call on a stored match is in that match's token.
pub proof fn law_escrow_accounting(s: EscrowView, c: Call, k: u64)
    requires
        admissible(s, c),
    ensures
        held_at(step(s, c).0, k) == held_at(s, k) + paid_in(c, step(s, c).1, k) - paid_out(
            c,
            step(s, c).1,
            k,
        ),
        target(c) == Some(k) && s.matches.contains_key(k) ==> forall|i: int|
            0 <= i < step(s, c).1.transfers.len() ==> (#[trigger] step(s, c).1.transfers[i]).token
                == s.matches[k].token,
{
    reveal_with_fuel(total_amount, 3);
    let (t, r) = step(s, c);
    if s.matches.contains_key(k) {
        lemma_held_value(s.matches[k]);
    }
    if t.matches.contains_key(k) {
        lemma_held_value(t.matches[k]);
    }
    match c {
        Call::Deposit { id, player } => {
            if id == k && r.result is Ok {
                assert(r.transfers.drop_last().len() == 0);
            }
        },
        Call::SubmitResult { id, winner, caller, ledger } => {
            if id == k && r.result is Ok {
                match winner {
                    Winner::Draw => {
                        assert(r.transfers.drop_last().drop_last().len() == 0);
                        assert(r.transfers.drop_last() =~= seq![r.transfers[0]]);
                    },
                    _ => {
                        assert(r.transfers.drop_last().len() == 0);
                    },
                }
            }
        },
        Call::CancelMatch { id, .. } => {
            if id == k && r.result is Ok {
                lemma_refunds_total(s.matches[k], s.address);
            }
        },
        Call::ExpireMatch { id, .. } => {
            if id == k && r.result is Ok {
                lemma_refunds_total(s.matches[k], s.address);
            }
        },
        Call::CreateMatch { player1, player2, stake_amount, token, game_id, platform, ledger } => {
            if r.result is Ok && k == s.match_count {
                lemma_held_value(
                    new_match(k, player1, player2, stake_amount, token, game_id, platform, ledger),
                );
            }
        },
        _ => {},
    }
}

/// Escrow accounting over a whole run of calls: what the escrow holds for
/// the match under `k` at the end is what it held at the start, plus all
/// that the run paid into escrow for it, less all that it paid out for it.
pub proof fn law_escrow_balance_over_run(s: EscrowView, cs: Seq<Call>, k: u64)
    requires
        run_admissible(s, cs),
    ensures
        held_at(run(s, cs), k) == held_at(s, k) + total_in(s, cs, k) - total_out(s, cs, k),
    decreases cs.len(),
{
    if cs.len() > 0 {
        law_escrow_balance_over_run(s, cs.drop_last(), k);
        law_escrow_accounting(run(s, cs.drop_last()), cs.last(), k);
    }
}

/// Starting from a contract with no matches (such as a new one, before it is
/// initialized), the balance that `get_escrow_balance` reports for a match
/// after any run of calls is all the deposits paid in for it less all the
/// payouts and refunds paid out for it; so it is 0 once those are equal,
/// and every match that is over has paid out all that was paid in.
pub proof fn law_escrow_balance_from_start(s: EscrowView, cs: Seq<Call>, k: u64)
    requires
        s.matches.dom() =~= Set::<u64>::empty(),
        run_admissible(s, cs),
        run(s, cs).matches.contains_key(k),
    ensures
        balance_of(run(s, cs), k) == Ok::<int, Error>(total_in(s, cs, k) - total_out(s, cs, k)),
        is_terminal(run(s, cs).matches[k].state) ==> total_in(s, cs, k) == total_out(s, cs, k),
{
    assert(!s.matches.contains_key(k));
    law_escrow_balance_over_run(s, cs, k);
}

/// Refunding a pending match's deposits pays out exactly what the escrow
/// holds for it, all in its token.
proof fn lemma_refunds_total(m: MatchView, me: Seq<u8>)
    requires
        m.state == MatchState::Pending,
    ensures
        total_amount(refunds(m, me)) == escrow_held(m),
        forall|i: int| 0 <= i < refunds(m, me).len() ==> (#[trigger] refunds(m, me)[i]).token == m.token,
{
    reveal_with_fuel(total_amount, 3);
    let rs: Seq<TransferView> = refunds(m, me);
    let a: TransferView = payment(m, me, m.player1, m.stake_amount as int);
    let b: TransferView = payment(m, me, m.player2, m.stake_amount as int);
    lemma_held_value(m);
    if m.player1_deposited && m.player2_deposited {
        assert(rs =~= seq![a, b]);
        assert(rs.drop_last() =~= seq![a]);
        assert(rs.drop_last().drop_last().len() == 0);
    } else if m.player1_deposited {
        assert(rs =~= seq![a]);
        assert(rs.drop_last().len() == 0);
    } else if m.player2_deposited {
        assert(rs =~= seq![b]);
        assert(rs.drop_last().len() == 0);
    } else {
        assert(rs.len() == 0);
    }
}

/// What a list of transfers pays to `who`.
pub open spec fn paid_to(ts: Seq<TransferView>, who: Seq<u8>) -> int
    decreases ts.len(),
{
    if ts.len() == 0 {
        0
    } else {
        paid_to(ts.drop_last(), who) + (if ts.last().to == who {
            ts.last().amount as int
        } else {
            0
        })
    }
}

/// The calls that a pause blocks.
pub open spec fn blocked_by_pause(c: Call) -> bool {
    c is CreateMatch || c is Deposit || c is SubmitResult
}

/// While the contract is paused, creating a match, depositing and submitting
/// a result are refused with `ContractPaused`.
pub proof fn law_pause_blocks(s: EscrowView, c: Call)
    requires
        s.paused,
        blocked_by_pause(c),
    ensures
        step(s, c).1.result == Err::<(), Error>(Error::ContractPaused),
{
}

/// Only the admin pauses and unpauses, and unpausing undoes pausing.
pub proof fn law_unpause_undoes_pause(s: EscrowView)
    requires
        !s.paused,
    ensures
        set_paused_step(s, true).1.auth == s.admin,
        set_paused_step(s, false).1.auth == s.admin,
        set_paused_step(s, true).1.result is Ok ==> set_paused_step(set_paused_step(s, true).0, false).0
            == s,
        s.admin is None ==> set_paused_step(s, true).1.result == Err::<(), Error>(Error::Unauthorized),
{
    if s.admin is Some {
        assert(set_paused_step(set_paused_step(s, true).0, false).0 =~= s);
    }
}

/// A result is accepted only from the oracle, only for an active match in
/// which both players have deposited. Then the winner is paid the whole pot
/// of two stakes, or on a draw each player gets their stake back, and the
/// match is completed.
pub proof fn law_payout(s: EscrowView, id: u64, winner: Winner, caller: Seq<u8>, ledger: u32)
    requires
        submit_result_step(s, id, winner, caller, ledger).1.result is Ok,
        reaches_payout(s, id, caller) ==> pot_in_range(s.matches[id]),
        s.matches.contains_key(id) ==> s.matches[id].player1 != s.matches[id].player2,
    ensures
        s.oracle == Some(caller),
        submit_result_step(s, id, winner, caller, ledger).1.auth == Some(caller),
        s.matches.contains_key(id),
        s.matches[id].state == MatchState::Active,
        s.matches[id].player1_deposited && s.matches[id].player2_deposited,
        submit_result_step(s, id, winner, caller, ledger).0.matches[id].state
            == MatchState::Completed,
        ({
            let ts: Seq<TransferView> = submit_result_step(s, id, winner, caller, ledger).1.transfers;
            let m: MatchView = s.matches[id];
            match winner {
                Winner::Player1 => paid_to(ts, m.player1) == 2 * m.stake_amount && paid_to(ts, m.player2)
                    == 0,
                Winner::Player2 => paid_to(ts, m.player2) == 2 * m.stake_amount && paid_to(ts, m.player1)
                    == 0,
                Winner::Draw => paid_to(ts, m.player1) == m.stake_amount && paid_to(ts, m.player2)
                    == m.stake_amount,
            }
        }),
{
    reveal_with_fuel(paid_to, 3);
    let ts: Seq<TransferView> = submit_result_step(s, id, winner, caller, ledger).1.transfers;
    match winner {
        Winner::Draw => {
            assert(ts.drop_last() =~= seq![ts[0]]);
            assert(ts.drop_last().drop_last().len() == 0);
        },
        _ => {
            assert(ts.drop_last().len() == 0);
        },
    }
}

/// Funds leave the escrow only towards the players of the match that the
/// call works on (leaving aside a deposit made by the escrow itself as a
/// player, which pays the escrow from the escrow).
pub proof fn law_funds_leave_only_to_players(s: EscrowView, c: Call, i: int)
    requires
        0 <= i < step(s, c).1.transfers.len(),
        step(s, c).1.transfers[i].from == s.address,
        !(c matches Call::Deposit { player, .. } && player == s.address),
    ensures
        target(c) is Some,
        s.matches.contains_key(target(c)->0),
        step(s, c).1.transfers[i].to == s.matches[target(c)->0].player1 || step(s, c).1.transfers[i].to
            == s.matches[target(c)->0].player2,
{
    let ts: Seq<TransferView> = step(s, c).1.transfers;
    match c {
        Call::CancelMatch { id, .. } => {
            let m: MatchView = s.matches[id];
            assert(ts =~= refunds(m, s.address));
        },
        Call::ExpireMatch { id, .. } => {
            let m: MatchView = s.matches[id];
            assert(ts =~= refunds(m, s.address));
        },
        _ => {},
    }
}

/// A created match is stored under the next id, which is the match count
/// before the call, and can be read back at once: pending, with no deposits
/// and nothing in escrow. The count moves on by one and the game id is taken.
pub proof fn law_created_match_is_stored(
    s: EscrowView,
    player1: Seq<u8>,
    player2: Seq<u8>,
    stake_amount: i128,
    token: Seq<u8>,
    game_id: Seq<u8>,
    platform: Platform,
    ledger: u32,
)
    requires
        create_match_step(s, player1, player2, stake_amount, token, game_id, platform, ledger).1.result
            is Ok,
    ensures
        ({
            let (t, r) = create_match_step(
                s,
                player1,
                player2,
                stake_amount,
                token,
                game_id,
                platform,
                ledger,
            );
            let id: u64 = s.match_count;
            &&& r.result == Ok::<u64, Error>(id)
            &&& r.auth == Some(player1)
            &&& t.match_count == id + 1
            &&& match_of(t, id) == Ok::<MatchView, Error>(
                new_match(id, player1, player2, stake_amount, token, game_id, platform, ledger),
            )
            &&& funded_of(t, id) == Ok::<bool, Error>(false)
            &&& balance_of(t, id) == Ok::<int, Error>(0)
            &&& t.game_ids.contains(game_id)
            &&& stake_amount > 0
            &&& 0 < game_id.len() <= 64
            &&& player2 != s.address
        }),
{
    lemma_held_value(
        new_match(s.match_count, player1, player2, stake_amount, token, game_id, platform, ledger),
    );
}

/// Game ids are never released: a game id once taken stays taken,
/// whatever the call.
pub proof fn law_game_ids_never_released(s: EscrowView, c: Call)
    ensures
        s.game_ids.subset_of(step(s, c).0.game_ids),
{
}

/// A game id is used by one match only: once a match has taken it, creating
/// another match with it is refused.
pub proof fn law_game_id_used_once(
    s: EscrowView,
    player1: Seq<u8>,
    player2: Seq<u8>,
    stake_amount: i128,
    token: Seq<u8>,
    game_id: Seq<u8>,
    platform: Platform,
    ledger: u32,
    other1: Seq<u8>,
    other2: Seq<u8>,
    other_stake: i128,
    other_token: Seq<u8>,
    other_platform: Platform,
    other_ledger: u32,
)
    requires
        create_match_step(s, player1, player2, stake_amount, token, game_id, platform, ledger).1.result
            is Ok,
    ensures
        create_match_step(
            create_match_step(s, player1, player2, stake_amount, token, game_id, platform, ledger).0,
            other1,
            other2,
            other_stake,
            other_token,
            game_id,
            other_platform,
            other_ledger,
        ).1.result is Err,
{
}

/// Each player deposits at most once: right after a successful deposit,
/// the same player's next deposit into the match is refused.
pub proof fn law_single_deposit(s: EscrowView, id: u64, player: Seq<u8>)
    requires
        deposit_step(s, id, player).1.result is Ok,
    ensures
        deposit_step(deposit_step(s, id, player).0, id, player).1.result is Err,
{
}

/// A deposit is accepted only from a player of a pending match, who
/// authorizes it, and takes exactly the stake, in the match's token, from
/// that player into the escrow.
pub proof fn law_deposit_takes_stake(s: EscrowView, id: u64, player: Seq<u8>)
    requires
        deposit_step(s, id, player).1.result is Ok,
    ensures
        s.matches.contains_key(id),
        s.matches[id].state == MatchState::Pending,
        player == s.matches[id].player1 || player == s.matches[id].player2,
        deposit_step(s, id, player).1.auth == Some(player),
        deposit_step(s, id, player).1.transfers == seq![
            TransferView {
                token: s.matches[id].token,
                from: player,
                to: s.address,
                amount: s.matches[id].stake_amount,
            },
        ],
{
}

/// When both players of a fresh match deposit, the match becomes active and
/// funded, the escrow holds both stakes, and the activation is announced
/// with the second deposit only.
pub proof fn law_both_deposits_activate(s: EscrowView, id: u64)
    requires
        !s.paused,
        s.matches.contains_key(id),
        s.matches[id].state == MatchState::Pending,
        !s.matches[id].player1_deposited,
        !s.matches[id].player2_deposited,
        s.matches[id].player1 != s.matches[id].player2,
    ensures
        ({
            let m: MatchView = s.matches[id];
            let (t1, r1) = deposit_step(s, id, m.player1);
            let (t2, r2) = deposit_step(t1, id, m.player2);
            &&& r1.result is Ok
            &&& r1.events.len() == 0
            &&& funded_of(t1, id) == Ok::<bool, Error>(false)
            &&& balance_of(t1, id) == Ok::<int, Error>(m.stake_amount as int)
            &&& r2.result is Ok
            &&& r2.events == seq![EventView::MatchActivated { id }]
            &&& t2.matches[id].state == MatchState::Active
            &&& funded_of(t2, id) == Ok::<bool, Error>(true)
            &&& balance_of(t2, id) == Ok::<int, Error>(2 * m.stake_amount)
        }),
{
    let m: MatchView = s.matches[id];
    let (t1, r1) = deposit_step(s, id, m.player1);
    let (t2, r2) = deposit_step(t1, id, m.player2);
    lemma_held_value(t1.matches[id]);
    lemma_held_value(t2.matches[id]);
}

/// After the admin names a new oracle, it is the oracle that `get_oracle`
/// answers, and a result submitted by anyone else, the old oracle
/// included, is refused.
pub proof fn law_oracle_rotation(
    s: EscrowView,
    oracle: Seq<u8>,
    id: u64,
    winner: Winner,
    caller: Seq<u8>,
    ledger: u32,
)
    requires
        update_oracle_step(s, oracle).1.result is Ok,
        caller != oracle,
    ensures
        update_oracle_step(s, oracle).1.auth == s.admin,
        oracle_of(update_oracle_step(s, oracle).0) == Ok::<Seq<u8>, Error>(oracle),
        submit_result_step(update_oracle_step(s, oracle).0, id, winner, caller, ledger).1.result
            is Err,
        submit_result_step(update_oracle_step(s, oracle).0, id, winner, caller, ledger).0
            == update_oracle_step(s, oracle).0,
{
}

/// What the escrow holds for a match is always a whole number of stakes:
/// none, one or two.
pub proof fn law_balance_is_whole_stakes(m: MatchView)
    ensures
        escrow_held(m) == 0 || escrow_held(m) == m.stake_amount || escrow_held(m) == 2
            * m.stake_amount,
        is_terminal(m.state) ==> escrow_held(m) == 0,
{
    lemma_held_value(m);
}

/// Every stored match is stored under its own id.
pub open spec fn keyed(s: EscrowView) -> bool {
    forall|k: u64| #[trigger] s.matches.contains_key(k) ==> s.matches[k].id == k
}

/// The stored state of every contract value keeps each match under its own id.
pub proof fn lemma_view_keyed(c: EscrowContract)
    ensures
        keyed(c@),
{
    assert forall|k: u64| #[trigger] c@.matches.contains_key(k) implies c@.matches[k].id == k by {
        let i: int = slot_of(c.matches@, k);
        assert(c.matches@[i].id == k);
    }
}

/// The live matches are exactly the active matches among the ids below the
/// match count, and the pending matches exactly the pending ones: each as
/// stored, in increasing id order.
pub proof fn law_listings_exact(s: EscrowView)
    requires
        keyed(s),
    ensures
        live_matches(s) == listed_below(s, MatchState::Active, s.match_count as nat),
        pending_matches(s) == listed_below(s, MatchState::Pending, s.match_count as nat),
        forall|st: MatchState, i: int|
            0 <= i < listed_below(s, st, s.match_count as nat).len() ==> {
                let m: MatchView = #[trigger] listed_below(s, st, s.match_count as nat)[i];
                &&& m.id < s.match_count
                &&& s.matches.contains_key(m.id)
                &&& s.matches[m.id] == m
                &&& m.state == st
            },
        forall|st: MatchState, i: int, j: int|
            0 <= i < j < listed_below(s, st, s.match_count as nat).len() ==> (#[trigger] listed_below(
                s,
                st,
                s.match_count as nat,
            )[i]).id < (#[trigger] listed_below(s, st, s.match_count as nat)[j]).id,
        forall|st: MatchState, k: u64|
            k < s.match_count && s.matches.contains_key(k) && s.matches[k].state == st
                ==> #[trigger] listed_below(s, st, s.match_count as nat).contains(s.matches[k]),
{
    lemma_listed_below(s, MatchState::Pending, s.match_count as nat);
    lemma_listed_below(s, MatchState::Active, s.match_count as nat);
    lemma_listed_below(s, MatchState::Completed, s.match_count as nat);
    lemma_listed_below(s, MatchState::Cancelled, s.match_count as nat);
}

/// `listed_below` holds, in increasing id order, the stored matches in
/// state `st` with ids below `n`, and all of them.
proof fn lemma_listed_below(s: EscrowView, st: MatchState, n: nat)
    requires
        keyed(s),
        n <= u64::MAX + 1,
    ensures
        forall|i: int|
            0 <= i < listed_below(s, st, n).len() ==> {
                let m: MatchView = #[trigger] listed_below(s, st, n)[i];
                &&& m.id < n
                &&& s.matches.contains_key(m.id)
                &&& s.matches[m.id] == m
                &&& m.state == st
            },
        forall|i: int, j: int|
            0 <= i < j < listed_below(s, st, n).len() ==> (#[trigger] listed_below(s, st, n)[i]).id < (
            #[trigger] listed_below(s, st, n)[j]).id,
        forall|k: u64|
            k < n && s.matches.contains_key(k) && s.matches[k].state == st ==> #[trigger] listed_below(
                s,
                st,
                n,
            ).contains(s.matches[k]),
    decreases n,
{
    if n > 0 {
        lemma_listed_below(s, st, (n - 1) as nat);
        let k: u64 = (n - 1) as u64;
        let rest: Seq<MatchView> = listed_below(s, st, (n - 1) as nat);
        if s.matches.contains_key(k) && s.matches[k].state == st {
            let l: Seq<MatchView> = rest.push(s.matches[k]);
            assert(listed_below(s, st, n) == l);
            assert forall|q: u64|
                q < n && s.matches.contains_key(q) && s.matches[q].state == st implies #[trigger] l.contains(
                s.matches[q],
            ) by {
                if q < k {
                    assert(rest.contains(s.matches[q]));
                    let w: int = choose|w: int| 0 <= w < rest.len() && rest[w] == s.matches[q];
                    assert(l[w] == s.matches[q]);
                } else {
                    assert(l[rest.len() as int] == s.matches[q]);
                }
            }
        } else {
            assert forall|q: u64|
                q < n && s.matches.contains_key(q) && s.matches[q].state == st implies #[trigger] rest.contains(
                s.matches[q],
            ) by {
                if q == k {
                } else {
                    assert(q < n - 1);
                }
            }
        }
    }
}

/// The matches listed for a player are exactly the stored matches, among
/// the ids below the match count, in which the player plays, in increasing
/// id order, each once.
pub proof fn law_player_matches_exact(s: EscrowView, player: Seq<u8>)
    ensures
        forall|i: int|
            0 <= i < player_matches(s, player).len() ==> {
                let k: u64 = #[trigger] player_matches(s, player)[i];
                &&& k < s.match_count
                &&& s.matches.contains_key(k)
                &&& (s.matches[k].player1 == player || s.matches[k].player2 == player)
            },
        forall|i: int, j: int|
            0 <= i < j < player_matches(s, player).len() ==> #[trigger] player_matches(s, player)[i]
                < #[trigger] player_matches(s, player)[j],
        forall|k: u64|
            k < s.match_count && s.matches.contains_key(k) && (s.matches[k].player1 == player
                || s.matches[k].player2 == player) ==> #[trigger] player_matches(s, player).contains(k),
{
    lemma_player_ids_below(s, player, s.match_count as nat);
}

/// `player_ids_below` holds, in increasing order, the ids below `n` of the
/// stored matches in which `player` plays, and all of them.
proof fn lemma_player_ids_below(s: EscrowView, player: Seq<u8>, n: nat)
    requires
        n <= u64::MAX + 1,
    ensures
        forall|i: int|
            0 <= i < player_ids_below(s, player, n).len() ==> {
                let k: u64 = #[trigger] player_ids_below(s, player, n)[i];
                &&& k < n
                &&& s.matches.contains_key(k)
                &&& (s.matches[k].player1 == player || s.matches[k].player2 == player)
            },
        forall|i: int, j: int|
            0 <= i < j < player_ids_below(s, player, n).len() ==> #[trigger] player_ids_below(
                s,
                player,
                n,
            )[i] < #[trigger] player_ids_below(s, player, n)[j],
        forall|k: u64|
            k < n && s.matches.contains_key(k) && (s.matches[k].player1 == player || s.matches[k].player2
                == player) ==> #[trigger] player_ids_below(s, player, n).contains(k),
    decreases n,
{
    if n > 0 {
        lemma_player_ids_below(s, player, (n - 1) as nat);
        let k: u64 = (n - 1) as u64;
        let rest: Seq<u64> = player_ids_below(s, player, (n - 1) as nat);
        if s.matches.contains_key(k) && (s.matches[k].player1 == player || s.matches[k].player2 == player) {
            let l: Seq<u64> = rest.push(k);
            assert(player_ids_below(s, player, n) == l);
            assert forall|q: u64|
                q < n && s.matches.contains_key(q) && (s.matches[q].player1 == player || s.matches[q].player2
                    == player) implies #[trigger] l.contains(q) by {
                if q < k {
                    assert(rest.contains(q));
                    let w: int = choose|w: int| 0 <= w < rest.len() && rest[w] == q;
                    assert(l[w] == q);
                } else {
                    assert(l[rest.len() as int] == q);
                }
            }
        } else {
            assert forall|q: u64|
                q < n && s.matches.contains_key(q) && (s.matches[q].player1 == player || s.matches[q].player2
                    == player) implies #[trigger] rest.contains(q) by {
                if q != k {
                    assert(q < n - 1);
                }
            }
        }
    }
}

/// Handing over the admin role: until the proposed successor accepts, the
/// admin keeps every privilege; a later proposal replaces an earlier one,
/// so only the last one proposed can accept; on accepting, the successor
/// becomes the admin, and the proposal is used up.
pub proof fn law_admin_handover(s: EscrowView, first: Seq<u8>, second: Seq<u8>)
    requires
        s.admin is Some,
    ensures
        ({
            let (t1, r1) = propose_admin_step(s, first);
            let (t2, r2) = propose_admin_step(t1, second);
            let (t3, r3) = accept_admin_step(t2);
            &&& r1.auth == s.admin && r2.auth == s.admin
            &&& t1.admin == s.admin && t2.admin == s.admin
            &&& set_paused_step(t2, true).1.auth == s.admin
            &&& update_oracle_step(t2, second).1.auth == s.admin
            &&& r3.result is Ok
            &&& r3.auth == Some(second)
            &&& t3.admin == Some(second)
            &&& t3.pending_admin is None
            &&& accept_admin_step(t3).1.result is Err
            &&& set_paused_step(t3, true).1.auth == Some(second)
        }),
{
}

/// Transferring the admin role takes effect at once: the admin calls that
/// follow demand the new admin's authorization.
pub proof fn law_admin_transfer(s: EscrowView, admin: Seq<u8>)
    requires
        s.admin is Some,
    ensures
        transfer_admin_step(s, admin).1.auth == s.admin,
        transfer_admin_step(s, admin).0.admin == Some(admin),
        set_paused_step(transfer_admin_step(s, admin).0, true).1.auth == Some(admin),
{
}

/// The bookkeeping of a match agrees with its state: a pending match has
/// not both stakes in, active and completed matches have both, and a match
/// has a closing ledger exactly when it is over.
pub open spec fn consistent_match(m: MatchView) -> bool {
    &&& m.state == MatchState::Pending ==> !(m.player1_deposited && m.player2_deposited)
    &&& (m.state == MatchState::Active || m.state == MatchState::Completed) ==> m.player1_deposited
        && m.player2_deposited
    &&& m.completed_ledger is Some <==> is_terminal(m.state)
}

/// Every stored match is consistent.
pub open spec fn consistent(s: EscrowView) -> bool {
    forall|k: u64| #[trigger] s.matches.contains_key(k) ==> consistent_match(s.matches[k])
}

/// Every call keeps the stored matches consistent.
pub proof fn law_consistency_preserved(s: EscrowView, c: Call)
    requires
        consistent(s),
    ensures
        consistent(step(s, c).0),
{
    let t: EscrowView = step(s, c).0;
    assert forall|k: u64| #[trigger] t.matches.contains_key(k) implies consistent_match(t.matches[k]) by {
        if s.matches.contains_key(k) {
            assert(consistent_match(s.matches[k]));
        }
    }
}

/// In a state that the calls have built, a result that the oracle submits
/// for a stored match is refused with `NotFunded` exactly while the match is
/// pending (not both players have deposited), refused with `InvalidState`
/// exactly once the match is over, and accepted exactly while it is active.
pub proof fn law_result_answers(s: EscrowView, id: u64, winner: Winner, caller: Seq<u8>, ledger: u32)
    requires
        consistent(s),
        !s.paused,
        s.oracle == Some(caller),
        s.matches.contains_key(id),
    ensures
        (s.matches[id].state == MatchState::Pending <==> submit_result_step(s, id, winner, caller, ledger).1.result
            == Err::<(), Error>(Error::NotFunded)),
        (is_terminal(s.matches[id].state) <==> submit_result_step(s, id, winner, caller, ledger).1.result
            == Err::<(), Error>(Error::InvalidState)),
        (s.matches[id].state == MatchState::Active <==> (submit_result_step(s, id, winner, caller, ledger).1.result is Ok)),
{
    assert(consistent_match(s.matches[id]));
}

/// Refunds pay each of two distinct players back their own stake if they
/// deposited and nothing otherwise, every refund leaving the escrow in the
/// match's token.
proof fn lemma_refunds_each(m: MatchView, me: Seq<u8>)
    requires
        m.player1 != m.player2,
    ensures
        paid_to(refunds(m, me), m.player1) == (if m.player1_deposited {
            m.stake_amount as int
        } else {
            0
        }),
        paid_to(refunds(m, me), m.player2) == (if m.player2_deposited {
            m.stake_amount as int
        } else {
            0
        }),
        forall|i: int|
            0 <= i < refunds(m, me).len() ==> (#[trigger] refunds(m, me)[i]).from == me
                && refunds(m, me)[i].token == m.token,
{
    reveal_with_fuel(paid_to, 3);
    let rs: Seq<TransferView> = refunds(m, me);
    let a: TransferView = payment(m, me, m.player1, m.stake_amount as int);
    let b: TransferView = payment(m, me, m.player2, m.stake_amount as int);
    if m.player1_deposited && m.player2_deposited {
        assert(rs =~= seq![a, b]);
        assert(rs.drop_last() =~= seq![a]);
        assert(rs.drop_last().drop_last().len() == 0);
    } else if m.player1_deposited {
        assert(rs =~= seq![a]);
        assert(rs.drop_last().len() == 0);
    } else if m.player2_deposited {
        assert(rs =~= seq![b]);
        assert(rs.drop_last().len() == 0);
    } else {
        assert(rs.len() == 0);
    }
}

/// A deposit into an unpaused, pending match with two distinct players, by
/// a player who has not deposited yet, is accepted whichever player comes
/// first. It takes the player's stake into escrow, marks that player as
/// deposited and leaves the other player's deposit as it was; the match
/// becomes active, and funded, exactly when the other player had already
/// deposited, and otherwise stays pending.
pub proof fn law_deposit_in_either_order(s: EscrowView, id: u64, player: Seq<u8>)
    requires
        !s.paused,
        s.matches.contains_key(id),
        s.matches[id].state == MatchState::Pending,
        s.matches[id].player1 != s.matches[id].player2,
        (player == s.matches[id].player1 && !s.matches[id].player1_deposited) || (player
            == s.matches[id].player2 && !s.matches[id].player2_deposited),
    ensures
        ({
            let m: MatchView = s.matches[id];
            let (t, r) = deposit_step(s, id, player);
            let other_in: bool = if player == m.player1 {
                m.player2_deposited
            } else {
                m.player1_deposited
            };
            &&& r.result is Ok
            &&& r.auth == Some(player)
            &&& r.transfers == seq![
                TransferView { token: m.token, from: player, to: s.address, amount: m.stake_amount },
            ]
            &&& r.events == (if other_in {
                seq![EventView::MatchActivated { id }]
            } else {
                Seq::empty()
            })
            &&& t == EscrowView { matches: s.matches.insert(id, t.matches[id]), ..s }
            &&& same_terms(t.matches[id], m)
            &&& t.matches.contains_key(id)
            &&& player == m.player1 ==> t.matches[id].player1_deposited
                && t.matches[id].player2_deposited == m.player2_deposited
            &&& player == m.player2 ==> t.matches[id].player2_deposited
                && t.matches[id].player1_deposited == m.player1_deposited
            &&& (t.matches[id].state == MatchState::Active) == other_in
            &&& !other_in ==> t.matches[id].state == MatchState::Pending
            &&& funded_of(t, id) == Ok::<bool, Error>(other_in)
            &&& balance_of(t, id) == Ok::<int, Error>(
                if other_in {
                    2 * m.stake_amount
                } else {
                    m.stake_amount as int
                },
            )
        }),
{
    let m: MatchView = s.matches[id];
    let t: EscrowView = deposit_step(s, id, player).0;
    lemma_held_value(t.matches[id]);
}

/// Two players of a fresh match may deposit in either order: after the
/// first one's deposit the match is still pending and not funded, and the
/// other player's deposit is then accepted, activates the match and makes
/// it funded, with both stakes in escrow.
pub proof fn law_deposits_activate_either_order(s: EscrowView, id: u64, first: Seq<u8>)
    requires
        !s.paused,
        s.matches.contains_key(id),
        s.matches[id].state == MatchState::Pending,
        !s.matches[id].player1_deposited,
        !s.matches[id].player2_deposited,
        s.matches[id].player1 != s.matches[id].player2,
        first == s.matches[id].player1 || first == s.matches[id].player2,
    ensures
        ({
            let m: MatchView = s.matches[id];
            let second: Seq<u8> = if first == m.player1 {
                m.player2
            } else {
                m.player1
            };
            let (t1, r1) = deposit_step(s, id, first);
            let (t2, r2) = deposit_step(t1, id, second);
            &&& r1.result is Ok
            &&& t1.matches[id].state == MatchState::Pending
            &&& funded_of(t1, id) == Ok::<bool, Error>(false)
            &&& r2.result is Ok
            &&& r2.events == seq![EventView::MatchActivated { id }]
            &&& t2.matches[id].state == MatchState::Active
            &&& t2.matches[id].player1_deposited && t2.matches[id].player2_deposited
            &&& funded_of(t2, id) == Ok::<bool, Error>(true)
            &&& balance_of(t2, id) == Ok::<int, Error>(2 * m.stake_amount)
        }),
{
    let m: MatchView = s.matches[id];
    let second: Seq<u8> = if first == m.player1 {
        m.player2
    } else {
        m.player1
    };
    law_deposit_in_either_order(s, id, first);
    let t1: EscrowView = deposit_step(s, id, first).0;
    law_deposit_in_either_order(t1, id, second);
}

/// Either player may cancel a pending match, whether the contract is
/// paused or not, and whoever has deposited: the call is accepted with the
/// caller's authorization, the match is cancelled at the call's ledger with
/// its terms unchanged, every deposit goes back from the escrow to the
/// player who made it, and nothing is left in escrow for the match.
pub proof fn law_cancel_by_either_player(s: EscrowView, id: u64, caller: Seq<u8>, ledger: u32)
    requires
        s.matches.contains_key(id),
        s.matches[id].state == MatchState::Pending,
        caller == s.matches[id].player1 || caller == s.matches[id].player2,
    ensures
        ({
            let m: MatchView = s.matches[id];
            let (t, r) = cancel_match_step(s, id, caller, ledger);
            &&& r.result is Ok
            &&& r.auth == Some(caller)
            &&& r.events == seq![EventView::MatchCancelled { id }]
            &&& t == EscrowView { matches: s.matches.insert(id, t.matches[id]), ..s }
            &&& t.matches.contains_key(id)
            &&& t.matches[id].state == MatchState::Cancelled
            &&& t.matches[id].completed_ledger == Some(ledger)
            &&& same_terms(t.matches[id], m)
            &&& t.matches[id].player1_deposited == m.player1_deposited
            &&& t.matches[id].player2_deposited == m.player2_deposited
            &&& total_amount(r.transfers) == escrow_held(m)
            &&& balance_of(t, id) == Ok::<int, Error>(0)
            &&& m.player1 != m.player2 ==> paid_to(r.transfers, m.player1) == (if m.player1_deposited {
                m.stake_amount as int
            } else {
                0
            }) && paid_to(r.transfers, m.player2) == (if m.player2_deposited {
                m.stake_amount as int
            } else {
                0
            })
            &&& forall|i: int|
                0 <= i < r.transfers.len() ==> (#[trigger] r.transfers[i]).from == s.address
                    && r.transfers[i].token == m.token
        }),
{
    let m: MatchView = s.matches[id];
    lemma_refunds_total(m, s.address);
    if m.player1 != m.player2 {
        lemma_refunds_each(m, s.address);
    }
    let rs: Seq<TransferView> = refunds(m, s.address);
    assert forall|i: int| 0 <= i < rs.len() implies (#[trigger] rs[i]).from == s.address by {
        if m.player1_deposited {
            assert(rs[0] == payment(m, s.address, m.player1, m.stake_amount as int));
        }
    }
}

/// Anyone may expire a pending match once `MATCH_TTL_LEDGERS` ledgers have
/// passed since it was created, whatever its deposits and whether the
/// contract is paused or not: the match is cancelled at the call's ledger,
/// every deposit goes back from the escrow to the player who made it, and
/// nothing is left in escrow for the match.
pub proof fn law_expiry_after_timeout(s: EscrowView, id: u64, ledger: u32)
    requires
        s.matches.contains_key(id),
        s.matches[id].state == MatchState::Pending,
        ledger as int >= s.matches[id].created_ledger as int + MATCH_TTL_LEDGERS as int,
    ensures
        ({
            let m: MatchView = s.matches[id];
            let (t, r) = expire_match_step(s, id, ledger);
            &&& r.result is Ok
            &&& r.auth is None
            &&& r.events == seq![EventView::MatchExpired { id }]
            &&& t == EscrowView { matches: s.matches.insert(id, t.matches[id]), ..s }
            &&& t.matches[id].player1_deposited == m.player1_deposited
            &&& t.matches[id].player2_deposited == m.player2_deposited
            &&& t.matches.contains_key(id)
            &&& t.matches[id].state == MatchState::Cancelled
            &&& t.matches[id].completed_ledger == Some(ledger)
            &&& same_terms(t.matches[id], m)
            &&& total_amount(r.transfers) == escrow_held(m)
            &&& balance_of(t, id) == Ok::<int, Error>(0)
            &&& m.player1 != m.player2 ==> paid_to(r.transfers, m.player1) == (if m.player1_deposited {
                m.stake_amount as int
            } else {
                0
            }) && paid_to(r.transfers, m.player2) == (if m.player2_deposited {
                m.stake_amount as int
            } else {
                0
            })
            &&& forall|i: int|
                0 <= i < r.transfers.len() ==> (#[trigger] r.transfers[i]).from == s.address
                    && r.transfers[i].token == m.token
        }),
{
    let m: MatchView = s.matches[id];
    lemma_refunds_total(m, s.address);
    if m.player1 != m.player2 {
        lemma_refunds_each(m, s.address);
    }
    let rs: Seq<TransferView> = refunds(m, s.address);
    assert forall|i: int| 0 <= i < rs.len() implies (#[trigger] rs[i]).from == s.address by {
        if m.player1_deposited {
            assert(rs[0] == payment(m, s.address, m.player1, m.stake_amount as int));
        }
    }
}

/// Before `MATCH_TTL_LEDGERS` ledgers have passed since a pending match was
/// created (a ledger before its creation included), expiring it is refused
/// with `MatchNotExpired` and changes nothing.
pub proof fn law_no_expiry_before_timeout(s: EscrowView, id: u64, ledger: u32)
    requires
        s.matches.contains_key(id),
        s.matches[id].state == MatchState::Pending,
        (ledger as int) < s.matches[id].created_ledger as int + MATCH_TTL_LEDGERS as int,
    ensures
        expire_match_step(s, id, ledger).1.result == Err::<(), Error>(Error::MatchNotExpired),
        expire_match_step(s, id, ledger).0 == s,
{
}

/// On an unpaused contract, creating a match with a positive stake, a fresh
/// non-empty game id of at most `MAX_GAME_ID_LEN` bytes and a second player
/// other than the escrow succeeds whenever the next id is free and below
/// `u64::MAX`, however many matches exist: it answers the next id, stores
/// the new pending match under it and moves the count on by one.
pub proof fn law_create_succeeds(
    s: EscrowView,
    player1: Seq<u8>,
    player2: Seq<u8>,
    stake_amount: i128,
    token: Seq<u8>,
    game_id: Seq<u8>,
    platform: Platform,
    ledger: u32,
)
    requires
        !s.paused,
        stake_amount > 0,
        0 < game_id.len() <= MAX_GAME_ID_LEN,
        player2 != s.address,
        !s.game_ids.contains(game_id),
        !s.matches.contains_key(s.match_count),
        s.match_count < u64::MAX,
    ensures
        ({
            let (t, r) = create_match_step(
                s,
                player1,
                player2,
                stake_amount,
                token,
                game_id,
                platform,
                ledger,
            );
            let id: u64 = s.match_count;
            &&& r.result == Ok::<u64, Error>(id)
            &&& r.auth == Some(player1)
            &&& r.transfers.len() == 0
            &&& r.events == seq![EventView::MatchCreated { id, player1, player2, stake_amount }]
            &&& t.match_count == id + 1
            &&& match_of(t, id) == Ok::<MatchView, Error>(
                new_match(id, player1, player2, stake_amount, token, game_id, platform, ledger),
            )
            &&& t.matches == s.matches.insert(id, t.matches[id])
            &&& t.paused == s.paused && t.oracle == s.oracle && t.admin == s.admin
            &&& t.matches[id].state == MatchState::Pending
            &&& forall|k: u64| k != id ==> t.matches.contains_key(k) == s.matches.contains_key(k)
            &&& t.game_ids == s.game_ids.insert(game_id)
        }),
{
}

/// `is_funded` answers, for every stored match and in every state of the
/// match, whether both of its players have deposited, as `get_match` shows
/// them; for an unknown id both refuse with `MatchNotFound`.
pub proof fn law_funded_reads_deposits(s: EscrowView, id: u64)
    ensures
        match match_of(s, id) {
            Ok(m) => funded_of(s, id) == Ok::<bool, Error>(m.player1_deposited && m.player2_deposited),
            Err(e) => funded_of(s, id) == Err::<bool, Error>(e),
        },
        match_of(s, id) is Err ==> match_of(s, id) == Err::<MatchView, Error>(Error::MatchNotFound),
{
}

/// Once both players of a match have deposited, the match stays funded
/// whatever call comes next, completing or cancelling it included.
pub proof fn law_funded_stays_funded(s: EscrowView, c: Call, id: u64)
    requires
        funded_of(s, id) == Ok::<bool, Error>(true),
    ensures
        funded_of(step(s, c).0, id) == Ok::<bool, Error>(true),
{
}

/// After the oracle's result completes a match, the match reads back as
/// completed and still funded.
pub proof fn law_completed_match_is_funded(
    s: EscrowView,
    id: u64,
    winner: Winner,
    caller: Seq<u8>,
    ledger: u32,
)
    requires
        submit_result_step(s, id, winner, caller, ledger).1.result is Ok,
    ensures
        ({
            let t: EscrowView = submit_result_step(s, id, winner, caller, ledger).0;
            &&& funded_of(t, id) == Ok::<bool, Error>(true)
            &&& t.matches[id].state == MatchState::Completed
            &&& t.matches[id].player1_deposited && t.matches[id].player2_deposited
        }),
{
}

} // verus!
