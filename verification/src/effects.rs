use vstd::prelude::*;

use crate::errors::Error;
use crate::types::{opt_view, Address, Winner};

verus! {

/// A movement of tokens that a call makes.
pub struct Transfer {
    pub token: Address,
    pub from: Address,
    pub to: Address,
    pub amount: i128,
}

/// A transfer with its addresses seen as byte sequences.
pub struct TransferView {
    pub token: Seq<u8>,
    pub from: Seq<u8>,
    pub to: Seq<u8>,
    pub amount: i128,
}

impl View for Transfer {
    type V = TransferView;

    open spec fn view(&self) -> TransferView {
        TransferView { token: self.token@, from: self.from@, to: self.to@, amount: self.amount }
    }
}

/// What a call announces to the outside once it has succeeded.
pub enum Event {
    /// A match was created: its id, both players and the stake.
    MatchCreated { id: u64, player1: Address, player2: Address, stake_amount: i128 },
    /// Both stakes are in: the match is active.
    MatchActivated { id: u64 },
    /// The result was reported and paid out.
    MatchCompleted { id: u64, winner: Winner },
    /// A pending match was cancelled by a player.
    MatchCancelled { id: u64 },
    /// A pending match was expired after waiting too long.
    MatchExpired { id: u64 },
    /// The admin paused the contract.
    ContractPaused,
    /// The admin unpaused the contract.
    ContractUnpaused,
    /// The admin proposed a successor.
    AdminProposed { admin: Address },
    /// The proposed successor accepted and is now the admin.
    AdminTransferred { admin: Address },
}

/// An event with its addresses seen as byte sequences.
pub enum EventView {
    MatchCreated { id: u64, player1: Seq<u8>, player2: Seq<u8>, stake_amount: i128 },
    MatchActivated { id: u64 },
    MatchCompleted { id: u64, winner: Winner },
    MatchCancelled { id: u64 },
    MatchExpired { id: u64 },
    ContractPaused,
    ContractUnpaused,
    AdminProposed { admin: Seq<u8> },
    AdminTransferred { admin: Seq<u8> },
}

impl View for Event {
    type V = EventView;

    open spec fn view(&self) -> EventView {
        match self {
            Event::MatchCreated { id, player1, player2, stake_amount } => EventView::MatchCreated {
                id: *id,
                player1: player1@,
                player2: player2@,
                stake_amount: *stake_amount,
            },
            Event::MatchActivated { id } => EventView::MatchActivated { id: *id },
            Event::MatchCompleted { id, winner } => EventView::MatchCompleted { id: *id, winner: *winner },
            Event::MatchCancelled { id } => EventView::MatchCancelled { id: *id },
            Event::MatchExpired { id } => EventView::MatchExpired { id: *id },
            Event::ContractPaused => EventView::ContractPaused,
            Event::ContractUnpaused => EventView::ContractUnpaused,
            Event::AdminProposed { admin } => EventView::AdminProposed { admin: admin@ },
            Event::AdminTransferred { admin } => EventView::AdminTransferred { admin: admin@ },
        }
    }
}

/// Everything a call decides besides the new stored state: whose
/// authorization it demands, what it answers, and, when it succeeds, the
/// transfers it makes and the events it publishes, in order.
///
/// The authorization is demanded before the answer is given: a call that
/// names an address here fails outright when that address has not
/// authorized it, whatever its answer would have been.
pub struct Outcome<T> {
    pub auth: Option<Address>,
    pub result: Result<T, Error>,
    pub transfers: Vec<Transfer>,
    pub events: Vec<Event>,
}

/// An outcome with its parts seen as plain values.
#[verifier::ext_equal]
pub struct Receipt<R> {
    pub auth: Option<Seq<u8>>,
    pub result: Result<R, Error>,
    pub transfers: Seq<TransferView>,
    pub events: Seq<EventView>,
}

impl<T: View> View for Outcome<T> {
    type V = Receipt<T::V>;

    open spec fn view(&self) -> Receipt<T::V> {
        Receipt {
            auth: opt_view(self.auth),
            result: match self.result {
                Ok(v) => Ok(v@),
                Err(e) => Err(e),
            },
            transfers: self.transfers@.map_values(|t: Transfer| t@),
            events: self.events@.map_values(|e: Event| e@),
        }
    }
}

/// The receipt of a call that was refused with `e` after demanding `auth`.
pub open spec fn refused<R>(auth: Option<Seq<u8>>, e: Error) -> Receipt<R> {
    Receipt { auth, result: Err(e), transfers: Seq::empty(), events: Seq::empty() }
}

/// The receipt of a call that succeeded.
pub open spec fn done<R>(
    auth: Option<Seq<u8>>,
    r: R,
    transfers: Seq<TransferView>,
    events: Seq<EventView>,
) -> Receipt<R> {
    Receipt { auth, result: Ok(r), transfers, events }
}

/// The refusal of a call with `e` after demanding `auth`.
pub(crate) fn refuse<T: View>(auth: Option<Address>, e: Error) -> (o: Outcome<T>)
    ensures
        o@ == refused::<T::V>(opt_view(auth), e),
{
    let o: Outcome<T> = Outcome { auth, result: Err(e), transfers: Vec::new(), events: Vec::new() };
    assert(o@ =~= refused::<T::V>(opt_view(auth), e));
    o
}

} // verus!
