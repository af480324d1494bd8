use vstd::prelude::*;

verus! {

/// Whether two byte strings are equal.
pub fn bytes_equal(a: &Vec<u8>, b: &Vec<u8>) -> (eq: bool)
    ensures
        eq == (a@ == b@),
{
    if a.len() != b.len() {
        return false;
    }
    let n: usize = a.len();
    let mut i: usize = 0;
    while i < n
        invariant
            n == a.len(),
            n == b.len(),
            i <= n,
            forall|j: int| 0 <= j < i ==> a@[j] == b@[j],
        decreases n - i,
    {
        if a[i] != b[i] {
            return false;
        }
        i = i + 1;
    }
    assert(a@ =~= b@);
    true
}

/// A copy of a byte string with the same contents.
pub fn copy_bytes(a: &Vec<u8>) -> (c: Vec<u8>)
    ensures
        c@ == a@,
{
    let c: Vec<u8> = a.clone();
    assert(c@ =~= a@);
    c
}

/// An account or contract on the ledger, identified by its encoded key.
pub struct Address {
    pub key: Vec<u8>,
}

impl View for Address {
    type V = Seq<u8>;

    open spec fn view(&self) -> Seq<u8> {
        self.key@
    }
}

impl Address {
    /// The address with the given encoded key.
    pub fn new(key: Vec<u8>) -> (a: Address)
        ensures
            a@ == key@,
    {
        Address { key }
    }

    /// Whether `self` and `other` are the same address.
    pub fn same_as(&self, other: &Address) -> (eq: bool)
        ensures
            eq == (self@ == other@),
    {
        bytes_equal(&self.key, &other.key)
    }
}

impl Clone for Address {
    fn clone(&self) -> (c: Self)
        ensures
            c@ == self@,
    {
        Address { key: copy_bytes(&self.key) }
    }
}

/// The optional address seen as an optional key.
pub open spec fn opt_view(a: Option<Address>) -> Option<Seq<u8>> {
    match a {
        Some(x) => Some(x@),
        None => None,
    }
}

/// A copy of an optional address.
pub fn copy_opt(a: &Option<Address>) -> (c: Option<Address>)
    ensures
        opt_view(c) == opt_view(*a),
{
    match a {
        Some(x) => Some(x.clone()),
        None => None,
    }
}

/// The chess platform on which the game is played.
#[derive(Clone, Copy, Debug, PartialEq, Eq, Structural)]
pub enum Platform {
    Lichess,
    ChessDotCom,
}

/// The result that the oracle reports.
#[derive(Clone, Copy, Debug, PartialEq, Eq, Structural)]
pub enum Winner {
    Player1,
    Player2,
    Draw,
}

/// Where a match stands in its life.
#[derive(Clone, Copy, Debug, PartialEq, Eq, Structural)]
pub enum MatchState {
    /// Created; waiting for both stakes.
    Pending,
    /// Both stakes are in escrow; waiting for the result.
    Active,
    /// The result was reported and the pot paid out.
    Completed,
    /// Cancelled or expired before it became active; deposits refunded.
    Cancelled,
}

/// A match between two players, as stored by the escrow.
pub struct Match {
    pub id: u64,
    pub player1: Address,
    pub player2: Address,
    pub stake_amount: i128,
    pub token: Address,
    pub game_id: Vec<u8>,
    pub platform: Platform,
    pub state: MatchState,
    pub player1_deposited: bool,
    pub player2_deposited: bool,
    pub created_ledger: u32,
    pub completed_ledger: Option<u32>,
}

/// A match with its addresses and game id seen as byte sequences.
pub struct MatchView {
    pub id: u64,
    pub player1: Seq<u8>,
    pub player2: Seq<u8>,
    pub stake_amount: i128,
    pub token: Seq<u8>,
    pub game_id: Seq<u8>,
    pub platform: Platform,
    pub state: MatchState,
    pub player1_deposited: bool,
    pub player2_deposited: bool,
    pub created_ledger: u32,
    pub completed_ledger: Option<u32>,
}

impl View for Match {
    type V = MatchView;

    open spec fn view(&self) -> MatchView {
        MatchView {
            id: self.id,
            player1: self.player1@,
            player2: self.player2@,
            stake_amount: self.stake_amount,
            token: self.token@,
            game_id: self.game_id@,
            platform: self.platform,
            state: self.state,
            player1_deposited: self.player1_deposited,
            player2_deposited: self.player2_deposited,
            created_ledger: self.created_ledger,
            completed_ledger: self.completed_ledger,
        }
    }
}

impl Clone for Match {
    fn clone(&self) -> (c: Self)
        ensures
            c@ == self@,
    {
        Match {
            id: self.id,
            player1: self.player1.clone(),
            player2: self.player2.clone(),
            stake_amount: self.stake_amount,
            token: self.token.clone(),
            game_id: copy_bytes(&self.game_id),
            platform: self.platform,
            state: self.state,
            player1_deposited: self.player1_deposited,
            player2_deposited: self.player2_deposited,
            created_ledger: self.created_ledger,
            completed_ledger: self.completed_ledger,
        }
    }
}

} // verus!
