use vstd::prelude::*;

verus! {

/// Every way in which a call on the escrow can be refused.
#[derive(Clone, Copy, Debug, PartialEq, Eq, Structural)]
pub enum Error {
    /// No match exists for the given match id.
    MatchNotFound,
    /// The calling player has already deposited their stake for this match.
    AlreadyFunded,
    /// A result was submitted for a match in which a player has not deposited.
    NotFunded,
    /// The caller is not allowed to do this: not a player of the match, not the
    /// admin, not the oracle, or no admin or oracle has been set.
    Unauthorized,
    /// The match is not in the state that the operation needs.
    InvalidState,
    /// A match is already stored under the id that would be assigned.
    AlreadyExists,
    /// The contract has already been initialized.
    AlreadyInitialized,
    /// The match counter would overflow.
    Overflow,
    /// The contract is paused: creating matches, depositing and submitting
    /// results are blocked until the admin unpauses it.
    ContractPaused,
    /// The stake is zero or negative.
    InvalidAmount,
    /// A match that is no longer pending cannot be cancelled this way.
    MatchAlreadyActive,
    /// The match has not waited long enough to be expired.
    MatchNotExpired,
    /// The address cannot be used here, such as the escrow's own address as the oracle.
    InvalidAddress,
    /// The escrow's own address cannot be a player.
    InvalidPlayers,
    /// The game id is empty or invalid: longer than `MAX_GAME_ID_LEN` bytes.
    InvalidGameId,
    /// The token is not accepted.
    InvalidToken,
    /// A timeout of zero was given.
    InvalidTimeout,
    /// A timeout above the longest one allowed was given.
    TimeoutTooLarge,
    /// The game id has already been used by another match.
    DuplicateGameId,
    /// The match was cancelled.
    MatchCancelled,
    /// The match has already been completed.
    MatchCompleted,
}

/// The number under which each error is reported to callers.
pub open spec fn error_code(e: Error) -> u32 {
    match e {
        Error::MatchNotFound => 1,
        Error::AlreadyFunded => 2,
        Error::NotFunded => 3,
        Error::Unauthorized => 4,
        Error::InvalidState => 5,
        Error::AlreadyExists => 6,
        Error::AlreadyInitialized => 7,
        Error::Overflow => 8,
        Error::ContractPaused => 9,
        Error::InvalidAmount => 10,
        Error::MatchAlreadyActive => 11,
        Error::MatchNotExpired => 12,
        Error::InvalidAddress => 13,
        Error::InvalidPlayers => 14,
        Error::InvalidGameId => 15,
        Error::InvalidToken => 16,
        Error::InvalidTimeout => 17,
        Error::TimeoutTooLarge => 18,
        Error::DuplicateGameId => 19,
        Error::MatchCancelled => 20,
        Error::MatchCompleted => 21,
    }
}

impl Error {
    /// The number under which this error is reported to callers.
    pub fn code(&self) -> (c: u32)
        ensures
            c == error_code(*self),
    {
        match self {
            Error::MatchNotFound => 1,
            Error::AlreadyFunded => 2,
            Error::NotFunded => 3,
            Error::Unauthorized => 4,
            Error::InvalidState => 5,
            Error::AlreadyExists => 6,
            Error::AlreadyInitialized => 7,
            Error::Overflow => 8,
            Error::ContractPaused => 9,
            Error::InvalidAmount => 10,
            Error::MatchAlreadyActive => 11,
            Error::MatchNotExpired => 12,
            Error::InvalidAddress => 13,
            Error::InvalidPlayers => 14,
            Error::InvalidGameId => 15,
            Error::InvalidToken => 16,
            Error::InvalidTimeout => 17,
            Error::TimeoutTooLarge => 18,
            Error::DuplicateGameId => 19,
            Error::MatchCancelled => 20,
            Error::MatchCompleted => 21,
        }
    }
}

} // verus!
