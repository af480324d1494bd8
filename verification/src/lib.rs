//! Escrow for two-player chess wagers.
//!
//! Two players stake the same amount of a token on a game played on an
//! outside chess platform; a trusted oracle reports the result and the
//! escrow pays the winner the whole pot, or refunds both stakes on a draw.
//! A pending match can be cancelled by either player, or expired by anyone
//! once it has waited long enough, and whoever deposited is refunded.
//!
//! The library holds the contract's stored state as plain values and
//! decides every call: what it answers, how the stored state changes, whose
//! authorization it demands, which token transfers it makes and which events
//! it publishes. The host environment that runs the contract loads and saves
//! that state and carries out the transfers and events.

pub mod effects;
pub mod errors;
pub mod laws;
pub mod state;
pub mod types;
pub mod contract;

pub use contract::{EscrowContract, MATCH_TTL_LEDGERS, MAX_GAME_ID_LEN};
pub use effects::{Event, Outcome, Transfer};
pub use errors::Error;
pub use types::{Address, Match, MatchState, Platform, Winner};
