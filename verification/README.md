# escrow

A verified escrow for two-player chess wagers. Both players stake the same
amount of a token; a trusted oracle reports the game's result, and the escrow
pays the winner the whole pot or refunds both stakes on a draw. A pending
match can be cancelled by either player, or expired by anyone after
`MATCH_TTL_LEDGERS` ledgers; whoever deposited is refunded. An admin can pause
the contract and replace the oracle.

Layout:

- `src/` — the library, verified with Verus.
  - `types.rs`: addresses, platforms, results, match states and matches.
  - `effects.rs`: what a call decides besides the new state: the
    authorization it demands, its answer, its token transfers and events.
  - `state.rs`: the stored matches as a map from id to match, and the
    reserved game ids as a set.
  - `contract.rs`: the contract's stored state and one method per entry
    point, each specified exactly by a step function from state to new state
    and receipt.
  - `laws.rs`: properties over all calls: refusals change nothing, matches
    only move forward through their life, escrow accounting, payouts, the
    pause, game-id reservation, oracle rotation, the live-match listing and
    the consistency that every call keeps.
- `tests/` — scenarios against a small stand-in ledger, and concrete cases of
  the laws and errors.
- `app/` — the Soroban contract around the library: it loads the stored
  entries a call reads, lets the library decide, and carries out the
  decision.
