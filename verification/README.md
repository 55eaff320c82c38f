# soroban_contracts

Verified decision logic of two Soroban smart contracts.

- `src/hello.rs`: a counter bounded by `MAX_COUNT`, a user registry that
  answers a default record for unknown addresses, and balance/allowance
  checks for token deposits and withdrawals.
- `src/prediction/`: a betting market. `types.rs` holds the records,
  `market.rs` the market record and user registry, `games.rs` opening,
  betting on, settling and claiming games, `payout.rs` the pool arithmetic
  (totals, commission rounded up, winning stakes), and `laws.rs` properties
  across entry points: payouts of a game's first round never exceed the
  profit left to users (bet records of earlier rounds stay stored when a
  game is reopened, and are not covered), the counter never passes
  `MAX_COUNT`, each outcome's stake and count over a round are the sum and number
  of the bets on it, bets keep a game's stakes equal to its bettors' stakes, a game is
  settled once and a bet paid once, and a withdrawal undoes a deposit.
- `src/amount.rs`, `src/debug.rs`: the token amount conversion and the
  highlighted debug line.

Every entry point is a function from the stored records and what the
contract observes of the ledger (time, token balances and allowances) to the
records it stores and the amounts it moves. Where the contracts abort, the
entry point leaves those inputs out by its precondition and a companion
`*_aborts` function tells the caller in advance.

`app/` holds the Soroban contracts themselves: they read the ledger, call the
library, and write, publish and transfer what it decides.
