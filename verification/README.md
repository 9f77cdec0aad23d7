# cafe_tokenize

A verified ledger for crowdfunding coffee harvests. A farmer opens a season
of shares; investors buy shares, whose price goes into escrow; the farmer
draws the capital (the farmer or the administrator releases it), later pays a harvest pool back in, and each investor
claims `pool * shares / shares_sold` (rounded down). An open season can be
cancelled by its farmer or the administrator, and its investors then take
their money back.

Layout:

- `src/` — the library, verified with Verus.
  - `ledger/` — the ledger state, its observers and invariant (`mod.rs`),
    the season operations (`seasons.rs`) and the position operations
    (`positions.rs`). The invariant is the ledger type's invariant, so no
    operation has a precondition. Each operation returns an `Outcome`: the account whose
    authorization the host must check, and the result, which on success
    carries the token transfer to carry out.
  - `laws.rs` — properties across operations: escrow solvency, escrow
    accounting per operation, forward-only season statuses, refunds and
    claims that happen once, save/load round trip.
  - `runs.rs` — laws over runs of claims, refunds and purchases on a season.
  - `history.rs` — laws over any history of calls: reads give back the last
    write, seasons exist once created, positions once bought.
  - `sums.rs`, `arith.rs`, `validate.rs`, `types.rs` — helpers and types.
- `tests/` — scenario and rule tests run against the compiled library.
- `app/` — the Soroban contract that keeps the administrator and each
  season under its own storage key, loads only the season a call names,
  checks authorizations and moves the tokens.
