# astraport-payments

The escrow / settlement layer of the AstraPort protocol: internal balances
per (account, asset) backed by token deposits and withdrawals, internal
transfers, two-party escrow with release or refund, admin role rotation, and
global and per-asset per-transaction spending caps.

Layout:

- `src/` — the ledger, with its proofs.
  - `records.rs` — identifiers, escrow records, events, token transfers, errors.
  - `rules.rs` — debiting, combining caps, checking a cap, balance keys.
  - `model.rs` — the ledger as mathematical values, and what each operation
    does to it.
  - `contract.rs` — the executable ledger; every method is proved to do what
    `model.rs` says, and to keep the ledger's invariant.
  - `laws.rs`, `history.rs`, `holdings.rs` — properties across operations
    and across any later calls: one-time initialization, admin rotation,
    caps on every outflow, final settlement, persistent registrations,
    listing, and that what the ledger owes per asset and per token changes
    exactly by the tokens moved into or out of the contract.
- `app/` — the Soroban contract: authentication, storage (one entry per
  item), token transfers and events, around the ledger.
- `tests/` — tests of the ledger.
