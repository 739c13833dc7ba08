# payment_contracts

The decision logic of two Soroban contracts, written in Verus and proved
against its specification:

- **escrow** — escrows between a customer and a merchant, and the
  administrator's migration procedure: begin (records how many escrows
  exist), migrate each escrow once (singly or in batches), complete (only
  when every escrow was migrated). No escrow can be created while a
  migration is in progress.
- **payment** — payments completed by the administrator, a platform fee
  (basis points clamped to a minimum and maximum), and per-merchant
  forwarding of part of the merchant's share to another address.

Layout:

- `src/` — the verified library. Each contract is a state value whose view
  (`EscrowState`, `PaymentState`) is described by spec functions; every
  operation's contract says exactly which new state and answer it produces.
  `escrow_laws.rs`, `payment_laws.rs` and `fees.rs` prove properties that
  span operations (double migration refused, completion iff all migrated,
  read-back of forwarding rules, conservation of the payment amount, ...).
- `tests/` — executable tests of the library.
- `app/` — the Soroban entry points: authorisation, instance storage,
  ledger time and token transfers around the verified core.
