# regen_contracts

The decision logic of eight Regen Network ecological contracts — fee
routing, dynamic supply, reputation signals, service escrow, credit class
voting, attestation bonding, marketplace curation and contribution rewards —
as a library verified with Verus.

- `src/` holds the verified library: each contract's state, every message
  handler as a function from state and plain inputs to the new state, the
  transfers to make and the result, with contracts that state exactly what
  each handler does and laws that relate them. Arithmetic that the chain's
  decimal and integer types perform goes through a few small trusted
  wrappers around `cosmwasm-std` (`money.rs`).
- `tests/` runs the library on concrete scenarios.
- `app/` is the chain-facing side: message and storage types with their
  serde derives, entry points that load a contract's state, call the
  library, store the result and send the transfers as bank messages, and
  the reputation score, which is computed in floating point.
