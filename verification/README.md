# soroban_oracle

Verified core of a Soroban price-oracle and time-locked upgrade contract.

- `src/` is the library, written in Verus: consensus weighting, the
  admin/upgrade/staking state machine, multi-signature approval, nonces with
  salt signatures, relayer ledger spacing, bond checks, asset registration
  validation, index pricing and reward balances. Addresses and asset symbols
  are byte strings; SHA-256 and the host map used to compact price rows are
  reached through `src/host.rs`, whose contracts are trusted.
- `app/` holds the Soroban contract entry points: storage, authorization,
  ledger time, events and token transfers around the library's decisions.
- `tests/` runs the library against the real `soroban-sdk`.
