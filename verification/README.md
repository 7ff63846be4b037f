# pallet_mixer

A fixed-denomination mixer, verified with Verus. Users deposit a mixer's
fixed amount together with leaf commitments, which go into the mixer's
Merkle tree; later anyone holding a zero-knowledge proof of membership and
an unused nullifier can withdraw one deposit.

Layout:

- `src/types.rs`: accounts, ids, leaf data, origins, errors, and the
  record kept for each mixer.
- `src/services.rs`: what a runtime provides to the mixer (a currency and
  the Merkle groups), as traits it implements; their spec functions expose
  balances, groups, leaves, spent nullifiers and cached roots, and their
  `ensures` say what each call must do to them.
- `src/pallet.rs`: the mixer's storage and its calls (`initialize`,
  `deposit`, `withdraw`, `set_stopped`, `transfer_admin`) and block hooks,
  each with a contract over the storage's mathematical view.
- `src/laws.rs`: properties across calls (value locked accounts for
  deposits and withdrawals, locality of each call, admin hand-over,
  what initialisation sets up, no double spending, stops and spent
  nullifiers lasting, value locked accounted for by deposits and withdrawals).
- `src/weights.rs`: the benchmarked weights of the calls.
- `src/fixed_deposit_tree.rs`: the builder of deposit trees and their
  Poseidon parameters.
- `app/`: the SCALE encoding of the mixer's records.
- `tests/`: tests against a small in-memory runtime.
