# pallet_kitties

A kitties pallet as a verified state machine. Accounts create kitties with a
random 128-bit DNA, breed two kitties into a child whose DNA mixes the
parents' bits, hand kitties to each other and update the last DNA byte; every
kitty an account gets reserves a price from its balance. Creating a kitty
also asks for the new kitty's id to be written to the offchain index, which
the offchain worker of that block reads to send a signed `update_kitty` for
that kitty.

Layout:

- `src/types.rs`: accounts, kitties, errors, events, origins.
- `src/balances.rs`: the reservable currency the price is paid in.
- `src/model.rs`: the abstract storage (`PalletState`), its invariant and the
  effect of each call.
- `src/pallet.rs`: the pallet's storage and calls, each proved against
  `model.rs`.
- `src/dna.rs`: drawing random DNA and mixing parents' DNA.
- `src/offchain.rs`: offchain-index keys and the offchain worker's decision.
- `src/laws.rs`: properties that span calls (balances kept, reservations
  backing every kitty, ownership index
  exact, round trips, DNA mixing, key uniqueness).
- `src/hashing.rs`, `src/encoding.rs`, `src/owned.rs`: the calls into
  `sp-io`, `parity-scale-codec` (through `frame-support`) and
  `frame-support`'s `BoundedVec`, with the contracts they are trusted to meet.
- `app/lib.rs`: offchain storage, waiting and transaction sending.
