# mvx_contracts

Verified models of a set of MultiversX smart contracts, written in Verus.

Each contract's storage is a plain Rust value whose view is a ghost struct of
mathematical values; each endpoint is a function from that storage, the
transaction context (`common::TxContext`) and its arguments to a new storage
and a result. Transfers, mints, burns and other effects that the virtual
machine carries out come back as values, and so do the events of the claim
contract; the events of the other contracts are not modelled. A failing endpoint leaves the storage as it
was, as the blockchain reverts a failed transaction.

Layout of `src/`:

- `common.rs`: addresses, payments, transfers, token identifiers.
- `big_uint.rs`: unbounded amounts, for payouts that arithmetic produces.
- `unordered_set.rs`: the set with swap-removal that several contracts keep.
- `on_chain_claim/`: daily claim streaks, repairs and seasons.
- `multisig/`: the multisig wallet with batches, signed proposals and
  external modules; the verdict of each signature verification, which the
  virtual machine computes, comes in with the call; `direct_sign.rs` holds the older wallet's
  signing endpoints.
- `game/`: wager games with a start fee, players and rewards.
- `mystery_box/` and `mystery_box_v2/`: mystery boxes with global and
  per-reward cooldowns.
- `nft_escrow/`: NFT swap offers.
- `pair_mock.rs`: a fixed-rate swap pair.

Each contract directory has a `laws.rs` with the properties proved across
its endpoints. `tests/` runs the endpoints on concrete values; `app/` is the
interactor's command-line shell.
