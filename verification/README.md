# markchain

A toy proof-of-stake blockchain node whose decision logic is verified with
Verus.

- `src/` is the verified library: block and chain types (`block`, `chain`,
  `blockchain`), the election of the next block producer (`election`,
  `peer`), the node's reaction to messages and scheduled work (`p2p`),
  wallets (`wallet`), the clock (`clock`), the error type (`error`) and
  shared facts about filtering sequences (`filter`).
  Calls into `bincode`, `sha3`, `multihash`, `rand`, `libp2p` and `std::time`
  sit behind small trusted wrappers whose contracts are documented next to
  them.
- `app/` is the node program: argument parsing, the sled database, the
  libp2p swarm, the timers, and the JSON wire format of messages.
- `tests/` exercises the library on concrete values.

Hashes are SHA3-256 multihashes. multihash 0.19 no longer carries the
`Code::Sha3_256` hasher table (it moved to the separate
`multihash-codetable` crate), so the digest comes from the `sha3` crate and
is wrapped with `Multihash::wrap`, which yields the same bytes. The `void`
dependency is not used by the node: libp2p 0.53 has no `keep_alive`
behaviour whose event it typed.
