# pqc_crosschain

Verified building blocks of a post-quantum cross-chain bridge.

- `src/keygen.rs` — Kyber-512 / Dilithium2 key sets, Lamport seed derivation
  (HKDF-SHA256) and hash-chain one-time signatures, with laws on the chains
  (an honest signature of a digest whose chunks fit in the chains verifies
  under its key) and on wiping; secret keys are wiped when dropped.
- `src/mixer.rs` — per-mint deposit pools, mixing rounds and withdrawal
  against a one-time signature of the deposit nonce, with laws relating
  deposits to later mixes and withdrawals.
- `src/relayer.rs` — reading lock events from program logs, the claim window,
  chain routing, the RPC failover steps and the claim buffer, with laws over
  whole runs of claims and of endpoint probes.
- `src/zk_batch.rs` — batch circuit inputs, the trusted-setup secret and the
  Cardano claim payload.
- `src/pqc_bridge.rs` — the on-chain transfer check (Dilithium2 over the
  nonce-bound Kyber ciphertext); an accepted transfer consumes the nonce, so
  it cannot be replayed.
- `src/primitives.rs` — the trusted bindings to `sha2`, `hmac`, `pqcrypto`,
  `getrandom`, `zeroize`, `serde_json`, `base64` and `halo2curves`.

`app/` holds the network loop, the Cardano submission, the halo2 circuit and
the Anchor entry points; it is not verified.
