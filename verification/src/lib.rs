//! Post-quantum cross-chain bridge primitives: key generation with hash-based
//! one-time signatures, a Kyber-backed mixer, lock-event relaying, batch
//! proving setup and the on-chain transfer check.

pub mod primitives;
pub mod keygen;
pub mod mixer;
pub mod relayer;
pub mod zk_batch;
pub mod pqc_bridge;
