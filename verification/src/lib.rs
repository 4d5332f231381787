//! Trust-verification primitives of a beacon-chain light client: sync-period
//! arithmetic, Merkle inclusion proofs against a header's state root,
//! domain-separated signing roots, and aggregate BLS signature checks.

pub mod domain;
pub mod encoding;
pub mod merkle;
pub mod period;
pub mod signature;
pub mod types;
pub mod utils;
