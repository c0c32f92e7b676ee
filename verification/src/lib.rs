//! Host-function bridge of a blockchain-indexing runtime.
//!
//! Sandboxed mapping code calls into this library for every effectful or
//! nondeterministic operation: entity-store access, blockchain contract
//! calls, arbitrary-precision arithmetic, hashing and encoding, off-chain
//! content access, dynamic data-source creation and diagnostics. Every
//! operation is gas-metered against a fixed budget, and every failure is
//! classified as deterministic (identical for every replay of the block)
//! or nondeterministic (transient, retryable).

pub mod bigint;
pub mod codec;
pub mod bigdec;
pub mod errors;
pub mod eth;
pub mod gas;
pub mod host;
pub mod ipfs;
pub mod math;
pub mod parse;
pub mod state;
pub mod value;
