//! A minimal proof-of-work ledger.
//!
//! Blocks carry a textual payload, link to their predecessor by digest, and
//! are mined by brute-force nonce search until the digest meets a difficulty
//! target. A chain of blocks is validated by recomputing every digest and
//! cross-checking the links.

pub mod block;
pub mod chain;
pub mod digits;
pub mod sha;
