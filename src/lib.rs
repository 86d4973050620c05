//! A single-process node that keeps an append-only chain of proof-of-work
//! sealed blocks, a registry of peers and the admission rules that guard
//! mining.

pub mod cryptography;
pub mod utils;
pub mod blockchain;
pub mod prune;
pub mod networking;
pub mod rate_limit;
