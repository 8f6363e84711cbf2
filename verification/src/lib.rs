//! A CREATE3 vanity-salt miner.
//!
//! The crate derives deterministic deployment addresses from a salt and a
//! deployer identity (the CREATE3 scheme: a CREATE2 proxy followed by a
//! fixed-nonce contract creation), parses a small pattern language over
//! addresses, and searches the salt space for addresses that match a
//! pattern, either on CPU worker threads or through a batched GPU
//! dispatch protocol whose host-side decisions live here.

pub mod bytes;
pub mod keccak;
pub mod create3;
pub mod hexcode;
pub mod pattern;
pub mod rng;
pub mod cpu;
pub mod gpu;
