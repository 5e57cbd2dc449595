//! Synthetic block assembly and deliberate invalidation for a regtest chain.
pub mod hashing;
pub mod types;
pub mod merkle;
pub mod encode;
pub mod coinbase;
pub mod error;
pub mod commitment;
pub mod pow;
pub mod assemble;
pub mod mutation;
pub mod hexout;
pub mod decode;
