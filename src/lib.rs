//! Slippage tolerance configuration: ranges, account addresses, categories of
//! addresses, and the rules that resolve the tolerance of a swap between two assets.

pub mod config;
pub mod decimal;
pub mod engine;
pub mod laws;
pub mod error;
pub mod pubkey;
pub mod range;
pub mod resolved;
