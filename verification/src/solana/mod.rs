//! Admitting Solana transactions to the chain.
pub mod calls;
pub mod config;
pub mod laws;
pub mod origin;
pub mod pallet;
pub mod transaction;
pub mod validity;
