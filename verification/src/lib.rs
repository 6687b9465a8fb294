//! Verified decision logic of two chain modules: sending coins between Cosmos
//! accounts, and admitting Solana transactions.
pub mod bank;
pub mod solana;
