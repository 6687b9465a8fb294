//! Sending coins from one Cosmos account to another.
pub mod amount;
pub mod calls;
pub mod laws;
pub mod message;
pub mod numerals;
pub mod send;
