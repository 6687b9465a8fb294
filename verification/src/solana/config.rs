//! What a chain sets for the module.
use vstd::prelude::*;

verus! {

/// What a chain that admits Solana transactions sets.
pub trait Config {
    /// Amounts of the chain's currency.
    type Balance;

    /// The value of [`Config::decimal_multiplier`].
    spec fn spec_decimal_multiplier() -> Self::Balance;

    /// The value of [`Config::blockhash_queue_max_age`].
    spec fn spec_blockhash_queue_max_age() -> u64;

    /// The value of [`Config::max_permitted_data_length`].
    spec fn spec_max_permitted_data_length() -> u32;

    /// How many units of the chain's currency make one lamport.
    fn decimal_multiplier() -> (multiplier: Self::Balance)
        ensures
            multiplier == Self::spec_decimal_multiplier(),
    ;

    /// The maximum age for entries in the blockhash queue. It should be less than the number of
    /// blocks whose hashes the chain keeps.
    fn blockhash_queue_max_age() -> (age: u64)
        ensures
            age == Self::spec_blockhash_queue_max_age(),
    ;

    /// Maximum permitted size of account data.
    fn max_permitted_data_length() -> (length: u32)
        ensures
            length == Self::spec_max_permitted_data_length(),
    ;
}

/// Amounts of the currency of the chain `T`.
pub type BalanceOf<T> = <T as Config>::Balance;

/// A configuration for testing.
pub struct TestDefaultConfig;

impl Config for TestDefaultConfig {
    type Balance = u64;

    open spec fn spec_decimal_multiplier() -> u64 {
        1
    }

    open spec fn spec_blockhash_queue_max_age() -> u64 {
        20
    }

    open spec fn spec_max_permitted_data_length() -> u32 {
        (10 * 1024 * 1024) as u32
    }

    fn decimal_multiplier() -> (multiplier: u64) {
        1
    }

    /// Hashes older than 2 minutes (20 blocks) will be dropped from the blockhash queue.
    fn blockhash_queue_max_age() -> (age: u64) {
        20
    }

    /// Maximum permitted size of account data (10 MiB).
    fn max_permitted_data_length() -> (length: u32) {
        10 * 1024 * 1024
    }
}

} // verus!
