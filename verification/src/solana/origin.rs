//! Where a call comes from.
use super::transaction::Pubkey;
use vstd::prelude::*;

verus! {

/// The origins that this module gives to calls.
#[derive(Clone, Copy, Debug, PartialEq, Eq)]
pub enum RawOrigin {
    /// A Solana transaction whose fee the given account pays.
    SolanaTransaction(Pubkey),
}

/// What is said of an origin that is no Solana transaction.
pub const BAD_ORIGIN: &'static str = "bad origin: expected to be an Solana transaction";

/// The account behind an origin that has been looked into.
pub open spec fn solana_account<O>(raw: Result<RawOrigin, O>) -> Result<Pubkey, &'static str> {
    match raw {
        Ok(RawOrigin::SolanaTransaction(account)) => Ok(account),
        Err(_) => Err(BAD_ORIGIN),
    }
}

/// The account behind an origin that has been looked into, if it is a Solana transaction.
pub fn ensure_raw_origin<O>(raw: Result<RawOrigin, O>) -> (account: Result<Pubkey, &'static str>)
    ensures
        account == solana_account(raw),
{
    match raw {
        Ok(RawOrigin::SolanaTransaction(account)) => Ok(account),
        _ => Err(BAD_ORIGIN),
    }
}

/// The account behind an origin, if the origin is a Solana transaction.
pub fn ensure_solana_transaction<OuterOrigin>(o: OuterOrigin) -> (account: Result<
    Pubkey,
    &'static str,
>) where OuterOrigin: Into<Result<RawOrigin, OuterOrigin>>
    ensures
        exists|raw: Result<RawOrigin, OuterOrigin>| #[trigger]
            call_ensures(<OuterOrigin as Into<Result<RawOrigin, OuterOrigin>>>::into, (o,), raw)
                && account == solana_account(raw),
{
    ensure_raw_origin(o.into())
}

/// Whether all bytes of an address are zero.
pub open spec fn is_default_account(account: Pubkey) -> bool {
    forall|i: int| 0 <= i < 32 ==> #[trigger] account@[i] == 0
}

/// Lets only Solana transactions pass.
pub struct EnsureSolanaTransaction;

/// The account behind an origin that has been looked into, or the origin itself if it is no
/// Solana transaction.
pub open spec fn passed<O>(raw: Result<RawOrigin, O>) -> Result<Pubkey, O> {
    match raw {
        Ok(RawOrigin::SolanaTransaction(account)) => Ok(account),
        Err(other) => Err(other),
    }
}

impl EnsureSolanaTransaction {
    /// The account behind an origin, or the origin itself if it is no Solana transaction.
    pub fn try_origin<O>(o: O) -> (account: Result<Pubkey, O>) where O: Into<Result<RawOrigin, O>>
        ensures
            exists|raw: Result<RawOrigin, O>| #[trigger]
                call_ensures(<O as Into<Result<RawOrigin, O>>>::into, (o,), raw) && account
                    == passed(raw),
    {
        match o.into() {
            Ok(RawOrigin::SolanaTransaction(id)) => Ok(id),
            Err(other) => Err(other),
        }
    }

    /// An origin that passes, for measuring.
    pub fn try_successful_origin<O>() -> (origin: Result<O, ()>) where O: From<RawOrigin>
        ensures
            origin is Ok,
            exists|account: Pubkey|
                #[trigger] is_default_account(account) && call_ensures(
                    <O as From<RawOrigin>>::from,
                    (RawOrigin::SolanaTransaction(account),),
                    origin->Ok_0,
                ),
    {
        let account: Pubkey = [0u8; 32];
        assert(is_default_account(account));
        Ok(O::from(RawOrigin::SolanaTransaction(account)))
    }
}

} // verus!
