//! The module itself: its calls, and what it does as blocks come and go.
use super::config::Config;
use super::origin;
use super::origin::{ensure_solana_transaction, RawOrigin};
use super::transaction;
use super::transaction::{sanitize, Pubkey, SanitizedTransaction, Transaction, TransactionView};
use super::validity;
use super::validity::{
    build_default, InvalidTransaction, TransactionValidityError, ValidTransaction,
};
use core::marker::PhantomData;
use solana_sdk::transaction::TransactionError;
use vstd::prelude::*;

verus! {

/// How much of a block's room something takes.
#[derive(Clone, Copy, Debug, PartialEq, Eq, Structural)]
pub struct Weight {
    pub ref_time: u64,
    pub proof_size: u64,
}

impl Weight {
    pub fn zero() -> (weight: Weight)
        ensures
            weight == (Weight { ref_time: 0, proof_size: 0 }),
    {
        Weight { ref_time: 0, proof_size: 0 }
    }
}

/// Whether a fee is due for a call.
#[derive(Clone, Copy, Debug, PartialEq, Eq, Structural)]
pub enum Pays {
    Yes,
    No,
}

/// What is known of a call only after it was carried out.
#[derive(Clone, Copy, Debug, PartialEq, Eq)]
pub struct PostDispatchInfo {
    /// The weight that it had, unless that is the one declared for it.
    pub actual_weight: Option<Weight>,
    pub pays_fee: Pays,
}

/// Nothing new: the declared weight, and a fee.
pub open spec fn as_declared() -> PostDispatchInfo {
    PostDispatchInfo { actual_weight: None, pays_fee: Pays::Yes }
}

/// Why a call failed.
#[derive(Clone, Copy, Debug, PartialEq, Eq)]
pub enum DispatchError {
    Other(&'static str),
}

#[derive(Clone, Copy, Debug, PartialEq, Eq)]
pub struct DispatchErrorWithPostInfo {
    pub post_info: PostDispatchInfo,
    pub error: DispatchError,
}

/// What carrying out a transaction for an origin that has been looked into comes to.
pub open spec fn transacted<O>(raw: Result<RawOrigin, O>) -> Result<
    PostDispatchInfo,
    DispatchErrorWithPostInfo,
> {
    match origin::solana_account(raw) {
        Ok(_) => Ok(as_declared()),
        Err(message) => Err(
            DispatchErrorWithPostInfo {
                post_info: as_declared(),
                error: DispatchError::Other(message),
            },
        ),
    }
}

/// The module on the chain `T`.
pub struct Pallet<T>(PhantomData<T>);

impl<T: Config> Pallet<T> {
    /// At the start of a block: the entry that the hash of the block before it gets in the
    /// blockhash queue, and the weight of entering it.
    pub fn on_initialize<H>(now: u64, parent_hash: H) -> (entered: ((H, u64), Weight))
        requires
            now > 0,
        ensures
            entered.0.0 == parent_hash,
            entered.0.1 == now - 1,
            entered.1 == (Weight { ref_time: 0, proof_size: 0 }),
    {
        ((parent_hash, now - 1), Weight::zero())
    }

    /// At the end of a block: the number of the block whose hash leaves the blockhash queue.
    pub fn on_finalize(now: u64) -> (to_remove: u64)
        ensures
            to_remove == expiring(now as int, T::spec_blockhash_queue_max_age() as int),
    {
        let max_age: u64 = T::blockhash_queue_max_age();
        now.saturating_sub(max_age).saturating_sub(1)
    }

    /// Carries out a transaction, for a call that comes from one.
    pub fn transact<O>(origin: O, transaction: Transaction) -> (outcome: Result<
        PostDispatchInfo,
        DispatchErrorWithPostInfo,
    >) where O: Into<Result<RawOrigin, O>>
        ensures
            exists|raw: Result<RawOrigin, O>| #[trigger]
                call_ensures(<O as Into<Result<RawOrigin, O>>>::into, (origin,), raw) && outcome
                    == transacted(raw),
    {
        match ensure_solana_transaction(origin) {
            Ok(pubkey) => Self::apply_validated_transaction(pubkey, transaction),
            Err(message) => Err(
                DispatchErrorWithPostInfo {
                    post_info: PostDispatchInfo { actual_weight: None, pays_fee: Pays::Yes },
                    error: DispatchError::Other(message),
                },
            ),
        }
    }

    fn apply_validated_transaction(_pubkey: Pubkey, _transaction: Transaction) -> (outcome: Result<
        PostDispatchInfo,
        DispatchErrorWithPostInfo,
    >)
        ensures
            outcome == Ok::<PostDispatchInfo, DispatchErrorWithPostInfo>(as_declared()),
    {
        Ok(PostDispatchInfo { actual_weight: None, pays_fee: Pays::Yes })
    }

    fn validate_transaction_in_pool(_origin: Pubkey, _transaction: &Transaction) -> (validity:
        Result<ValidTransaction, TransactionValidityError>)
        ensures
            validity matches Ok(valid) && validity::undemanding(valid),
    {
        Ok(build_default())
    }

    fn validate_transaction_in_block(_origin: Pubkey, _transaction: &Transaction) -> (validity:
        Result<(), TransactionValidityError>)
        ensures
            validity == Ok::<(), TransactionValidityError>(()),
    {
        Ok(())
    }
}

/// The number of the block whose hash leaves the queue at the end of block `now`.
pub open spec fn expiring(now: int, max_age: int) -> int {
    if now > max_age + 1 {
        now - max_age - 1
    } else {
        0
    }
}

/// What is said of a transaction that was offered: its fee payer, if it can be accepted and its
/// signatures verify.
pub open spec fn authenticated(transaction: TransactionView) -> Result<
    Pubkey,
    TransactionValidityError,
> {
    if !transaction::acceptable(transaction) {
        Err(TransactionValidityError::Invalid(InvalidTransaction::Custom(0)))
    } else if transaction::signatures_verify(
        transaction.signatures,
        transaction.message->Legacy_0,
    ) {
        Ok(transaction.message->Legacy_0.account_keys[0])
    } else {
        Err(TransactionValidityError::Invalid(InvalidTransaction::BadProof))
    }
}

/// Decides on a transaction by what came of taking it apart.
pub fn authenticate(sanitized: Result<SanitizedTransaction, TransactionError>) -> (account: Result<
    Pubkey,
    TransactionValidityError,
>)
    ensures
        account == match sanitized {
            Ok(sanitized) => if sanitized.verified {
                Ok(sanitized.fee_payer)
            } else {
                Err(TransactionValidityError::Invalid(InvalidTransaction::BadProof))
            },
            Err(_) => Err(TransactionValidityError::Invalid(InvalidTransaction::Custom(0))),
        },
{
    match sanitized {
        Ok(sanitized) => if sanitized.verified {
            Ok(sanitized.fee_payer)
        } else {
            Err(TransactionValidityError::Invalid(InvalidTransaction::BadProof))
        },
        Err(_) => Err(TransactionValidityError::Invalid(InvalidTransaction::Custom(0))),
    }
}

/// The calls of the module on the chain `T`.
#[allow(non_camel_case_types)]
pub enum Call<T> {
    /// Carry out a transaction.
    transact { transaction: Transaction },
    /// No call of the module; this only ties the type to the chain.
    __Ignore(PhantomData<T>),
}

/// Who makes a call, if the call brings its own proof.
pub open spec fn checked<T>(call: Call<T>) -> Option<Result<Pubkey, TransactionValidityError>> {
    match call {
        Call::transact { transaction } => Some(authenticated(transaction@)),
        _ => None,
    }
}

/// What is said of a call that is put in a block: nothing that the weight check has not said, if
/// the call brings its own proof.
pub open spec fn pre_dispatched<T>(
    call: Call<T>,
    weight_check: Result<(), TransactionValidityError>,
) -> Option<Result<(), TransactionValidityError>> {
    match call {
        Call::transact { .. } => Some(weight_check),
        _ => None,
    }
}

/// Whether this is what is said of a call that is put in the pool: the error of the weight
/// check, or that the transaction asks for nothing in particular, if the call brings its own
/// proof.
pub open spec fn validated<T>(
    call: Call<T>,
    weight_check: Result<ValidTransaction, TransactionValidityError>,
    validity: Option<Result<ValidTransaction, TransactionValidityError>>,
) -> bool {
    match (call, weight_check) {
        (Call::transact { .. }, Err(e)) => validity == Some(Err::<ValidTransaction, _>(e)),
        (Call::transact { .. }, Ok(_)) => validity matches Some(Ok(valid))
            && validity::undemanding(valid),
        _ => validity is None,
    }
}

impl<T: Config> Call<T> {
    /// Whether the call brings its own proof of who makes it.
    pub fn is_self_contained(&self) -> (yes: bool)
        ensures
            yes == (self is transact),
    {
        matches!(self, Call::transact { .. })
    }

    /// Who makes the call, if it brings its own proof.
    pub fn check_self_contained(&self) -> (account: Option<
        Result<Pubkey, TransactionValidityError>,
    >)
        requires
            self matches Call::transact { transaction } ==> transaction::consistent(transaction@)
                ==> transaction::encodable(transaction@),
        ensures
            account == checked(*self),
    {
        if let Call::transact { transaction } = self {
            Some(authenticate(sanitize(transaction.clone())))
        } else {
            None
        }
    }

    /// What remains to be checked of the call when it is put in a block; `weight_check` tells
    /// whether the block has room for it.
    pub fn pre_dispatch_self_contained(
        &self,
        origin: &Pubkey,
        weight_check: Result<(), TransactionValidityError>,
    ) -> (validity: Option<Result<(), TransactionValidityError>>)
        ensures
            validity == pre_dispatched(*self, weight_check),
    {
        if let Call::transact { transaction } = self {
            if let Err(e) = weight_check {
                return Some(Err(e));
            }
            assert(weight_check->Ok_0 == ());
            Some(Pallet::<T>::validate_transaction_in_block(*origin, transaction))
        } else {
            None
        }
    }

    /// What remains to be checked of the call when it is put in the pool; `weight_check` tells
    /// whether a block could have room for it.
    pub fn validate_self_contained(
        &self,
        origin: &Pubkey,
        weight_check: Result<ValidTransaction, TransactionValidityError>,
    ) -> (validity: Option<Result<ValidTransaction, TransactionValidityError>>)
        ensures
            validated(*self, weight_check, validity),
    {
        if let Call::transact { transaction } = self {
            if let Err(e) = weight_check {
                return Some(Err(e));
            }
            Some(Pallet::<T>::validate_transaction_in_pool(*origin, transaction))
        } else {
            None
        }
    }
}

} // verus!
