//! What a chain says of a transaction that is offered to it.
use sp_runtime::transaction_validity::ValidTransactionBuilder;
use vstd::prelude::*;

verus! {

/// Why a transaction is invalid.
#[derive(Clone, Copy, Debug, PartialEq, Eq, Structural)]
pub enum InvalidTransaction {
    Call,
    Payment,
    Future,
    Stale,
    BadProof,
    AncientBirthBlock,
    ExhaustsResources,
    Custom(u8),
    BadMandatory,
    MandatoryValidation,
    BadSigner,
    IndeterminateImplicit,
    UnknownOrigin,
}

/// Why it cannot be told whether a transaction is valid.
#[derive(Clone, Copy, Debug, PartialEq, Eq, Structural)]
pub enum UnknownTransaction {
    CannotLookup,
    NoUnsignedValidator,
    Custom(u8),
}

/// Why a transaction is turned away.
#[derive(Clone, Copy, Debug, PartialEq, Eq, Structural)]
pub enum TransactionValidityError {
    Invalid(InvalidTransaction),
    Unknown(UnknownTransaction),
}

/// How a valid transaction relates to others.
#[derive(Debug, PartialEq, Eq)]
pub struct ValidTransaction {
    pub priority: u64,
    pub requires_tags: Vec<Vec<u8>>,
    pub provides_tags: Vec<Vec<u8>>,
    pub longevity: u64,
    pub propagate: bool,
}

/// Whether a transaction asks for nothing in particular: it has the lowest priority, neither
/// needs nor supplies a tag, stays valid forever and is passed on to other nodes.
pub open spec fn undemanding(valid: ValidTransaction) -> bool {
    &&& valid.priority == 0
    &&& valid.requires_tags@.len() == 0
    &&& valid.provides_tags@.len() == 0
    &&& valid.longevity == u64::MAX
    &&& valid.propagate
}

/// Calls `ValidTransactionBuilder::default` and `build` of `sp-runtime`. Claimed of them: the
/// outcome is a valid transaction with no tags, of priority zero and unlimited longevity, to be
/// propagated.
#[verifier::external_body]
pub(crate) fn build_default() -> (valid: ValidTransaction)
    ensures
        undemanding(valid),
{
    let valid = ValidTransactionBuilder::default().build().expect("building never fails");
    ValidTransaction {
        priority: valid.priority,
        requires_tags: valid.requires,
        provides_tags: valid.provides,
        longevity: valid.longevity,
        propagate: valid.propagate,
    }
}

} // verus!
