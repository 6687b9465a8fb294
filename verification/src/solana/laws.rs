//! What holds of the module as a whole.
use super::origin;
use super::origin::RawOrigin;
use super::pallet;
use super::pallet::Call;
use super::transaction;
use super::transaction::{Pubkey, TransactionView};
use super::validity::{InvalidTransaction, TransactionValidityError, ValidTransaction};
use vstd::prelude::*;
use vstd::set_lib::*;

verus! {

/// A transaction only speaks for an account that signed it: when it is accepted, it has at least
/// one signature, each of its signatures verifies under the account in the same place, each
/// required signature is among them, and the account it speaks for is the first.
pub proof fn law_accepted_account_signed(transaction: TransactionView, account: Pubkey)
    requires
        pallet::authenticated(transaction) == Ok::<Pubkey, TransactionValidityError>(account),
    ensures
        transaction.message is Legacy,
        ({
            let message = transaction.message->Legacy_0;
            let signatures = transaction.signatures;
            &&& 0 < signatures.len() == message.header.num_required_signatures
            &&& signatures.len() <= message.account_keys.len()
            &&& account == message.account_keys[0]
            &&& transaction::signature_verifies(
                signatures[0]@,
                account@,
                transaction::message_data(message),
            )
            &&& forall|i: int|
                0 <= i < signatures.len() ==> transaction::signature_verifies(
                    (#[trigger] signatures[i])@,
                    message.account_keys[i]@,
                    transaction::message_data(message),
                )
        }),
{
    assert(transaction.signatures[0] == transaction.signatures[0]);
}

/// One signature that does not verify is enough for a transaction to be refused, as one with a
/// bad proof if it is otherwise acceptable.
pub proof fn law_bad_signature_is_refused(transaction: TransactionView, i: int)
    requires
        transaction::acceptable(transaction),
        0 <= i < transaction.signatures.len(),
        !transaction::signature_verifies(
            transaction.signatures[i]@,
            transaction.message->Legacy_0.account_keys[i]@,
            transaction::message_data(transaction.message->Legacy_0),
        ),
    ensures
        pallet::authenticated(transaction) == Err::<Pubkey, TransactionValidityError>(
            TransactionValidityError::Invalid(InvalidTransaction::BadProof),
        ),
{
    assert(transaction.signatures[i] == transaction.signatures[i]);
}

/// A message that may use tables is refused, even if it uses none.
pub proof fn law_tables_are_refused(transaction: TransactionView)
    requires
        transaction.message is V0,
    ensures
        pallet::authenticated(transaction) == Err::<Pubkey, TransactionValidityError>(
            TransactionValidityError::Invalid(InvalidTransaction::Custom(0)),
        ),
{
}

/// A call is checked, prepared for a block and validated for the pool just if it brings its own
/// proof.
pub proof fn law_only_self_contained_calls_are_checked<T>(
    call: Call<T>,
    in_block: Result<(), TransactionValidityError>,
    in_pool: Result<ValidTransaction, TransactionValidityError>,
    validity: Option<Result<ValidTransaction, TransactionValidityError>>,
)
    requires
        pallet::validated(call, in_pool, validity),
    ensures
        pallet::checked(call) is Some == (call is transact),
        pallet::pre_dispatched(call, in_block) is Some == (call is transact),
        validity is Some == (call is transact),
{
}

/// The two ways to look at an origin agree: both find the same account, or both find none; and a
/// transaction is carried out just if they find one.
pub proof fn law_origin_checks_agree<O>(raw: Result<RawOrigin, O>)
    ensures
        origin::solana_account(raw) is Ok == origin::passed(raw) is Ok,
        origin::solana_account(raw) is Ok ==> origin::solana_account(raw)->Ok_0 == origin::passed(
            raw,
        )->Ok_0,
        pallet::transacted(raw) is Ok == origin::solana_account(raw) is Ok,
{
}

/// The blockhash queue after `n` blocks, from hash to block number: each block enters the hash
/// of the one before it and drops the one that expires. `hash` gives the hash of each block, and
/// `lookup` what the chain, at the block given first, takes the hash of the second to be.
pub open spec fn queue_after<H>(
    hash: spec_fn(int) -> H,
    lookup: spec_fn(int, int) -> H,
    max_age: int,
    n: nat,
) -> Map<H, int>
    decreases n,
{
    if n == 0 {
        Map::empty()
    } else {
        queue_after(hash, lookup, max_age, (n - 1) as nat).insert(hash(n - 1), n - 1).remove(
            lookup(n as int, pallet::expiring(n as int, max_age)),
        )
    }
}

/// The number of the oldest block whose hash is in the queue after `n` blocks. The very first
/// block is never among them.
pub open spec fn oldest(max_age: int, n: nat) -> int {
    if n > max_age + 1 {
        n - max_age
    } else {
        1
    }
}

/// Whether distinct blocks among the first `n` have distinct hashes.
pub open spec fn distinct_hashes<H>(hash: spec_fn(int) -> H, n: nat) -> bool {
    forall|i: int, j: int| 0 <= i < j < n ==> #[trigger] hash(i) != #[trigger] hash(j)
}

/// Whether the chain, up to block `n`, still knows the hash of each block that is at most
/// `max_age + 1` blocks back.
pub open spec fn recent_hashes_known<H>(
    hash: spec_fn(int) -> H,
    lookup: spec_fn(int, int) -> H,
    max_age: int,
    n: nat,
) -> bool {
    forall|now: int, k: int|
        0 <= k < now <= n && now - k <= max_age + 1 ==> #[trigger] lookup(now, k) == hash(k)
}

/// After `n` blocks, the queue holds the hashes of the last `max_age` blocks before the current
/// one, except that of the very first block, each with its block number, and nothing else.
pub proof fn law_queue_is_a_window<H>(
    hash: spec_fn(int) -> H,
    lookup: spec_fn(int, int) -> H,
    max_age: int,
    n: nat,
)
    requires
        0 <= max_age,
        distinct_hashes(hash, n),
        recent_hashes_known(hash, lookup, max_age, n),
    ensures
        forall|k: int|
            oldest(max_age, n) <= k < n ==> queue_after(
                hash,
                lookup,
                max_age,
                n,
            ).contains_key(#[trigger] hash(k)) && queue_after(hash, lookup, max_age, n)[hash(k)]
                == k,
        forall|h: H| #[trigger]
            queue_after(hash, lookup, max_age, n).contains_key(h) ==> oldest(max_age, n)
                <= queue_after(hash, lookup, max_age, n)[h] < n && h == hash(
                queue_after(hash, lookup, max_age, n)[h],
            ),
    decreases n,
{
    if n > 0 {
        let m = (n - 1) as nat;
        law_queue_is_a_window(hash, lookup, max_age, m);
        let gone = pallet::expiring(n as int, max_age);
        assert(lookup(n as int, gone) == hash(gone));
        let before = queue_after(hash, lookup, max_age, m);
        let after = queue_after(hash, lookup, max_age, n);
        assert forall|k: int| oldest(max_age, n) <= k < n implies after.contains_key(
            #[trigger] hash(k),
        ) && after[hash(k)] == k by {
            assert(hash(k) != hash(gone));
            if k < n - 1 {
                assert(hash(k) != hash(n - 1));
            }
        }
        assert forall|h: H| #[trigger] after.contains_key(h) implies oldest(max_age, n) <= after[h]
            < n && h == hash(after[h]) by {
            if h != hash(n - 1) {
                assert(before.contains_key(h));
                assert(before[h] != gone);
            }
        }
    }
}

/// First in, first out: the hash that leaves the queue at block `n` is older than all that stay.
pub proof fn law_oldest_hash_leaves_first<H>(
    hash: spec_fn(int) -> H,
    lookup: spec_fn(int, int) -> H,
    max_age: int,
    n: nat,
)
    requires
        0 <= max_age,
        0 < n,
        distinct_hashes(hash, n),
        recent_hashes_known(hash, lookup, max_age, n),
    ensures
        forall|h: H| #[trigger]
            queue_after(hash, lookup, max_age, n).contains_key(h) ==> pallet::expiring(
                n as int,
                max_age,
            ) < queue_after(hash, lookup, max_age, n)[h],
{
    law_queue_is_a_window(hash, lookup, max_age, n);
}

/// The queue never holds more than `max_age` hashes.
pub proof fn law_queue_is_bounded<H>(
    hash: spec_fn(int) -> H,
    lookup: spec_fn(int, int) -> H,
    max_age: int,
    n: nat,
)
    requires
        0 <= max_age,
        distinct_hashes(hash, n),
        recent_hashes_known(hash, lookup, max_age, n),
    ensures
        queue_after(hash, lookup, max_age, n).dom().finite(),
        queue_after(hash, lookup, max_age, n).dom().len() <= max_age,
{
    law_queue_is_a_window(hash, lookup, max_age, n);
    let queue = queue_after(hash, lookup, max_age, n);
    let first = oldest(max_age, n);
    let last: int = if first <= n {
        n as int
    } else {
        first
    };
    let numbers = set_int_range(first, last);
    lemma_int_range(first, last);
    assert(queue.dom() =~= numbers.map(hash)) by {
        assert forall|h: H| #[trigger] queue.dom().contains(h) implies numbers.map(hash).contains(
            h,
        ) by {
            assert(numbers.contains(queue[h]));
        }
    }
    lemma_map_size_bound(numbers, queue.dom(), hash);
}

} // verus!
