//! What a caller sees of the module: what it puts in, and what comes back.
use super::config::Config;
use super::origin::{
    ensure_raw_origin, ensure_solana_transaction, EnsureSolanaTransaction, RawOrigin,
};
use super::pallet::{
    authenticate, Call, DispatchError, DispatchErrorWithPostInfo, Pallet, Pays, PostDispatchInfo,
    Weight,
};
use super::transaction;
use super::transaction::{
    is_encodable, sanitize, Message, MessageAddressTableLookup, Pubkey, SanitizedTransaction,
    Signature, Transaction, VersionedMessage,
};
use super::validity::{InvalidTransaction, TransactionValidityError, ValidTransaction};
use solana_sdk::transaction::TransactionError;
use vstd::prelude::*;

verus! {

/// Whether a message and the number of its signatures go together: as many signatures as the
/// header says, at least one of them by an account that can be written to, accounts for all that
/// the header counts, and instructions that name nothing but these accounts, and as a program
/// never the first.
pub open spec fn sound(signatures: Seq<Signature>, message: Message) -> bool {
    let keys = message.account_keys@.len();
    let header = message.header;
    &&& signatures.len() == header.num_required_signatures
    &&& header.num_required_signatures + header.num_readonly_unsigned_accounts <= keys
    &&& header.num_readonly_signed_accounts < header.num_required_signatures
    &&& forall|i: int|
        0 <= i < message.instructions@.len() ==> 1 <= (
        #[trigger] message.instructions@[i]).program_id_index < keys
    &&& forall|i: int, j: int|
        #![trigger message.instructions@[i].accounts@[j]]
        0 <= i < message.instructions@.len() && 0 <= j < message.instructions@[i].accounts@.len()
            ==> message.instructions@[i].accounts@[j] < keys
}

/// Whether the signature in a place is that of the account in the same place, over the message.
pub open spec fn signed_at(signatures: Seq<Signature>, message: Message, i: int) -> bool {
    transaction::signature_verifies(
        signatures[i]@,
        message.account_keys@[i]@,
        transaction::message_data(message@),
    )
}

/// Soundness of what is there is soundness of what it holds.
proof fn lemma_sound(signatures: Seq<Signature>, message: Message)
    ensures
        sound(signatures, message) == (transaction::signatures_complete(signatures, message@)
            && transaction::message_consistent(message@, 0)),
{
    let view = message@;
    assert(view.instructions.len() == message.instructions@.len());
    assert forall|i: int| 0 <= i < message.instructions@.len() implies #[trigger] view.instructions[i]
        == message.instructions@[i]@ by {}
    if sound(signatures, message) {
        assert forall|i: int| 0 <= i < view.instructions.len() implies 0 < (
        #[trigger] view.instructions[i]).program_id_index < view.account_keys.len() by {
            assert(1 <= message.instructions@[i].program_id_index);
        }
        assert forall|i: int, j: int|
            0 <= i < view.instructions.len() && 0 <= j < view.instructions[i].accounts.len() implies
        #[trigger] view.instructions[i].accounts[j] < view.account_keys.len() + 0nat by {
            assert(view.instructions[i].accounts[j] == message.instructions@[i].accounts@[j]);
        }
    }
    if transaction::signatures_complete(signatures, view) && transaction::message_consistent(
        view,
        0,
    ) {
        assert forall|i: int| 0 <= i < message.instructions@.len() implies 1 <= (
        #[trigger] message.instructions@[i]).program_id_index < view.account_keys.len() by {
            assert(0 < view.instructions[i].program_id_index);
        }
        assert forall|i: int, j: int|
            #![trigger message.instructions@[i].accounts@[j]]
            0 <= i < message.instructions@.len() && 0 <= j
                < message.instructions@[i].accounts@.len() implies
            message.instructions@[i].accounts@[j] < view.account_keys.len() by {
            assert(view.instructions[i].accounts[j] < view.account_keys.len() + 0nat);
        }
    }
}

/// A sound transaction with a legacy message is accepted, as its first account's, just if every
/// signature is that of the account in its place; and it has a bad proof just if one is not.
pub proof fn law_signed_transaction_is_accepted<T: Config>(
    transaction: Transaction,
    account: Option<Result<Pubkey, TransactionValidityError>>,
)
    requires
        call_ensures(
            Call::<T>::check_self_contained,
            (&Call::<T>::transact { transaction },),
            account,
        ),
        transaction.message matches VersionedMessage::Legacy(message) && sound(
            transaction.signatures@,
            message,
        ),
    ensures
        ({
            let message = transaction.message->Legacy_0;
            let signed = forall|i: int|
                0 <= i < transaction.signatures@.len() ==> #[trigger] signed_at(
                    transaction.signatures@,
                    message,
                    i,
                );
            &&& signed <==> account == Some(
                Ok::<Pubkey, TransactionValidityError>(message.account_keys@[0]),
            )
            &&& !signed <==> account == Some(
                Err::<Pubkey, TransactionValidityError>(
                    TransactionValidityError::Invalid(InvalidTransaction::BadProof),
                ),
            )
        }),
{
    let message = transaction.message->Legacy_0;
    lemma_sound(transaction.signatures@, message);
    lemma_signed(transaction.signatures@, message);
}

/// A transaction that is not sound, or whose message is no legacy message, is refused as invalid,
/// and no other is.
pub proof fn law_only_unsound_transactions_are_invalid<T: Config>(
    transaction: Transaction,
    account: Option<Result<Pubkey, TransactionValidityError>>,
)
    requires
        call_ensures(
            Call::<T>::check_self_contained,
            (&Call::<T>::transact { transaction },),
            account,
        ),
    ensures
        !(transaction.message matches VersionedMessage::Legacy(message) && sound(
            transaction.signatures@,
            message,
        )) <==> account == Some(
            Err::<Pubkey, TransactionValidityError>(
                TransactionValidityError::Invalid(InvalidTransaction::Custom(0)),
            ),
        ),
{
    if let VersionedMessage::Legacy(message) = transaction.message {
        lemma_sound(transaction.signatures@, message);
    }
}

/// Every signature of a sound transaction has an account in its place.
proof fn lemma_signed(signatures: Seq<Signature>, message: Message)
    requires
        signatures.len() <= message.account_keys@.len(),
    ensures
        transaction::signatures_verify(signatures, message@) == forall|i: int|
            0 <= i < signatures.len() ==> #[trigger] signed_at(signatures, message, i),
{
    if transaction::signatures_verify(signatures, message@) {
        assert forall|i: int| 0 <= i < signatures.len() implies #[trigger] signed_at(
            signatures,
            message,
            i,
        ) by {
            assert(signatures[i] == signatures[i]);
        }
    }
    if forall|i: int| 0 <= i < signatures.len() ==> #[trigger] signed_at(signatures, message, i) {
        assert forall|i: int| 0 <= i < signatures.len() && i < message@.account_keys.len() implies
            transaction::signature_verifies(
            (#[trigger] signatures[i])@,
            message@.account_keys[i]@,
            transaction::message_data(message@),
        ) by {
            assert(signed_at(signatures, message, i));
        }
    }
}

/// A transaction is taken apart just if it has a legacy message and is sound; what is found is
/// its first account, and whether every signature is that of the account in its place.
pub proof fn law_sound_transaction_is_taken_apart(
    transaction: Transaction,
    sanitized: Result<SanitizedTransaction, TransactionError>,
)
    requires
        call_ensures(sanitize, (transaction,), sanitized),
    ensures
        sanitized is Ok <==> (transaction.message matches VersionedMessage::Legacy(message)
            && sound(transaction.signatures@, message)),
        sanitized matches Ok(found) ==> {
            let message = transaction.message->Legacy_0;
            &&& found.fee_payer == message.account_keys@[0]
            &&& found.verified <==> forall|i: int|
                0 <= i < transaction.signatures@.len() ==> #[trigger] signed_at(
                    transaction.signatures@,
                    message,
                    i,
                )
        },
{
    if let VersionedMessage::Legacy(message) = transaction.message {
        lemma_sound(transaction.signatures@, message);
        if sanitized is Ok {
            lemma_signed(transaction.signatures@, message);
        }
    }
}

/// What was found of a transaction decides on it, and nothing else.
pub proof fn law_findings_decide(
    found: Result<SanitizedTransaction, TransactionError>,
    account: Result<Pubkey, TransactionValidityError>,
)
    requires
        call_ensures(authenticate, (found,), account),
    ensures
        account is Ok <==> (found matches Ok(transaction) && transaction.verified),
        account is Ok ==> account->Ok_0 == found->Ok_0.fee_payer,
        account matches Err(e) ==> e == if found is Ok {
            TransactionValidityError::Invalid(InvalidTransaction::BadProof)
        } else {
            TransactionValidityError::Invalid(InvalidTransaction::Custom(0))
        },
{
}

/// Whether no list of a message has more entries than two bytes can count.
pub open spec fn lists_are_short(message: Message) -> bool {
    &&& message.account_keys@.len() <= 0xffff
    &&& message.instructions@.len() <= 0xffff
    &&& forall|i: int|
        0 <= i < message.instructions@.len() ==> (
        #[trigger] message.instructions@[i]).accounts@.len() <= 0xffff
            && message.instructions@[i].data@.len() <= 0xffff
}

/// Whether no list of tables has more entries than two bytes can count.
pub open spec fn tables_are_short(tables: Seq<MessageAddressTableLookup>) -> bool {
    &&& tables.len() <= 0xffff
    &&& forall|i: int|
        0 <= i < tables.len() ==> (#[trigger] tables[i]).writable_indexes@.len() <= 0xffff
            && tables[i].readonly_indexes@.len() <= 0xffff
}

proof fn lemma_lists_are_short(message: Message)
    ensures
        lists_are_short(message) == transaction::message_encodable(message@),
{
    let view = message@;
    assert(view.instructions.len() == message.instructions@.len());
    if lists_are_short(message) {
        assert forall|i: int| 0 <= i < view.instructions.len() implies (
        #[trigger] view.instructions[i]).accounts.len() <= u16::MAX
            && view.instructions[i].data.len() <= u16::MAX by {
            assert(message.instructions@[i].accounts@.len() <= 0xffff);
        }
    }
    if transaction::message_encodable(view) {
        assert forall|i: int| 0 <= i < message.instructions@.len() implies (
        #[trigger] message.instructions@[i]).accounts@.len() <= 0xffff
            && message.instructions@[i].data@.len() <= 0xffff by {
            assert(view.instructions[i].accounts.len() <= u16::MAX);
        }
    }
}

proof fn lemma_tables_are_short(tables: Seq<MessageAddressTableLookup>)
    ensures
        tables_are_short(tables) == transaction::lookups_encodable(
            tables.map_values(|lookup: MessageAddressTableLookup| lookup@),
        ),
{
    let views = tables.map_values(|lookup: MessageAddressTableLookup| lookup@);
    if tables_are_short(tables) {
        assert forall|i: int| 0 <= i < views.len() implies (
        #[trigger] views[i]).writable_indexes.len() <= u16::MAX && views[i].readonly_indexes.len()
            <= u16::MAX by {
            assert(tables[i].writable_indexes@.len() <= 0xffff);
        }
    }
    if transaction::lookups_encodable(views) {
        assert forall|i: int| 0 <= i < tables.len() implies (
        #[trigger] tables[i]).writable_indexes@.len() <= 0xffff
            && tables[i].readonly_indexes@.len() <= 0xffff by {
            assert(views[i].writable_indexes.len() <= u16::MAX);
        }
    }
}

/// A message has an encoding just if two bytes can count each of its lists; every transaction
/// with such a message can be checked, and so can every one that is not sound, if its message is
/// a legacy message.
pub proof fn law_short_messages_can_be_checked<T: Config>(transaction: Transaction, encodable: bool)
    requires
        call_ensures(is_encodable, (&transaction,), encodable),
    ensures
        encodable == match transaction.message {
            VersionedMessage::Legacy(message) => lists_are_short(message),
            VersionedMessage::V0 { message, address_table_lookups } => lists_are_short(message)
                && tables_are_short(address_table_lookups@),
        },
        encodable || (transaction.message matches VersionedMessage::Legacy(message) && !sound(
            transaction.signatures@,
            message,
        )) ==> call_requires(
            Call::<T>::check_self_contained,
            (&Call::<T>::transact { transaction },),
        ),
{
    match transaction.message {
        VersionedMessage::Legacy(message) => {
            lemma_lists_are_short(message);
            lemma_sound(transaction.signatures@, message);
        },
        VersionedMessage::V0 { message, address_table_lookups } => {
            lemma_lists_are_short(message);
            lemma_tables_are_short(address_table_lookups@);
        },
    }
}

/// A copy of a transaction is the transaction, field by field.
pub proof fn law_copy_holds_the_same(transaction: Transaction, copy: Transaction)
    requires
        call_ensures(Transaction::clone, (&transaction,), copy),
    ensures
        copy.signatures@ == transaction.signatures@,
        match (transaction.message, copy.message) {
            (VersionedMessage::Legacy(message), VersionedMessage::Legacy(second)) => same_message(
                message,
                second,
            ),
            (
                VersionedMessage::V0 { message, address_table_lookups: tables },
                VersionedMessage::V0 { message: second, address_table_lookups: second_tables },
            ) => {
                &&& same_message(message, second)
                &&& second_tables@.len() == tables@.len()
                &&& forall|i: int|
                    0 <= i < tables@.len() ==> {
                        &&& (#[trigger] second_tables@[i]).account_key == tables@[i].account_key
                        &&& second_tables@[i].writable_indexes@ == tables@[i].writable_indexes@
                        &&& second_tables@[i].readonly_indexes@ == tables@[i].readonly_indexes@
                    }
            },
            _ => false,
        },
{
    match (transaction.message, copy.message) {
        (VersionedMessage::Legacy(message), VersionedMessage::Legacy(second)) => {
            lemma_same_message(message, second);
        },
        (
            VersionedMessage::V0 { message, address_table_lookups: tables },
            VersionedMessage::V0 { message: second, address_table_lookups: second_tables },
        ) => {
            lemma_same_message(message, second);
            let views = tables@.map_values(|lookup: MessageAddressTableLookup| lookup@);
            let second_views = second_tables@.map_values(
                |lookup: MessageAddressTableLookup| lookup@,
            );
            assert(views == second_views);
            assert(views.len() == tables@.len());
            assert(second_views.len() == second_tables@.len());
            assert forall|i: int| 0 <= i < tables@.len() implies {
                &&& (#[trigger] second_tables@[i]).account_key == tables@[i].account_key
                &&& second_tables@[i].writable_indexes@ == tables@[i].writable_indexes@
                &&& second_tables@[i].readonly_indexes@ == tables@[i].readonly_indexes@
            } by {
                assert(views[i] == second_views[i]);
            }
        },
        _ => {},
    }
}

/// Whether two messages hold the same.
pub open spec fn same_message(a: Message, b: Message) -> bool {
    &&& a.header == b.header
    &&& a.account_keys@ == b.account_keys@
    &&& a.recent_blockhash@ == b.recent_blockhash@
    &&& a.instructions@.len() == b.instructions@.len()
    &&& forall|i: int|
        0 <= i < a.instructions@.len() ==> {
            &&& (#[trigger] b.instructions@[i]).program_id_index
                == a.instructions@[i].program_id_index
            &&& b.instructions@[i].accounts@ == a.instructions@[i].accounts@
            &&& b.instructions@[i].data@ == a.instructions@[i].data@
        }
}

/// Messages that hold the same, and no others, have the same contents, which are what is signed.
pub proof fn law_contents_of_a_message(a: Message, b: Message)
    ensures
        a@ == b@ <==> same_message(a, b),
{
    if a@ == b@ {
        lemma_same_message(a, b);
    }
    if same_message(a, b) {
        assert forall|i: int| 0 <= i < a@.instructions.len() implies #[trigger] a@.instructions[i]
            == b@.instructions[i] by {
            assert(b.instructions@[i].program_id_index == a.instructions@[i].program_id_index);
        }
        assert(a@.instructions =~= b@.instructions);
    }
}

proof fn lemma_same_message(a: Message, b: Message)
    requires
        a@ == b@,
    ensures
        same_message(a, b),
{
    assert(a@.instructions.len() == a.instructions@.len());
    assert(b@.instructions.len() == b.instructions@.len());
    assert forall|i: int| 0 <= i < a.instructions@.len() implies {
        &&& (#[trigger] b.instructions@[i]).program_id_index == a.instructions@[i].program_id_index
        &&& b.instructions@[i].accounts@ == a.instructions@[i].accounts@
        &&& b.instructions@[i].data@ == a.instructions@[i].data@
    } by {
        assert(a@.instructions[i] == a.instructions@[i]@);
        assert(b@.instructions[i] == b.instructions@[i]@);
    }
}

/// Just the calls that carry a transaction bring their own proof; no other call is checked,
/// prepared for a block or validated for the pool, and each of them is.
pub proof fn law_calls_with_a_transaction_are_self_contained<T: Config>(
    call: Call<T>,
    self_contained: bool,
    account: Option<Result<Pubkey, TransactionValidityError>>,
    origin: Pubkey,
    in_block: Result<(), TransactionValidityError>,
    prepared: Option<Result<(), TransactionValidityError>>,
    in_pool: Result<ValidTransaction, TransactionValidityError>,
    validity: Option<Result<ValidTransaction, TransactionValidityError>>,
)
    requires
        call_ensures(Call::<T>::is_self_contained, (&call,), self_contained),
        call_ensures(Call::<T>::check_self_contained, (&call,), account),
        call_ensures(
            Call::<T>::pre_dispatch_self_contained,
            (&call, &origin, in_block),
            prepared,
        ),
        call_ensures(Call::<T>::validate_self_contained, (&call, &origin, in_pool), validity),
    ensures
        self_contained <==> call is transact,
        account is Some <==> self_contained,
        prepared is Some <==> self_contained,
        validity is Some <==> self_contained,
{
}

/// A transaction goes into a block just if there is room for it.
pub proof fn law_room_decides_on_the_block<T: Config>(
    transaction: Transaction,
    origin: Pubkey,
    weight_check: Result<(), TransactionValidityError>,
    prepared: Option<Result<(), TransactionValidityError>>,
)
    requires
        call_ensures(
            Call::<T>::pre_dispatch_self_contained,
            (&Call::<T>::transact { transaction }, &origin, weight_check),
            prepared,
        ),
    ensures
        prepared matches Some(outcome) && match weight_check {
            Ok(_) => outcome is Ok,
            Err(e) => outcome matches Err(said) && said == e,
        },
{
}

/// A transaction goes into the pool just if a block could have room for it, and it then has the
/// lowest priority, no tags, no end to its validity, and is passed on.
pub proof fn law_room_decides_on_the_pool<T: Config>(
    transaction: Transaction,
    origin: Pubkey,
    weight_check: Result<ValidTransaction, TransactionValidityError>,
    validity: Option<Result<ValidTransaction, TransactionValidityError>>,
)
    requires
        call_ensures(
            Call::<T>::validate_self_contained,
            (&Call::<T>::transact { transaction }, &origin, weight_check),
            validity,
        ),
    ensures
        validity matches Some(outcome) && match weight_check {
            Ok(_) => outcome matches Ok(valid) && {
                &&& valid.priority == 0
                &&& valid.requires_tags@.len() == 0
                &&& valid.provides_tags@.len() == 0
                &&& valid.longevity == 0xffff_ffff_ffff_ffff
                &&& valid.propagate
            },
            Err(e) => outcome matches Err(said) && said == e,
        },
{
}

/// An origin that is a Solana transaction has its account found, and any other is told what was
/// expected.
pub proof fn law_raw_origin_has_its_account<O>(
    raw: Result<RawOrigin, O>,
    account: Result<Pubkey, &'static str>,
)
    requires
        call_ensures(ensure_raw_origin::<O>, (raw,), account),
    ensures
        match raw {
            Ok(RawOrigin::SolanaTransaction(key)) => account matches Ok(found) && found == key,
            Err(_) => account matches Err(said) && said@
                == "bad origin: expected to be an Solana transaction"@,
        },
{
}

/// What an origin turns out to be decides: a Solana transaction passes as its account; any other
/// is told what was expected, or handed back.
pub proof fn law_origin_has_its_account<O: Into<Result<RawOrigin, O>>>(
    origin: O,
    account: Result<Pubkey, &'static str>,
    passed: Result<Pubkey, O>,
)
    requires
        call_ensures(ensure_solana_transaction::<O>, (origin,), account),
        call_ensures(EnsureSolanaTransaction::try_origin::<O>, (origin,), passed),
    ensures
        exists|raw: Result<RawOrigin, O>| #[trigger]
            call_ensures(<O as Into<Result<RawOrigin, O>>>::into, (origin,), raw) && match raw {
                Ok(RawOrigin::SolanaTransaction(key)) => account matches Ok(found) && found == key,
                Err(_) => account matches Err(said) && said@
                    == "bad origin: expected to be an Solana transaction"@,
            },
        exists|raw: Result<RawOrigin, O>| #[trigger]
            call_ensures(<O as Into<Result<RawOrigin, O>>>::into, (origin,), raw) && match raw {
                Ok(RawOrigin::SolanaTransaction(key)) => passed matches Ok(found) && found == key,
                Err(other) => passed matches Err(back) && back == other,
            },
{
}

/// The origin for measuring is made of the account whose bytes are all zero. It passes as that
/// account, where what is made of an account's origin turns out to be that origin.
pub proof fn law_origin_for_measuring_passes<O: Into<Result<RawOrigin, O>> + From<RawOrigin>>(
    origin: O,
    passed: Result<Pubkey, O>,
)
    requires
        call_ensures(
            EnsureSolanaTransaction::try_successful_origin::<O>,
            (),
            Ok::<O, ()>(origin),
        ),
        call_ensures(EnsureSolanaTransaction::try_origin::<O>, (origin,), passed),
        forall|made: RawOrigin, o: O, raw: Result<RawOrigin, O>|
            #![trigger call_ensures(<O as From<RawOrigin>>::from, (made,), o), call_ensures(<O as Into<Result<RawOrigin, O>>>::into, (o,), raw)]
            call_ensures(<O as From<RawOrigin>>::from, (made,), o) && call_ensures(
                <O as Into<Result<RawOrigin, O>>>::into,
                (o,),
                raw,
            ) ==> raw == Ok::<RawOrigin, O>(made),
    ensures
        passed matches Ok(account) && forall|i: int| 0 <= i < 32 ==> #[trigger] account@[i] == 0,
{
}

/// An origin for measuring can always be made, from the account whose bytes are all zero.
pub proof fn law_origin_for_measuring_is_made<O: From<RawOrigin>>(made: Result<O, ()>)
    requires
        call_ensures(EnsureSolanaTransaction::try_successful_origin::<O>, (), made),
    ensures
        made is Ok,
        exists|account: Pubkey|
            (forall|i: int| 0 <= i < 32 ==> #[trigger] account@[i] == 0) && #[trigger] call_ensures(
                <O as From<RawOrigin>>::from,
                (RawOrigin::SolanaTransaction(account),),
                made->Ok_0,
            ),
{
}

/// A transaction is carried out for an origin that is a Solana transaction, at the declared
/// weight and for a fee; any other origin pays just the same, and is told what was expected.
pub proof fn law_transaction_is_carried_out_for_its_origin<
    T: Config,
    O: Into<Result<RawOrigin, O>>,
>(
    origin: O,
    transaction: Transaction,
    outcome: Result<PostDispatchInfo, DispatchErrorWithPostInfo>,
)
    requires
        call_ensures(Pallet::<T>::transact::<O>, (origin, transaction), outcome),
    ensures
        exists|raw: Result<RawOrigin, O>| #[trigger]
            call_ensures(<O as Into<Result<RawOrigin, O>>>::into, (origin,), raw) && match raw {
                Ok(_) => outcome matches Ok(info) && info.actual_weight is None && info.pays_fee
                    == Pays::Yes,
                Err(_) => outcome matches Err(e) && e.post_info.actual_weight is None
                    && e.post_info.pays_fee == Pays::Yes && (e.error matches DispatchError::Other(
                    said,
                ) && said@ == "bad origin: expected to be an Solana transaction"@),
            },
{
}

/// A block enters the hash of the block before it, under that block's number, at no weight; and
/// every block but the very first can.
pub proof fn law_parent_is_entered<T: Config, H>(
    now: u64,
    parent_hash: H,
    entered: ((H, u64), Weight),
)
    requires
        now > 0,
        call_ensures(Pallet::<T>::on_initialize::<H>, (now, parent_hash), entered),
    ensures
        entered.0.0 == parent_hash,
        entered.0.1 + 1 == now,
        entered.1.ref_time == 0,
        entered.1.proof_size == 0,
        call_requires(Pallet::<T>::on_initialize::<H>, (now, parent_hash)),
{
}

/// The hash that a block drops is that of the block which is one more than the maximum age
/// back; before there is such a block, it is that of the very first.
pub proof fn law_expired_hash_is_dropped<T: Config>(now: u64, dropped: u64)
    requires
        call_ensures(Pallet::<T>::on_finalize, (now,), dropped),
    ensures
        now >= T::spec_blockhash_queue_max_age() + 1 ==> dropped + T::spec_blockhash_queue_max_age()
            + 1 == now,
        now <= T::spec_blockhash_queue_max_age() + 1 ==> dropped == 0,
{
}

/// A hash that a block enters is dropped by the block that comes as many blocks later as the
/// maximum age says, and by no other; the hash of the very first block is dropped at once.
pub proof fn law_entered_hash_is_dropped_in_time<T: Config, H>(
    entering: u64,
    parent_hash: H,
    entered: ((H, u64), Weight),
    dropping: u64,
    dropped: u64,
)
    requires
        entering > 0,
        call_ensures(Pallet::<T>::on_initialize::<H>, (entering, parent_hash), entered),
        call_ensures(Pallet::<T>::on_finalize, (dropping,), dropped),
    ensures
        entering > 1 ==> (dropped == entered.0.1 <==> dropping == entering
            + T::spec_blockhash_queue_max_age()),
        entering == 1 ==> (dropped == entered.0.1 <==> dropping <= entering
            + T::spec_blockhash_queue_max_age()),
{
}

} // verus!
