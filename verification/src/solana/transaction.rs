//! Solana transactions, and what makes one acceptable.
use solana_sdk::instruction::CompiledInstruction as SdkInstruction;
use solana_sdk::message::v0::Message as SdkMessageV0;
use solana_sdk::message::v0::MessageAddressTableLookup as SdkLookup;
use solana_sdk::message::{
    Message as SdkMessage, MessageHeader as SdkHeader, SimpleAddressLoader,
    VersionedMessage as SdkVersionedMessage,
};
use solana_sdk::reserved_account_keys::ReservedAccountKeys;
use solana_sdk::transaction::{
    MessageHash, SanitizedTransaction as SdkSanitizedTransaction, TransactionError,
    VersionedTransaction,
};
use vstd::prelude::*;

verus! {

/// The address of an account, which is the public key of its owner.
pub type Pubkey = [u8; 32];

/// An Ed25519 signature.
pub type Signature = [u8; 64];

/// How many of a message's accounts sign it, and how many of them it may only read.
#[derive(Clone, Copy, Debug, PartialEq, Eq)]
pub struct MessageHeader {
    pub num_required_signatures: u8,
    pub num_readonly_signed_accounts: u8,
    pub num_readonly_unsigned_accounts: u8,
}

/// A call of a program; programs and accounts are given by their place in the message.
#[derive(Debug, PartialEq, Eq)]
pub struct CompiledInstruction {
    pub program_id_index: u8,
    pub accounts: Vec<u8>,
    pub data: Vec<u8>,
}

pub struct CompiledInstructionView {
    pub program_id_index: u8,
    pub accounts: Seq<u8>,
    pub data: Seq<u8>,
}

impl View for CompiledInstruction {
    type V = CompiledInstructionView;

    open spec fn view(&self) -> CompiledInstructionView {
        CompiledInstructionView {
            program_id_index: self.program_id_index,
            accounts: self.accounts@,
            data: self.data@,
        }
    }
}

impl Clone for CompiledInstruction {
    fn clone(&self) -> (copy: Self)
        ensures
            copy@ == self@,
    {
        CompiledInstruction {
            program_id_index: self.program_id_index,
            accounts: self.accounts.clone(),
            data: self.data.clone(),
        }
    }
}

/// Accounts that a message takes from a table on the chain.
#[derive(Debug, PartialEq, Eq)]
pub struct MessageAddressTableLookup {
    pub account_key: Pubkey,
    pub writable_indexes: Vec<u8>,
    pub readonly_indexes: Vec<u8>,
}

pub struct MessageAddressTableLookupView {
    pub account_key: Pubkey,
    pub writable_indexes: Seq<u8>,
    pub readonly_indexes: Seq<u8>,
}

impl View for MessageAddressTableLookup {
    type V = MessageAddressTableLookupView;

    open spec fn view(&self) -> MessageAddressTableLookupView {
        MessageAddressTableLookupView {
            account_key: self.account_key,
            writable_indexes: self.writable_indexes@,
            readonly_indexes: self.readonly_indexes@,
        }
    }
}

impl Clone for MessageAddressTableLookup {
    fn clone(&self) -> (copy: Self)
        ensures
            copy@ == self@,
    {
        MessageAddressTableLookup {
            account_key: self.account_key,
            writable_indexes: self.writable_indexes.clone(),
            readonly_indexes: self.readonly_indexes.clone(),
        }
    }
}

/// What the signers of a transaction sign.
#[derive(Debug, PartialEq, Eq)]
pub struct Message {
    pub header: MessageHeader,
    pub account_keys: Vec<Pubkey>,
    pub recent_blockhash: [u8; 32],
    pub instructions: Vec<CompiledInstruction>,
}

pub struct MessageView {
    pub header: MessageHeader,
    pub account_keys: Seq<Pubkey>,
    pub recent_blockhash: Seq<u8>,
    pub instructions: Seq<CompiledInstructionView>,
}

impl View for Message {
    type V = MessageView;

    open spec fn view(&self) -> MessageView {
        MessageView {
            header: self.header,
            account_keys: self.account_keys@,
            recent_blockhash: self.recent_blockhash@,
            instructions: self.instructions@.map_values(|ix: CompiledInstruction| ix@),
        }
    }
}

impl Clone for Message {
    fn clone(&self) -> (copy: Self)
        ensures
            copy@ == self@,
    {
        let instructions = self.instructions.clone();
        let copy = Message {
            header: self.header,
            account_keys: self.account_keys.clone(),
            recent_blockhash: self.recent_blockhash,
            instructions,
        };
        assert forall|i: int| 0 <= i < self@.account_keys.len() implies #[trigger] copy@.account_keys[i]
            == self@.account_keys[i] by {
            assert(copy@.account_keys[i] =~= self@.account_keys[i]);
        }
        assert(copy@.account_keys =~= self@.account_keys);
        assert(copy@.instructions =~= self@.instructions);
        copy
    }
}

/// A message in one of the formats that are in use.
#[derive(Debug, PartialEq, Eq)]
pub enum VersionedMessage {
    Legacy(Message),
    V0 { message: Message, address_table_lookups: Vec<MessageAddressTableLookup> },
}

pub enum VersionedMessageView {
    Legacy(MessageView),
    V0 { message: MessageView, address_table_lookups: Seq<MessageAddressTableLookupView> },
}

impl View for VersionedMessage {
    type V = VersionedMessageView;

    open spec fn view(&self) -> VersionedMessageView {
        match self {
            VersionedMessage::Legacy(message) => VersionedMessageView::Legacy(message@),
            VersionedMessage::V0 { message, address_table_lookups } => VersionedMessageView::V0 {
                message: message@,
                address_table_lookups: address_table_lookups@.map_values(
                    |lookup: MessageAddressTableLookup| lookup@,
                ),
            },
        }
    }
}

impl Clone for VersionedMessage {
    fn clone(&self) -> (copy: Self)
        ensures
            copy@ == self@,
    {
        match self {
            VersionedMessage::Legacy(message) => VersionedMessage::Legacy(message.clone()),
            VersionedMessage::V0 { message, address_table_lookups } => {
                let copy = VersionedMessage::V0 {
                    message: message.clone(),
                    address_table_lookups: address_table_lookups.clone(),
                };
                assert(copy@->address_table_lookups =~= self@->address_table_lookups);
                copy
            },
        }
    }
}

/// A message and the signatures under it.
#[derive(Debug, PartialEq, Eq)]
pub struct Transaction {
    pub signatures: Vec<Signature>,
    pub message: VersionedMessage,
}

pub struct TransactionView {
    pub signatures: Seq<Signature>,
    pub message: VersionedMessageView,
}

impl View for Transaction {
    type V = TransactionView;

    open spec fn view(&self) -> TransactionView {
        TransactionView { signatures: self.signatures@, message: self.message@ }
    }
}

impl Clone for Transaction {
    fn clone(&self) -> (copy: Self)
        ensures
            copy@ == self@,
    {
        let copy = Transaction {
            signatures: self.signatures.clone(),
            message: self.message.clone(),
        };
        assert forall|i: int| 0 <= i < self@.signatures.len() implies #[trigger] copy@.signatures[i]
            == self@.signatures[i] by {
            assert(copy@.signatures[i] =~= self@.signatures[i]);
        }
        assert(copy@.signatures =~= self@.signatures);
        copy
    }
}

/// Whether each required signature, and no other, is there, with an account to go with it.
pub open spec fn signatures_complete(signatures: Seq<Signature>, message: MessageView) -> bool {
    signatures.len() == message.header.num_required_signatures && signatures.len()
        <= message.account_keys.len()
}

/// Whether the parts of a message agree with each other, when `loaded` accounts come from
/// tables: the header does not speak of more accounts than there are, the first account signs
/// and can be written to, so that it can pay the fee, and each instruction names accounts that
/// are there and a program that is not the payer.
pub open spec fn message_consistent(message: MessageView, loaded: nat) -> bool {
    let header = message.header;
    let keys = message.account_keys.len();
    &&& header.num_required_signatures + header.num_readonly_unsigned_accounts <= keys
    &&& header.num_readonly_signed_accounts < header.num_required_signatures
    &&& forall|i: int|
        0 <= i < message.instructions.len() ==> 0 < (
        #[trigger] message.instructions[i]).program_id_index < keys
    &&& forall|i: int, j: int|
        0 <= i < message.instructions.len() && 0 <= j < message.instructions[i].accounts.len()
            ==> #[trigger] message.instructions[i].accounts[j] < keys + loaded
}

/// How many accounts come from tables.
pub open spec fn loaded_accounts(lookups: Seq<MessageAddressTableLookupView>) -> nat
    decreases lookups.len(),
{
    if lookups.len() == 0 {
        0
    } else {
        loaded_accounts(lookups.drop_last()) + lookups.last().writable_indexes.len()
            + lookups.last().readonly_indexes.len()
    }
}

/// Whether a transaction has its signatures and a consistent message; one that uses tables must
/// take at least one account from each and have 256 accounts at most.
pub open spec fn consistent(transaction: TransactionView) -> bool {
    match transaction.message {
        VersionedMessageView::Legacy(message) => {
            &&& signatures_complete(transaction.signatures, message)
            &&& message_consistent(message, 0)
        },
        VersionedMessageView::V0 { message, address_table_lookups } => {
            &&& signatures_complete(transaction.signatures, message)
            &&& message_consistent(message, loaded_accounts(address_table_lookups))
            &&& message.account_keys.len() + loaded_accounts(address_table_lookups) <= 256
            &&& forall|i: int|
                0 <= i < address_table_lookups.len() ==> (
                #[trigger] address_table_lookups[i]).writable_indexes.len()
                    + address_table_lookups[i].readonly_indexes.len() > 0
        },
    }
}

/// Whether a transaction can be accepted as far as its parts go: there is no way to load accounts
/// from tables, so it must have a legacy message.
pub open spec fn acceptable(transaction: TransactionView) -> bool {
    transaction.message is Legacy && consistent(transaction)
}

/// Whether each list of a message is short enough for the wire format, which counts to `u16::MAX`.
pub open spec fn message_encodable(message: MessageView) -> bool {
    &&& message.account_keys.len() <= u16::MAX
    &&& message.instructions.len() <= u16::MAX
    &&& forall|i: int|
        0 <= i < message.instructions.len() ==> (#[trigger] message.instructions[i]).accounts.len()
            <= u16::MAX && message.instructions[i].data.len() <= u16::MAX
}

/// Whether a list of tables, and each list of accounts in it, is short enough for the wire format.
pub open spec fn lookups_encodable(lookups: Seq<MessageAddressTableLookupView>) -> bool {
    &&& lookups.len() <= u16::MAX
    &&& forall|i: int|
        0 <= i < lookups.len() ==> (#[trigger] lookups[i]).writable_indexes.len() <= u16::MAX
            && lookups[i].readonly_indexes.len() <= u16::MAX
}

/// Whether the message of a transaction has an encoding.
pub open spec fn encodable(transaction: TransactionView) -> bool {
    match transaction.message {
        VersionedMessageView::Legacy(message) => message_encodable(message),
        VersionedMessageView::V0 { message, address_table_lookups } => {
            &&& message_encodable(message)
            &&& lookups_encodable(address_table_lookups)
        },
    }
}

#[verifier::external_type_specification]
#[verifier::external_body]
pub struct ExTransactionError(TransactionError);

/// The bytes that `Message::serialize` of `solana-sdk` encodes a message in; these are what is
/// signed.
pub uninterp spec fn message_data(message: MessageView) -> Seq<u8>;

/// Whether `Signature::verify` of `solana-sdk` takes a signature over the given bytes to be the
/// key owner's.
pub uninterp spec fn signature_verifies(
    signature: Seq<u8>,
    pubkey: Seq<u8>,
    message: Seq<u8>,
) -> bool;

/// Whether each signature is that of the account in the same place.
pub open spec fn signatures_verify(signatures: Seq<Signature>, message: MessageView) -> bool {
    forall|i: int|
        0 <= i < signatures.len() && i < message.account_keys.len() ==> signature_verifies(
            (#[trigger] signatures[i])@,
            message.account_keys[i]@,
            message_data(message),
        )
}

/// The transaction made of the given signatures and a message that may use tables.
pub open spec fn with_tables(
    signatures: Seq<Signature>,
    message: MessageView,
    lookups: Seq<MessageAddressTableLookup>,
) -> TransactionView {
    TransactionView {
        signatures,
        message: VersionedMessageView::V0 {
            message,
            address_table_lookups: lookups.map_values(|lookup: MessageAddressTableLookup| lookup@),
        },
    }
}

/// What there is to know of a transaction that is well put together.
pub struct SanitizedTransaction {
    /// Whether its signatures are those of the accounts that have to sign.
    pub verified: bool,
    /// The account that pays for it.
    pub fee_payer: Pubkey,
}

/// Calls `SanitizedTransaction::try_create` of `solana-sdk` on a transaction with a legacy
/// message, and on its result `verify` and `fee_payer`. Claimed of them: a transaction is
/// created just if the signatures are complete and the message is consistent; verification
/// passes just if each signature verifies over the encoded message under the account key in the
/// same place; the fee payer is the first account. The first call encodes the message to hash
/// it, and panics if some list is too long for that.
#[verifier::external_body]
fn sanitize_legacy(signatures: Vec<Signature>, message: Message) -> (sanitized: Result<
    SanitizedTransaction,
    TransactionError,
>)
    requires
        signatures_complete(signatures@, message@) && message_consistent(message@, 0)
            ==> message_encodable(message@),
    ensures
        match sanitized {
            Ok(sanitized) => {
                &&& signatures_complete(signatures@, message@)
                &&& message_consistent(message@, 0)
                &&& sanitized.verified == (forall|i: int|
                    0 <= i < signatures@.len() && i < message@.account_keys.len()
                        ==> signature_verifies(
                        (#[trigger] signatures@[i])@,
                        message@.account_keys[i]@,
                        message_data(message@),
                    ))
                &&& sanitized.fee_payer == message@.account_keys[0]
            },
            Err(_) => !(signatures_complete(signatures@, message@) && message_consistent(
                message@,
                0,
            )),
        },
{
    let Message { header, account_keys, recent_blockhash, instructions } = message;
    let message = SdkMessage::new_with_compiled_instructions(
        header.num_required_signatures,
        header.num_readonly_signed_accounts,
        header.num_readonly_unsigned_accounts,
        account_keys.into_iter().map(Into::into).collect(),
        recent_blockhash.into(),
        instructions.into_iter().map(|CompiledInstruction { program_id_index, accounts, data }| SdkInstruction { program_id_index, accounts, data }).collect(),
    );
    let signatures = signatures.into_iter().map(Into::into).collect();
    let transaction = VersionedTransaction { signatures, message: SdkVersionedMessage::Legacy(message) };
    let sanitized = SdkSanitizedTransaction::try_create(transaction, MessageHash::Compute, None, SimpleAddressLoader::Disabled, &ReservedAccountKeys::empty_key_set())?;
    Ok(SanitizedTransaction { verified: sanitized.verify().is_ok(), fee_payer: sanitized.message().fee_payer().to_bytes() })
}

/// Calls `SanitizedTransaction::try_create` of `solana-sdk` on a transaction whose message may
/// use tables, without a way to load accounts from them. Claimed of it: no such transaction is
/// created, not even one that uses no table. The call encodes a consistent message to hash it,
/// and panics if some list is too long for that.
#[verifier::external_body]
fn sanitize_v0(
    signatures: Vec<Signature>,
    message: Message,
    lookups: Vec<MessageAddressTableLookup>,
) -> (refusal: Option<TransactionError>)
    requires
        consistent(with_tables(signatures@, message@, lookups@)) ==> encodable(
            with_tables(signatures@, message@, lookups@),
        ),
    ensures
        refusal is Some,
{
    let MessageHeader { num_required_signatures, num_readonly_signed_accounts, num_readonly_unsigned_accounts } = message.header;
    let message = SdkMessageV0 {
        header: SdkHeader { num_required_signatures, num_readonly_signed_accounts, num_readonly_unsigned_accounts },
        account_keys: message.account_keys.into_iter().map(Into::into).collect(),
        recent_blockhash: message.recent_blockhash.into(),
        instructions: message.instructions.into_iter().map(|CompiledInstruction { program_id_index, accounts, data }| SdkInstruction { program_id_index, accounts, data }).collect(),
        address_table_lookups: lookups.into_iter().map(|MessageAddressTableLookup { account_key, writable_indexes, readonly_indexes }| SdkLookup { account_key: account_key.into(), writable_indexes, readonly_indexes }).collect(),
    };
    let signatures = signatures.into_iter().map(Into::into).collect();
    SdkSanitizedTransaction::try_create(VersionedTransaction { signatures, message: SdkVersionedMessage::V0(message) }, MessageHash::Compute, None, SimpleAddressLoader::Disabled, &ReservedAccountKeys::empty_key_set()).err()
}

/// Takes a transaction apart, if it is well put together.
pub fn sanitize(transaction: Transaction) -> (sanitized: Result<
    SanitizedTransaction,
    TransactionError,
>)
    requires
        consistent(transaction@) ==> encodable(transaction@),
    ensures
        match sanitized {
            Ok(sanitized) => {
                &&& acceptable(transaction@)
                &&& sanitized.verified == signatures_verify(
                    transaction@.signatures,
                    transaction@.message->Legacy_0,
                )
                &&& sanitized.fee_payer == transaction@.message->Legacy_0.account_keys[0]
            },
            Err(_) => !acceptable(transaction@),
        },
{
    let Transaction { signatures, message } = transaction;
    match message {
        VersionedMessage::Legacy(message) => sanitize_legacy(signatures, message),
        VersionedMessage::V0 { message, address_table_lookups } => {
            match sanitize_v0(signatures, message, address_table_lookups) {
                Some(refusal) => Err(refusal),
                None => vstd::pervasive::unreached(),
            }
        },
    }
}

/// Tells whether the message of a transaction has an encoding.
pub fn is_encodable(transaction: &Transaction) -> (yes: bool)
    ensures
        yes == encodable(transaction@),
{
    match &transaction.message {
        VersionedMessage::Legacy(message) => is_message_encodable(message),
        VersionedMessage::V0 { message, address_table_lookups } => is_message_encodable(message)
            && are_lookups_encodable(address_table_lookups),
    }
}

fn are_lookups_encodable(lookups: &Vec<MessageAddressTableLookup>) -> (yes: bool)
    ensures
        yes == lookups_encodable(
            lookups@.map_values(|lookup: MessageAddressTableLookup| lookup@),
        ),
{
    let ghost views = lookups@.map_values(|lookup: MessageAddressTableLookup| lookup@);
    if lookups.len() > 0xffff {
        return false;
    }
    for i in 0..lookups.len()
        invariant
            views == lookups@.map_values(|lookup: MessageAddressTableLookup| lookup@),
            forall|j: int|
                0 <= j < i ==> (#[trigger] views[j]).writable_indexes.len() <= u16::MAX
                    && views[j].readonly_indexes.len() <= u16::MAX,
    {
        let lookup = &lookups[i];
        assert(views[i as int] == lookup@);
        if lookup.writable_indexes.len() > 0xffff || lookup.readonly_indexes.len() > 0xffff {
            return false;
        }
    }
    true
}

fn is_message_encodable(message: &Message) -> (yes: bool)
    ensures
        yes == message_encodable(message@),
{
    if message.account_keys.len() > 0xffff || message.instructions.len() > 0xffff {
        return false;
    }
    for i in 0..message.instructions.len()
        invariant
            forall|j: int|
                0 <= j < i ==> (#[trigger] message@.instructions[j]).accounts.len() <= u16::MAX
                    && message@.instructions[j].data.len() <= u16::MAX,
    {
        let ix = &message.instructions[i];
        assert(message@.instructions[i as int] == ix@);
        if ix.accounts.len() > 0xffff || ix.data.len() > 0xffff {
            return false;
        }
    }
    true
}

} // verus!
