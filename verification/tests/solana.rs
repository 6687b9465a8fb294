use noir_pallets::solana::config::{Config, TestDefaultConfig};
use noir_pallets::solana::origin::{
    ensure_raw_origin, ensure_solana_transaction, EnsureSolanaTransaction, RawOrigin,
};
use noir_pallets::solana::pallet::{
    authenticate, Call, DispatchError, DispatchErrorWithPostInfo, Pallet, Pays, PostDispatchInfo,
    Weight,
};
use noir_pallets::solana::transaction::{
    is_encodable, CompiledInstruction, Message, MessageAddressTableLookup, MessageHeader, Pubkey,
    SanitizedTransaction, Transaction, VersionedMessage,
};
use noir_pallets::solana::validity::{
    InvalidTransaction, TransactionValidityError, UnknownTransaction, ValidTransaction,
};
use solana_sdk::instruction::{AccountMeta, Instruction};
use solana_sdk::signature::Keypair;
use solana_sdk::signer::keypair::keypair_from_seed;
use solana_sdk::signer::Signer;
use solana_sdk::transaction::{TransactionError, VersionedTransaction};
use std::collections::HashMap;
use std::marker::PhantomData;

type TestCall = Call<TestDefaultConfig>;
type TestPallet = Pallet<TestDefaultConfig>;

const CUSTOM: TransactionValidityError =
    TransactionValidityError::Invalid(InvalidTransaction::Custom(0));
const BAD_PROOF: TransactionValidityError =
    TransactionValidityError::Invalid(InvalidTransaction::BadProof);
const EXHAUSTED: TransactionValidityError =
    TransactionValidityError::Invalid(InvalidTransaction::ExhaustsResources);

fn keypair(seed: u8) -> Keypair {
    keypair_from_seed(&[seed; 32]).unwrap()
}

fn instruction(signers: &[&Keypair]) -> Instruction {
    let accounts = signers.iter().map(|signer| AccountMeta::new(signer.pubkey(), true)).collect();
    Instruction::new_with_bytes(solana_sdk::pubkey::Pubkey::from([9; 32]), &[1, 2, 3], accounts)
}

fn plain_instruction(ix: &solana_sdk::instruction::CompiledInstruction) -> CompiledInstruction {
    CompiledInstruction {
        program_id_index: ix.program_id_index,
        accounts: ix.accounts.clone(),
        data: ix.data.clone(),
    }
}

fn plain(transaction: &VersionedTransaction) -> Transaction {
    let message = &transaction.message;
    let header = message.header();
    let plain = Message {
        header: MessageHeader {
            num_required_signatures: header.num_required_signatures,
            num_readonly_signed_accounts: header.num_readonly_signed_accounts,
            num_readonly_unsigned_accounts: header.num_readonly_unsigned_accounts,
        },
        account_keys: message.static_account_keys().iter().map(|key| key.to_bytes()).collect(),
        recent_blockhash: message.recent_blockhash().to_bytes(),
        instructions: message.instructions().iter().map(plain_instruction).collect(),
    };
    Transaction {
        signatures: transaction.signatures.iter().map(|s| <[u8; 64]>::from(*s)).collect(),
        message: match message.address_table_lookups() {
            None => VersionedMessage::Legacy(plain),
            Some(lookups) => VersionedMessage::V0 {
                message: plain,
                address_table_lookups: lookups
                    .iter()
                    .map(|lookup| MessageAddressTableLookup {
                        account_key: lookup.account_key.to_bytes(),
                        writable_indexes: lookup.writable_indexes.clone(),
                        readonly_indexes: lookup.readonly_indexes.clone(),
                    })
                    .collect(),
            },
        },
    }
}

fn signed_legacy(signers: &[&Keypair]) -> Transaction {
    let message = solana_sdk::message::Message::new_with_blockhash(
        &[instruction(signers)],
        Some(&signers[0].pubkey()),
        &solana_sdk::hash::Hash::new_from_array([5; 32]),
    );
    let message = solana_sdk::message::VersionedMessage::Legacy(message);
    plain(&VersionedTransaction::try_new(message, signers).unwrap())
}

fn signed_v0(signers: &[&Keypair]) -> Transaction {
    let message = solana_sdk::message::v0::Message::try_compile(
        &signers[0].pubkey(),
        &[instruction(signers)],
        &[],
        solana_sdk::hash::Hash::new_from_array([5; 32]),
    )
    .unwrap();
    let message = solana_sdk::message::VersionedMessage::V0(message);
    plain(&VersionedTransaction::try_new(message, signers).unwrap())
}

fn legacy(transaction: &mut Transaction) -> &mut Message {
    match &mut transaction.message {
        VersionedMessage::Legacy(message) => message,
        VersionedMessage::V0 { .. } => panic!("not a legacy message"),
    }
}

fn check(transaction: Transaction) -> Option<Result<Pubkey, TransactionValidityError>> {
    assert!(is_encodable(&transaction));
    TestCall::transact { transaction }.check_self_contained()
}

fn no_call() -> TestCall {
    TestCall::__Ignore(PhantomData)
}

#[test]
fn signed_transaction_speaks_for_its_fee_payer() {
    let payer = keypair(1);
    assert_eq!(check(signed_legacy(&[&payer])), Some(Ok(payer.pubkey().to_bytes())));
    let second = keypair(2);
    assert_eq!(check(signed_legacy(&[&payer, &second])), Some(Ok(payer.pubkey().to_bytes())));
    assert_eq!(check(signed_legacy(&[&second, &payer])), Some(Ok(second.pubkey().to_bytes())));
}

#[test]
fn tampered_transaction_has_a_bad_proof() {
    let payer = keypair(1);
    let mut transaction = signed_legacy(&[&payer]);
    legacy(&mut transaction).instructions[0].data[0] ^= 1;
    assert_eq!(check(transaction), Some(Err(BAD_PROOF)));

    let mut transaction = signed_legacy(&[&payer]);
    legacy(&mut transaction).recent_blockhash[31] ^= 1;
    assert_eq!(check(transaction), Some(Err(BAD_PROOF)));

    let mut transaction = signed_legacy(&[&payer]);
    transaction.signatures[0][0] ^= 1;
    assert_eq!(check(transaction), Some(Err(BAD_PROOF)));
}

#[test]
fn one_bad_signature_among_several_is_a_bad_proof() {
    let (first, second) = (keypair(1), keypair(2));
    let mut transaction = signed_legacy(&[&first, &second]);
    transaction.signatures[1] = transaction.signatures[0];
    assert_eq!(check(transaction), Some(Err(BAD_PROOF)));
}

#[test]
fn missing_or_extra_signatures_are_refused() {
    let payer = keypair(1);
    let mut transaction = signed_legacy(&[&payer]);
    transaction.signatures.clear();
    assert_eq!(check(transaction), Some(Err(CUSTOM)));

    let mut transaction = signed_legacy(&[&payer]);
    let signature = transaction.signatures[0];
    transaction.signatures.push(signature);
    assert_eq!(check(transaction), Some(Err(CUSTOM)));
}

#[test]
fn inconsistent_messages_are_refused() {
    let payer = keypair(1);
    let changes: [fn(&mut Message); 6] = [
        |m| m.account_keys.truncate(1),
        |m| m.header.num_readonly_unsigned_accounts = 2,
        |m| m.header.num_readonly_signed_accounts = 1,
        |m| m.instructions[0].program_id_index = 0,
        |m| m.instructions[0].program_id_index = 2,
        |m| m.instructions[0].accounts.push(2),
    ];
    for change in changes {
        let mut transaction = signed_legacy(&[&payer]);
        assert_eq!(legacy(&mut transaction).account_keys.len(), 2);
        change(legacy(&mut transaction));
        assert_eq!(check(transaction), Some(Err(CUSTOM)));
    }
}

#[test]
fn messages_that_may_use_tables_are_refused() {
    let payer = keypair(1);
    assert_eq!(check(signed_v0(&[&payer])), Some(Err(CUSTOM)));
    let mut transaction = signed_v0(&[&payer]);
    if let VersionedMessage::V0 { address_table_lookups, .. } = &mut transaction.message {
        address_table_lookups.push(MessageAddressTableLookup {
            account_key: [4; 32],
            writable_indexes: vec![0],
            readonly_indexes: vec![],
        });
    }
    assert_eq!(check(transaction), Some(Err(CUSTOM)));
}

#[test]
fn empty_transaction_is_refused() {
    let transaction = Transaction {
        signatures: vec![],
        message: VersionedMessage::Legacy(Message {
            header: MessageHeader {
                num_required_signatures: 0,
                num_readonly_signed_accounts: 0,
                num_readonly_unsigned_accounts: 0,
            },
            account_keys: vec![],
            recent_blockhash: [0; 32],
            instructions: vec![],
        }),
    };
    assert_eq!(check(transaction), Some(Err(CUSTOM)));
}

#[test]
fn copies_of_a_transaction_are_equal() {
    for transaction in [signed_legacy(&[&keypair(1), &keypair(2)]), signed_v0(&[&keypair(3)])] {
        assert_eq!(transaction.clone(), transaction);
    }
}

#[test]
fn long_lists_have_no_encoding() {
    let payer = keypair(1);
    let mut transaction = signed_legacy(&[&payer]);
    legacy(&mut transaction).instructions[0].data = vec![0; 65535];
    assert!(is_encodable(&transaction));
    legacy(&mut transaction).instructions[0].data = vec![0; 65536];
    assert!(!is_encodable(&transaction));

    let mut transaction = signed_legacy(&[&payer]);
    legacy(&mut transaction).account_keys = vec![[0; 32]; 65536];
    assert!(!is_encodable(&transaction));

    let mut transaction = signed_v0(&[&payer]);
    if let VersionedMessage::V0 { address_table_lookups, .. } = &mut transaction.message {
        address_table_lookups.push(MessageAddressTableLookup {
            account_key: [4; 32],
            writable_indexes: vec![],
            readonly_indexes: vec![0; 65536],
        });
    }
    assert!(!is_encodable(&transaction));
}

#[test]
fn decision_follows_what_came_of_taking_apart() {
    let taken = |verified| Ok(SanitizedTransaction { verified, fee_payer: [7; 32] });
    assert_eq!(authenticate(taken(true)), Ok([7; 32]));
    assert_eq!(authenticate(taken(false)), Err(BAD_PROOF));
    assert_eq!(authenticate(Err(TransactionError::SanitizeFailure)), Err(CUSTOM));
}

#[test]
fn only_transact_is_self_contained() {
    let call = TestCall::transact { transaction: signed_legacy(&[&keypair(1)]) };
    assert!(call.is_self_contained());
    assert!(!no_call().is_self_contained());
    assert_eq!(no_call().check_self_contained(), None);
    assert_eq!(no_call().pre_dispatch_self_contained(&[1; 32], Ok(())), None);
    assert_eq!(no_call().validate_self_contained(&[1; 32], Err(EXHAUSTED)), None);
}

#[test]
fn weight_check_decides_on_dispatch() {
    let call = TestCall::transact { transaction: signed_legacy(&[&keypair(1)]) };
    assert_eq!(call.pre_dispatch_self_contained(&[1; 32], Ok(())), Some(Ok(())));
    assert_eq!(call.pre_dispatch_self_contained(&[1; 32], Err(EXHAUSTED)), Some(Err(EXHAUSTED)));
    let unknown = TransactionValidityError::Unknown(UnknownTransaction::CannotLookup);
    assert_eq!(call.pre_dispatch_self_contained(&[1; 32], Err(unknown)), Some(Err(unknown)));
}

#[test]
fn pool_gets_a_transaction_without_demands() {
    let call = TestCall::transact { transaction: signed_legacy(&[&keypair(1)]) };
    let weight_check = ValidTransaction {
        priority: 8,
        requires_tags: vec![vec![1]],
        provides_tags: vec![vec![2]],
        longevity: 5,
        propagate: false,
    };
    let undemanding = ValidTransaction {
        priority: 0,
        requires_tags: vec![],
        provides_tags: vec![],
        longevity: u64::MAX,
        propagate: true,
    };
    assert_eq!(
        call.validate_self_contained(&[1; 32], Ok(weight_check)),
        Some(Ok(undemanding))
    );
    assert_eq!(call.validate_self_contained(&[1; 32], Err(EXHAUSTED)), Some(Err(EXHAUSTED)));
}

#[derive(Debug, PartialEq)]
enum OuterOrigin {
    Root,
    Solana(RawOrigin),
}

impl From<OuterOrigin> for Result<RawOrigin, OuterOrigin> {
    fn from(origin: OuterOrigin) -> Self {
        match origin {
            OuterOrigin::Solana(raw) => Ok(raw),
            other => Err(other),
        }
    }
}

impl From<RawOrigin> for OuterOrigin {
    fn from(raw: RawOrigin) -> Self {
        OuterOrigin::Solana(raw)
    }
}

fn solana(account: Pubkey) -> OuterOrigin {
    OuterOrigin::Solana(RawOrigin::SolanaTransaction(account))
}

#[test]
fn origin_checks_agree() {
    assert_eq!(ensure_solana_transaction(solana([3; 32])), Ok([3; 32]));
    assert_eq!(
        ensure_solana_transaction(OuterOrigin::Root),
        Err("bad origin: expected to be an Solana transaction")
    );
    assert_eq!(EnsureSolanaTransaction::try_origin(solana([3; 32])), Ok([3; 32]));
    assert_eq!(EnsureSolanaTransaction::try_origin(OuterOrigin::Root), Err(OuterOrigin::Root));
    assert_eq!(ensure_raw_origin::<()>(Ok(RawOrigin::SolanaTransaction([6; 32]))), Ok([6; 32]));
}

#[test]
fn successful_origin_passes() {
    let origin: OuterOrigin = EnsureSolanaTransaction::try_successful_origin().unwrap();
    assert_eq!(EnsureSolanaTransaction::try_origin(origin), Ok([0; 32]));
}

#[test]
fn transact_needs_a_solana_origin() {
    let declared = PostDispatchInfo { actual_weight: None, pays_fee: Pays::Yes };
    let transaction = signed_legacy(&[&keypair(1)]);
    assert_eq!(TestPallet::transact(solana([3; 32]), transaction.clone()), Ok(declared));
    assert_eq!(
        TestPallet::transact(OuterOrigin::Root, transaction),
        Err(DispatchErrorWithPostInfo {
            post_info: declared,
            error: DispatchError::Other("bad origin: expected to be an Solana transaction"),
        })
    );
}

#[test]
fn default_configuration() {
    assert_eq!(TestDefaultConfig::decimal_multiplier(), 1);
    assert_eq!(TestDefaultConfig::blockhash_queue_max_age(), 20);
    assert_eq!(TestDefaultConfig::max_permitted_data_length(), 10_485_760);
}

#[test]
fn hash_of_the_parent_is_entered() {
    assert_eq!(
        TestPallet::on_initialize(8, [1u8; 32]),
        (([1u8; 32], 7), Weight { ref_time: 0, proof_size: 0 })
    );
    assert_eq!(TestPallet::on_initialize(1, "genesis").0, ("genesis", 0));
    assert_eq!(TestPallet::on_initialize(u64::MAX, ()).0 .1, u64::MAX - 1);
}

#[test]
fn hash_beyond_the_maximum_age_is_dropped() {
    assert_eq!(TestPallet::on_finalize(0), 0);
    assert_eq!(TestPallet::on_finalize(1), 0);
    assert_eq!(TestPallet::on_finalize(21), 0);
    assert_eq!(TestPallet::on_finalize(22), 1);
    assert_eq!(TestPallet::on_finalize(100), 79);
    assert_eq!(TestPallet::on_finalize(u64::MAX), u64::MAX - 21);
}

#[test]
fn queue_holds_the_last_twenty_hashes() {
    let hash = |number: u64| number.wrapping_mul(0x9e37_79b9_7f4a_7c15);
    let mut queue: HashMap<u64, u64> = HashMap::new();
    for now in 1..=100u64 {
        let ((parent_hash, number), _) = TestPallet::on_initialize(now, hash(now - 1));
        queue.insert(parent_hash, number);
        let gone = TestPallet::on_finalize(now);
        queue.remove(&hash(gone));
        assert!(queue.values().all(|number| *number > gone));
        let oldest = if now > 21 { now - 20 } else { 1 };
        let expected: HashMap<u64, u64> = (oldest..now).map(|k| (hash(k), k)).collect();
        assert_eq!(queue, expected);
        assert!(queue.len() <= 20);
    }
}
