use cosmos_sdk_proto::cosmos::bank::v1beta1::MsgSend as WireMsgSend;
use cosmos_sdk_proto::cosmos::base::v1beta1::Coin as WireCoin;
use cosmos_sdk_proto::prost::Message;
use noir_pallets::bank::amount::parse_amount;
use noir_pallets::bank::message::{Any, Coin, MsgSend};
use noir_pallets::bank::send::{
    CosmosEvent, ExistenceRequirement, MsgSendHandler, Pending, Preservation, Reply, Request,
    RootError, SendParams, Step,
};

const SENDER: [u8; 20] = [1; 20];
const RECIPIENT: [u8; 20] = [2; 20];

fn params() -> SendParams {
    SendParams {
        native_denom: "azig".to_string(),
        msg_send_native: 100,
        msg_send_asset: 200,
        max_native_balance: u128::MAX,
        max_asset_balance: u128::MAX,
    }
}

fn message(coins: &[(&str, &str)]) -> MsgSend {
    MsgSend {
        from_address: "cosmos1sender".to_string(),
        to_address: "cosmos1recipient".to_string(),
        amount: coins
            .iter()
            .map(|(amount, denom)| Coin { denom: denom.to_string(), amount: amount.to_string() })
            .collect(),
    }
}

fn start(params: SendParams, msg: MsgSend) -> Step<u32> {
    MsgSendHandler::<()>::default().send(params, msg)
}

/// The chain of the tests: what it was asked for, in words, and what it refuses.
#[derive(Default)]
struct Chain {
    log: Vec<String>,
    bad_sender: bool,
    short_recipient: bool,
    no_gas: bool,
    new_recipient: bool,
    no_asset: bool,
    no_funds: bool,
    events: Vec<CosmosEvent>,
}

impl Chain {
    fn reply(&mut self, request: Request<u32>) -> Reply<u32> {
        match request {
            Request::DecodeAddress(address) => {
                self.log.push(format!("decode {address}"));
                if address == "cosmos1sender" {
                    Reply::Address(if self.bad_sender { Err(()) } else { Ok(SENDER.to_vec()) })
                } else if self.short_recipient {
                    Reply::Address(Ok(vec![2; 32]))
                } else {
                    Reply::Address(Ok(RECIPIENT.to_vec()))
                }
            }
            Request::ConsumeGas { gas, descriptor } => {
                self.log.push(format!("gas {gas} {descriptor}"));
                Reply::Gas(if self.no_gas { Err(()) } else { Ok(()) })
            }
            Request::TransferNative { from, to, amount, requirement } => {
                assert_eq!((from, to), (SENDER, RECIPIENT));
                assert_eq!(requirement, ExistenceRequirement::KeepAlive);
                self.log.push(format!("native {amount}"));
                Reply::Transfer(if self.no_funds { Err(()) } else { Ok(()) })
            }
            Request::ReadNonce(account) => {
                assert_eq!(account, RECIPIENT);
                self.log.push("nonce".to_string());
                Reply::Nonce(if self.new_recipient { 0 } else { 3 })
            }
            Request::ResolveAsset(denom) => {
                self.log.push(format!("resolve {denom}"));
                Reply::Asset(if self.no_asset { Err(()) } else { Ok(denom.len() as u32) })
            }
            Request::TransferAsset { asset, from, to, amount, preservation } => {
                assert_eq!((from, to), (SENDER, RECIPIENT));
                assert_eq!(preservation, Preservation::Preserve);
                self.log.push(format!("asset {asset} {amount}"));
                Reply::Transfer(if self.no_funds { Err(()) } else { Ok(()) })
            }
            Request::FormatCoins(coins) => {
                self.log.push("format".to_string());
                let texts: Vec<String> =
                    coins.iter().map(|coin| format!("{}{}", coin.amount, coin.denom)).collect();
                Reply::Coins(texts.join(","))
            }
            Request::EmitEvent(event) => {
                self.log.push("emit".to_string());
                self.events.push(event);
                Reply::Emitted
            }
        }
    }

    fn drive(&mut self, mut step: Step<u32>) -> Result<(), RootError> {
        loop {
            match step {
                Step::Done(outcome) => return outcome,
                Step::Ask(request, pending) => {
                    let reply = self.reply(request);
                    assert!(pending.accepts(&reply));
                    step = pending.resume(reply);
                }
            }
        }
    }
}

fn pending(step: Step<u32>) -> Pending {
    match step {
        Step::Ask(_, pending) => pending,
        Step::Done(_) => panic!("the send is over"),
    }
}

#[test]
fn amounts_are_read_as_the_standard_library_reads_them() {
    let max = u128::MAX.to_string();
    let texts = [
        "", "0", "00", "7", "42", "+42", "++42", "+", "-", "-0", "-1", "4 2", " 42", "42 ", "4_2",
        "0x10", "1e3", "1.5", "\u{0664}\u{0662}", "12345678901234567890123456789",
        "00000000000000000000000000000000000000000000000000000000001",
        "340282366920938463463374607431768211455", "340282366920938463463374607431768211456",
        "340282366920938463463374607431768211460", "3402823669209384634633746074317682114550",
        "99999999999999999999999999999999999999999x",
    ];
    for text in texts {
        assert_eq!(parse_amount(text), text.parse::<u128>().ok(), "{text:?}");
    }
    assert_eq!(parse_amount(&max), Some(u128::MAX));
    assert_eq!(parse_amount("42"), Some(42));
    assert_eq!(parse_amount("+007"), Some(7));
    assert_eq!(parse_amount("4\u{1F600}"), None);
}

#[test]
fn bytes_that_are_no_message_are_refused() {
    let msg = Any { type_url: "/cosmos.bank.v1beta1.MsgSend".to_string(), value: vec![0xff] };
    let step: Step<u32> = MsgSendHandler::<()>::default().handle(params(), &msg);
    assert!(matches!(step, Step::Done(Err(RootError::UnpackAnyError))));
}

#[test]
fn encoded_message_is_carried_out() {
    let wire = WireMsgSend {
        from_address: "cosmos1sender".to_string(),
        to_address: "cosmos1recipient".to_string(),
        amount: vec![
            WireCoin { denom: "azig".to_string(), amount: "5".to_string() },
            WireCoin { denom: "uatom".to_string(), amount: "9".to_string() },
        ],
    };
    let msg = Any { type_url: String::new(), value: wire.encode_to_vec() };
    let mut chain = Chain::default();
    let outcome = chain.drive(MsgSendHandler::<()>::default().handle(params(), &msg));
    assert_eq!(outcome, Ok(()));
    assert_eq!(
        chain.log,
        [
            "decode cosmos1sender",
            "decode cosmos1recipient",
            "gas 100 msg_send_native",
            "native 5",
            "gas 200 msg_send_asset",
            "nonce",
            "resolve uatom",
            "asset 5 9",
            "format",
            "emit",
        ]
    );
    let event = &chain.events[0];
    assert_eq!(event.event_type, "transfer");
    let attributes: Vec<(&str, &str)> =
        event.attributes.iter().map(|a| (a.key.as_str(), a.value.as_str())).collect();
    assert_eq!(
        attributes,
        [("sender", "cosmos1sender"), ("recipient", "cosmos1recipient"), ("amount", "5azig,9uatom")]
    );
}

#[test]
fn message_without_coins_only_records_the_event() {
    let mut chain = Chain::default();
    assert_eq!(chain.drive(start(params(), message(&[]))), Ok(()));
    assert_eq!(chain.log, ["decode cosmos1sender", "decode cosmos1recipient", "format", "emit"]);
    assert_eq!(chain.events[0].attributes[2].value, "");
}

#[test]
fn sender_that_is_no_address_is_refused() {
    let mut chain = Chain { bad_sender: true, ..Chain::default() };
    let outcome = chain.drive(start(params(), message(&[("1", "azig")])));
    assert_eq!(outcome, Err(RootError::InvalidAddress));
    assert_eq!(chain.log, ["decode cosmos1sender"]);
}

#[test]
fn recipient_of_the_wrong_length_is_refused() {
    let mut chain = Chain { short_recipient: true, ..Chain::default() };
    let outcome = chain.drive(start(params(), message(&[("1", "azig")])));
    assert_eq!(outcome, Err(RootError::InvalidAddress));
    assert_eq!(chain.log.len(), 2);
}

#[test]
fn addresses_of_other_lengths_are_refused() {
    for len in [0, 1, 19, 21, 32] {
        let step = pending(start(params(), message(&[])));
        let step = step.resume(Reply::<u32>::Address(Ok(vec![1; len])));
        assert!(matches!(step, Step::Done(Err(RootError::InvalidAddress))));
    }
}

#[test]
fn amount_that_is_no_number_is_refused_before_gas_is_taken() {
    let mut chain = Chain::default();
    let outcome = chain.drive(start(params(), message(&[("1", "azig"), ("many", "azig")])));
    assert_eq!(outcome, Err(RootError::InvalidCoins));
    assert_eq!(chain.log[2..], ["gas 100 msg_send_native", "native 1"]);
    assert!(chain.events.is_empty());
}

#[test]
fn gas_that_cannot_be_paid_ends_the_send() {
    for (denom, last) in [("azig", "gas 100 msg_send_native"), ("uatom", "gas 200 msg_send_asset")] {
        let mut chain = Chain { no_gas: true, ..Chain::default() };
        let outcome = chain.drive(start(params(), message(&[("1", denom)])));
        assert_eq!(outcome, Err(RootError::OutOfGas));
        assert_eq!(chain.log.last().unwrap(), last);
    }
}

#[test]
fn recipient_of_an_asset_must_be_known() {
    let mut chain = Chain { new_recipient: true, ..Chain::default() };
    let outcome = chain.drive(start(params(), message(&[("1", "uatom")])));
    assert_eq!(outcome, Err(RootError::UnknownAddress));
    assert_eq!(chain.log.last().unwrap(), "nonce");

    let mut chain = Chain { new_recipient: true, ..Chain::default() };
    assert_eq!(chain.drive(start(params(), message(&[("1", "azig")]))), Ok(()));
}

#[test]
fn denomination_without_an_asset_is_refused() {
    let mut chain = Chain { no_asset: true, ..Chain::default() };
    let outcome = chain.drive(start(params(), message(&[("1", "uatom")])));
    assert_eq!(outcome, Err(RootError::InvalidCoins));
    assert_eq!(chain.log.last().unwrap(), "resolve uatom");
}

#[test]
fn refused_transfer_ends_the_send() {
    for (denom, last) in [("azig", "native 1"), ("uatom", "asset 5 1")] {
        let mut chain = Chain { no_funds: true, ..Chain::default() };
        let outcome = chain.drive(start(params(), message(&[("1", denom), ("2", denom)])));
        assert_eq!(outcome, Err(RootError::InsufficientFunds));
        assert_eq!(chain.log.last().unwrap(), last);
        assert!(chain.events.is_empty());
    }
}

#[test]
fn amounts_saturate_at_the_largest_balance() {
    let limits = SendParams {
        max_native_balance: u64::MAX as u128,
        max_asset_balance: 1000,
        ..params()
    };
    let native = u128::MAX.to_string();
    let coins = [(native.as_str(), "azig"), ("1001", "uatom"), ("1000", "uatom"), ("7", "azig")];
    let mut chain = Chain::default();
    assert_eq!(chain.drive(start(limits, message(&coins))), Ok(()));
    let moved: Vec<&String> =
        chain.log.iter().filter(|l| l.starts_with("native") || l.starts_with("asset")).collect();
    assert_eq!(moved, ["native 18446744073709551615", "asset 5 1000", "asset 5 1000", "native 7"]);
}

#[test]
fn every_coin_moves_once_and_in_order() {
    let coins = [("3", "azig"), ("1", "uatom"), ("4", "azig"), ("1", "uosmo"), ("0", "azig")];
    let mut chain = Chain::default();
    assert_eq!(chain.drive(start(params(), message(&coins))), Ok(()));
    let moved: Vec<&String> =
        chain.log.iter().filter(|l| l.starts_with("native") || l.starts_with("asset")).collect();
    assert_eq!(moved, ["native 3", "asset 5 1", "native 4", "asset 5 1", "native 0"]);
    assert!(chain.log.len() <= 4 + 4 * coins.len());
    assert_eq!(chain.log.last().unwrap(), "emit");
    assert_eq!(chain.events.len(), 1);
}

#[test]
fn only_fitting_replies_are_accepted() {
    let first = pending(start(params(), message(&[("1", "azig")])));
    assert!(first.accepts(&Reply::<u32>::Address(Err(()))));
    assert!(!first.accepts(&Reply::<u32>::Gas(Ok(()))));
    assert!(!first.accepts(&Reply::<u32>::Emitted));
    let second = pending(first.resume(Reply::<u32>::Address(Ok(SENDER.to_vec()))));
    let third = pending(second.resume(Reply::<u32>::Address(Ok(RECIPIENT.to_vec()))));
    assert!(third.accepts(&Reply::<u32>::Gas(Ok(()))));
    assert!(!third.accepts(&Reply::<u32>::Transfer(Ok(()))));
    let fourth = pending(third.resume(Reply::<u32>::Gas(Ok(()))));
    assert!(fourth.accepts(&Reply::<u32>::Transfer(Ok(()))));
    assert!(!fourth.accepts(&Reply::<u32>::Nonce(1)));
}
