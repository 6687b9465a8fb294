//! The message that asks for coins to be sent, and its wire form.
use cosmos_sdk_proto::prost::{DecodeError, Message};
use vstd::prelude::*;

verus! {

/// A protocol buffer message together with the name of its type.
pub struct Any {
    pub type_url: String,
    pub value: Vec<u8>,
}

/// So much of one denomination.
pub struct Coin {
    pub denom: String,
    pub amount: String,
}

pub struct CoinView {
    pub denom: Seq<char>,
    pub amount: Seq<char>,
}

impl View for Coin {
    type V = CoinView;

    open spec fn view(&self) -> CoinView {
        CoinView { denom: self.denom@, amount: self.amount@ }
    }
}

/// The contents of a list of coins.
pub open spec fn coins_view(coins: Seq<Coin>) -> Seq<CoinView> {
    coins.map_values(|coin: Coin| coin@)
}

/// Asks for coins to be sent from one account to another.
pub struct MsgSend {
    pub from_address: String,
    pub to_address: String,
    pub amount: Vec<Coin>,
}

pub struct MsgSendView {
    pub from_address: Seq<char>,
    pub to_address: Seq<char>,
    pub amount: Seq<CoinView>,
}

impl View for MsgSend {
    type V = MsgSendView;

    open spec fn view(&self) -> MsgSendView {
        MsgSendView {
            from_address: self.from_address@,
            to_address: self.to_address@,
            amount: coins_view(self.amount@),
        }
    }
}

/// A second list with the same coins.
pub(crate) fn copy_coins(coins: &Vec<Coin>) -> (copy: Vec<Coin>)
    ensures
        coins_view(copy@) == coins_view(coins@),
{
    let mut copy: Vec<Coin> = Vec::new();
    for i in 0..coins.len()
        invariant
            copy@.len() == i,
            forall|j: int| 0 <= j < i ==> (#[trigger] copy@[j])@ == coins@[j]@,
    {
        copy.push(Coin { denom: coins[i].denom.clone(), amount: coins[i].amount.clone() });
    }
    assert(coins_view(copy@) =~= coins_view(coins@));
    copy
}

#[verifier::external_type_specification]
#[verifier::external_body]
pub struct ExDecodeError(DecodeError);

/// What `prost` reads as a `MsgSend` of `cosmos-sdk-proto` in the given bytes, if it can.
pub uninterp spec fn decoded_msg_send(value: Seq<u8>) -> Option<MsgSendView>;

/// Calls `MsgSend::decode` of `cosmos-sdk-proto`, which reads the protocol buffer encoding
/// of the message. Claimed of it: the outcome depends on nothing but the bytes.
#[verifier::external_body]
pub(crate) fn decode_msg_send(value: &Vec<u8>) -> (decoded: Result<MsgSend, DecodeError>)
    ensures
        (match decoded {
            Ok(msg) => Some(msg@),
            Err(_) => None,
        }) == decoded_msg_send(value@),
{
    let msg = cosmos_sdk_proto::cosmos::bank::v1beta1::MsgSend::decode(&mut &**value)?;
    let amount = msg.amount.into_iter().map(|c| Coin { denom: c.denom, amount: c.amount });
    Ok(MsgSend {
        from_address: msg.from_address,
        to_address: msg.to_address,
        amount: amount.collect(),
    })
}

} // verus!
