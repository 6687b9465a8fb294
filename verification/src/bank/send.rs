//! Carrying out a send, one request to the chain at a time.
//!
//! Everything that touches the chain's state (gas, balances, nonces, events) or its
//! configuration (address and asset formats) is a [`Request`]. A [`Pending`] send waits for the
//! [`Reply`] to its request and then decides what comes next.
use super::amount;
use super::amount::parse_amount;
use super::message;
use super::message::{copy_coins, decode_msg_send, Any, Coin, CoinView, MsgSend, MsgSendView};
use core::marker::PhantomData;
use vstd::prelude::*;

verus! {

/// The number of bytes in the address of an account.
pub const AUTH_ADDRESS_LEN: usize = 20;

pub const EVENT_TYPE_TRANSFER: &'static str = "transfer";

pub const ATTRIBUTE_KEY_SENDER: &'static str = "sender";

pub const ATTRIBUTE_KEY_RECIPIENT: &'static str = "recipient";

pub const ATTRIBUTE_KEY_AMOUNT: &'static str = "amount";

/// Why a send was refused.
#[derive(Clone, Copy, Debug, PartialEq, Eq, Structural)]
pub enum RootError {
    /// The message could not be decoded.
    UnpackAnyError,
    /// An address is no account address.
    InvalidAddress,
    /// A coin has an amount that is no number, or a denomination that no asset has.
    InvalidCoins,
    /// The gas for a transfer could not be paid.
    OutOfGas,
    /// A transfer was refused.
    InsufficientFunds,
    /// The recipient of an asset has never sent a transaction.
    UnknownAddress,
}

/// What a transfer of the native currency may do to the account it takes from.
#[derive(Clone, Copy, Debug, PartialEq, Eq, Structural)]
pub enum ExistenceRequirement {
    KeepAlive,
    AllowDeath,
}

/// What a transfer of an asset may do to the account it takes from.
#[derive(Clone, Copy, Debug, PartialEq, Eq, Structural)]
pub enum Preservation {
    Expendable,
    Protect,
    Preserve,
}

/// What the chain sets for sends.
pub struct SendParams {
    /// The denomination of the native currency.
    pub native_denom: String,
    /// The gas for sending one coin of the native currency.
    pub msg_send_native: u64,
    /// The gas for sending one coin of any other denomination.
    pub msg_send_asset: u64,
    /// The largest balance of the native currency.
    pub max_native_balance: u128,
    /// The largest balance of any other asset.
    pub max_asset_balance: u128,
}

pub struct SendParamsView {
    pub native_denom: Seq<char>,
    pub msg_send_native: u64,
    pub msg_send_asset: u64,
    pub max_native_balance: u128,
    pub max_asset_balance: u128,
}

impl View for SendParams {
    type V = SendParamsView;

    open spec fn view(&self) -> SendParamsView {
        SendParamsView {
            native_denom: self.native_denom@,
            msg_send_native: self.msg_send_native,
            msg_send_asset: self.msg_send_asset,
            max_native_balance: self.max_native_balance,
            max_asset_balance: self.max_asset_balance,
        }
    }
}

pub struct EventAttribute {
    pub key: String,
    pub value: String,
}

pub struct EventAttributeView {
    pub key: Seq<char>,
    pub value: Seq<char>,
}

impl View for EventAttribute {
    type V = EventAttributeView;

    open spec fn view(&self) -> EventAttributeView {
        EventAttributeView { key: self.key@, value: self.value@ }
    }
}

pub struct CosmosEvent {
    pub event_type: String,
    pub attributes: Vec<EventAttribute>,
}

pub struct CosmosEventView {
    pub event_type: Seq<char>,
    pub attributes: Seq<EventAttributeView>,
}

impl View for CosmosEvent {
    type V = CosmosEventView;

    open spec fn view(&self) -> CosmosEventView {
        CosmosEventView {
            event_type: self.event_type@,
            attributes: self.attributes@.map_values(|attribute: EventAttribute| attribute@),
        }
    }
}

/// What a send asks of the chain; `A` identifies an asset.
pub enum Request<A> {
    /// Decode the Bech32 address of an account.
    DecodeAddress(String),
    /// Take gas from the meter.
    ConsumeGas { gas: u64, descriptor: &'static str },
    /// Move native currency between two accounts.
    TransferNative {
        from: [u8; 20],
        to: [u8; 20],
        amount: u128,
        requirement: ExistenceRequirement,
    },
    /// Look up how many transactions an account has sent.
    ReadNonce([u8; 20]),
    /// Find the asset with a denomination.
    ResolveAsset(String),
    /// Move an asset between two accounts.
    TransferAsset {
        asset: A,
        from: [u8; 20],
        to: [u8; 20],
        amount: u128,
        preservation: Preservation,
    },
    /// Write coins as text.
    FormatCoins(Vec<Coin>),
    /// Record an event.
    EmitEvent(CosmosEvent),
}

#[verifier::reject_recursive_types(A)]
pub enum RequestView<A> {
    DecodeAddress(Seq<char>),
    ConsumeGas { gas: u64, descriptor: Seq<char> },
    TransferNative {
        from: Seq<u8>,
        to: Seq<u8>,
        amount: u128,
        requirement: ExistenceRequirement,
    },
    ReadNonce(Seq<u8>),
    ResolveAsset(Seq<char>),
    TransferAsset {
        asset: A,
        from: Seq<u8>,
        to: Seq<u8>,
        amount: u128,
        preservation: Preservation,
    },
    FormatCoins(Seq<CoinView>),
    EmitEvent(CosmosEventView),
}

impl<A> View for Request<A> {
    type V = RequestView<A>;

    open spec fn view(&self) -> RequestView<A> {
        match self {
            Request::DecodeAddress(address) => RequestView::DecodeAddress(address@),
            Request::ConsumeGas { gas, descriptor } => RequestView::ConsumeGas {
                gas: *gas,
                descriptor: descriptor@,
            },
            Request::TransferNative { from, to, amount, requirement } =>
                RequestView::TransferNative {
                from: from@,
                to: to@,
                amount: *amount,
                requirement: *requirement,
            },
            Request::ReadNonce(account) => RequestView::ReadNonce(account@),
            Request::ResolveAsset(denom) => RequestView::ResolveAsset(denom@),
            Request::TransferAsset { asset, from, to, amount, preservation } =>
                RequestView::TransferAsset {
                asset: *asset,
                from: from@,
                to: to@,
                amount: *amount,
                preservation: *preservation,
            },
            Request::FormatCoins(coins) => RequestView::FormatCoins(message::coins_view(coins@)),
            Request::EmitEvent(event) => RequestView::EmitEvent(event@),
        }
    }
}

/// What the chain answers to a [`Request`].
pub enum Reply<A> {
    /// The bytes of an address, unless the text was no address.
    Address(Result<Vec<u8>, ()>),
    /// Whether the gas was there to take.
    Gas(Result<(), ()>),
    /// Whether a transfer went through.
    Transfer(Result<(), ()>),
    /// The number of transactions that an account has sent.
    Nonce(u64),
    /// The asset with a denomination, if there is one.
    Asset(Result<A, ()>),
    /// Coins as text.
    Coins(String),
    /// An event was recorded.
    Emitted,
}

#[verifier::reject_recursive_types(A)]
pub enum ReplyView<A> {
    Address(Result<Seq<u8>, ()>),
    Gas(Result<(), ()>),
    Transfer(Result<(), ()>),
    Nonce(u64),
    Asset(Result<A, ()>),
    Coins(Seq<char>),
    Emitted,
}

impl<A> View for Reply<A> {
    type V = ReplyView<A>;

    open spec fn view(&self) -> ReplyView<A> {
        match self {
            Reply::Address(Ok(bytes)) => ReplyView::Address(Ok(bytes@)),
            Reply::Address(Err(e)) => ReplyView::Address(Err(*e)),
            Reply::Gas(outcome) => ReplyView::Gas(*outcome),
            Reply::Transfer(outcome) => ReplyView::Transfer(*outcome),
            Reply::Nonce(nonce) => ReplyView::Nonce(*nonce),
            Reply::Asset(asset) => ReplyView::Asset(*asset),
            Reply::Coins(text) => ReplyView::Coins(text@),
            Reply::Emitted => ReplyView::Emitted,
        }
    }
}

/// The coin whose turn it is, and the accounts it moves between.
#[derive(Clone, Copy)]
struct Turn {
    from: [u8; 20],
    to: [u8; 20],
    index: usize,
}

pub struct TurnView {
    pub from: Seq<u8>,
    pub to: Seq<u8>,
    pub index: int,
}

impl View for Turn {
    type V = TurnView;

    closed spec fn view(&self) -> TurnView {
        TurnView { from: self.from@, to: self.to@, index: self.index as int }
    }
}

/// Which reply a send is waiting for.
enum Stage {
    /// The sender's address.
    Sender,
    /// The recipient's address.
    Recipient { from: [u8; 20] },
    /// The gas for a coin of the native currency.
    NativeGas { turn: Turn, amount: u128 },
    /// The gas for a coin of another denomination.
    AssetGas { turn: Turn, amount: u128 },
    /// The recipient's nonce.
    RecipientNonce { turn: Turn, amount: u128 },
    /// The asset with the coin's denomination.
    AssetId { turn: Turn, amount: u128 },
    /// The transfer of the coin.
    Transfer { turn: Turn },
    /// The coins as text.
    CoinText,
    /// The event.
    Event,
}

pub enum StageView {
    Sender,
    Recipient { from: Seq<u8> },
    NativeGas { turn: TurnView, amount: u128 },
    AssetGas { turn: TurnView, amount: u128 },
    RecipientNonce { turn: TurnView, amount: u128 },
    AssetId { turn: TurnView, amount: u128 },
    Transfer { turn: TurnView },
    CoinText,
    Event,
}

impl View for Stage {
    type V = StageView;

    closed spec fn view(&self) -> StageView {
        match self {
            Stage::Sender => StageView::Sender,
            Stage::Recipient { from } => StageView::Recipient { from: from@ },
            Stage::NativeGas { turn, amount } => StageView::NativeGas {
                turn: turn@,
                amount: *amount,
            },
            Stage::AssetGas { turn, amount } => StageView::AssetGas {
                turn: turn@,
                amount: *amount,
            },
            Stage::RecipientNonce { turn, amount } => StageView::RecipientNonce {
                turn: turn@,
                amount: *amount,
            },
            Stage::AssetId { turn, amount } => StageView::AssetId { turn: turn@, amount: *amount },
            Stage::Transfer { turn } => StageView::Transfer { turn: turn@ },
            Stage::CoinText => StageView::CoinText,
            Stage::Event => StageView::Event,
        }
    }
}

/// A send that waits for the reply to its last request.
pub struct Pending {
    params: SendParams,
    msg: MsgSend,
    stage: Stage,
}

pub struct PendingView {
    pub params: SendParamsView,
    pub msg: MsgSendView,
    pub stage: StageView,
}

impl View for Pending {
    type V = PendingView;

    closed spec fn view(&self) -> PendingView {
        PendingView { params: self.params@, msg: self.msg@, stage: self.stage@ }
    }
}

/// The coin whose turn it is, if the stage belongs to one.
pub open spec fn stage_turn(stage: StageView) -> Option<TurnView> {
    match stage {
        StageView::NativeGas { turn, .. } => Some(turn),
        StageView::AssetGas { turn, .. } => Some(turn),
        StageView::RecipientNonce { turn, .. } => Some(turn),
        StageView::AssetId { turn, .. } => Some(turn),
        StageView::Transfer { turn } => Some(turn),
        _ => None,
    }
}

/// Where a send stands after a reply.
pub enum Step<A> {
    /// The request must be carried out, and its reply handed to the pending send.
    Ask(Request<A>, Pending),
    /// The send is over.
    Done(Result<(), RootError>),
}

#[verifier::reject_recursive_types(A)]
pub enum StepView<A> {
    Ask(RequestView<A>, PendingView),
    Done(Result<(), RootError>),
}

impl<A> View for Step<A> {
    type V = StepView<A>;

    open spec fn view(&self) -> StepView<A> {
        match self {
            Step::Ask(request, pending) => StepView::Ask(request@, pending@),
            Step::Done(outcome) => StepView::Done(*outcome),
        }
    }
}

/// An amount as a balance with the given maximum holds it.
pub open spec fn saturated(amount: u128, max: u128) -> u128 {
    if amount <= max {
        amount
    } else {
        max
    }
}

/// A decoded address, if it has the length of an account's.
pub open spec fn account_address(decoded: Result<Seq<u8>, ()>) -> Option<Seq<u8>> {
    match decoded {
        Ok(bytes) if bytes.len() == AUTH_ADDRESS_LEN => Some(bytes),
        _ => None,
    }
}

/// The event that records a send; `coins` is the text of what was sent.
pub open spec fn transfer_event(msg: MsgSendView, coins: Seq<char>) -> CosmosEventView {
    CosmosEventView {
        event_type: EVENT_TYPE_TRANSFER@,
        attributes: seq![
            EventAttributeView { key: ATTRIBUTE_KEY_SENDER@, value: msg.from_address },
            EventAttributeView { key: ATTRIBUTE_KEY_RECIPIENT@, value: msg.to_address },
            EventAttributeView { key: ATTRIBUTE_KEY_AMOUNT@, value: coins },
        ],
    }
}

pub open spec fn native_gas<A>(params: SendParamsView) -> RequestView<A> {
    RequestView::ConsumeGas { gas: params.msg_send_native, descriptor: "msg_send_native"@ }
}

pub open spec fn asset_gas<A>(params: SendParamsView) -> RequestView<A> {
    RequestView::ConsumeGas { gas: params.msg_send_asset, descriptor: "msg_send_asset"@ }
}

pub open spec fn native_transfer<A>(
    params: SendParamsView,
    turn: TurnView,
    amount: u128,
) -> RequestView<A> {
    RequestView::TransferNative {
        from: turn.from,
        to: turn.to,
        amount: saturated(amount, params.max_native_balance),
        requirement: ExistenceRequirement::KeepAlive,
    }
}

pub open spec fn asset_transfer<A>(
    params: SendParamsView,
    asset: A,
    turn: TurnView,
    amount: u128,
) -> RequestView<A> {
    RequestView::TransferAsset {
        asset,
        from: turn.from,
        to: turn.to,
        amount: saturated(amount, params.max_asset_balance),
        preservation: Preservation::Preserve,
    }
}

/// How a send begins: with the sender's address.
pub open spec fn first_step<A>(params: SendParamsView, msg: MsgSendView) -> StepView<A> {
    StepView::Ask(
        RequestView::DecodeAddress(msg.from_address),
        PendingView { params, msg, stage: StageView::Sender },
    )
}

/// How the turn of a coin begins: with the gas for it, if its amount is a number. After the
/// last coin, the coins are written as text.
pub open spec fn turn_step<A>(
    params: SendParamsView,
    msg: MsgSendView,
    turn: TurnView,
) -> StepView<A> {
    if turn.index >= msg.amount.len() {
        StepView::Ask(
            RequestView::FormatCoins(msg.amount),
            PendingView { params, msg, stage: StageView::CoinText },
        )
    } else {
        let coin = msg.amount[turn.index];
        match amount::denoted_amount(coin.amount) {
            None => StepView::Done(Err(RootError::InvalidCoins)),
            Some(amount) => if coin.denom == params.native_denom {
                StepView::Ask(
                    native_gas(params),
                    PendingView { params, msg, stage: StageView::NativeGas { turn, amount } },
                )
            } else {
                StepView::Ask(
                    asset_gas(params),
                    PendingView { params, msg, stage: StageView::AssetGas { turn, amount } },
                )
            },
        }
    }
}

/// Whether a reply is of the kind that a stage waits for.
pub open spec fn answers<A>(stage: StageView, reply: ReplyView<A>) -> bool {
    match stage {
        StageView::Sender => reply is Address,
        StageView::Recipient { .. } => reply is Address,
        StageView::NativeGas { .. } => reply is Gas,
        StageView::AssetGas { .. } => reply is Gas,
        StageView::RecipientNonce { .. } => reply is Nonce,
        StageView::AssetId { .. } => reply is Asset,
        StageView::Transfer { .. } => reply is Transfer,
        StageView::CoinText => reply is Coins,
        StageView::Event => reply is Emitted,
    }
}

/// What follows a reply of the kind that the send waits for.
pub open spec fn next_step<A>(pending: PendingView, reply: ReplyView<A>) -> StepView<A> {
    let PendingView { params, msg, stage } = pending;
    match (stage, reply) {
        (StageView::Sender, ReplyView::Address(decoded)) => match account_address(decoded) {
            Some(from) => StepView::Ask(
                RequestView::DecodeAddress(msg.to_address),
                PendingView { params, msg, stage: StageView::Recipient { from } },
            ),
            None => StepView::Done(Err(RootError::InvalidAddress)),
        },
        (StageView::Recipient { from }, ReplyView::Address(decoded)) => match account_address(
            decoded,
        ) {
            Some(to) => turn_step(params, msg, TurnView { from, to, index: 0 }),
            None => StepView::Done(Err(RootError::InvalidAddress)),
        },
        (StageView::NativeGas { turn, amount }, ReplyView::Gas(Ok(_))) => StepView::Ask(
            native_transfer(params, turn, amount),
            PendingView { params, msg, stage: StageView::Transfer { turn } },
        ),
        (StageView::AssetGas { turn, amount }, ReplyView::Gas(Ok(_))) => StepView::Ask(
            RequestView::ReadNonce(turn.to),
            PendingView { params, msg, stage: StageView::RecipientNonce { turn, amount } },
        ),
        (_, ReplyView::Gas(Err(_))) => StepView::Done(Err(RootError::OutOfGas)),
        (StageView::RecipientNonce { turn, amount }, ReplyView::Nonce(nonce)) => if nonce == 0 {
            StepView::Done(Err(RootError::UnknownAddress))
        } else {
            StepView::Ask(
                RequestView::ResolveAsset(msg.amount[turn.index].denom),
                PendingView { params, msg, stage: StageView::AssetId { turn, amount } },
            )
        },
        (StageView::AssetId { turn, amount }, ReplyView::Asset(Ok(asset))) => StepView::Ask(
            asset_transfer(params, asset, turn, amount),
            PendingView { params, msg, stage: StageView::Transfer { turn } },
        ),
        (_, ReplyView::Asset(Err(_))) => StepView::Done(Err(RootError::InvalidCoins)),
        (StageView::Transfer { turn }, ReplyView::Transfer(Ok(_))) => turn_step(
            params,
            msg,
            TurnView { index: turn.index + 1, ..turn },
        ),
        (_, ReplyView::Transfer(Err(_))) => StepView::Done(Err(RootError::InsufficientFunds)),
        (StageView::CoinText, ReplyView::Coins(text)) => StepView::Ask(
            RequestView::EmitEvent(transfer_event(msg, text)),
            PendingView { params, msg, stage: StageView::Event },
        ),
        (StageView::Event, ReplyView::Emitted) => StepView::Done(Ok(())),
        (_, _) => arbitrary(),
    }
}

/// Calls `H160::from_slice` of `sp-core`, which copies the bytes and panics unless there are
/// twenty. Claimed of it: the hash holds the bytes it was given, in order.
#[verifier::external_body]
fn h160_from_slice(bytes: &[u8]) -> (hash: [u8; 20])
    requires
        bytes@.len() == 20,
    ensures
        hash@ == bytes@,
{
    sp_core::H160::from_slice(bytes).0
}

/// The account that a decoded address stands for, if it has the length of an account's.
fn account_from(decoded: Result<Vec<u8>, ()>) -> (account: Option<[u8; 20]>)
    ensures
        (match account {
            Some(bytes) => Some(bytes@),
            None => None,
        }) == account_address(
            match decoded {
                Ok(bytes) => Ok(bytes@),
                Err(e) => Err(e),
            },
        ),
{
    match decoded {
        Ok(bytes) => if bytes.len() == AUTH_ADDRESS_LEN {
            Some(h160_from_slice(bytes.as_slice()))
        } else {
            None
        },
        Err(_) => None,
    }
}

fn saturate(amount: u128, max: u128) -> (balance: u128)
    ensures
        balance == saturated(amount, max),
{
    if amount <= max {
        amount
    } else {
        max
    }
}

fn event_attribute(key: &'static str, value: String) -> (attribute: EventAttribute)
    ensures
        attribute@ == (EventAttributeView { key: key@, value: value@ }),
{
    EventAttribute { key: key.to_owned(), value }
}

/// Starts the turn of a coin.
fn begin_turn<A>(params: SendParams, msg: MsgSend, turn: Turn) -> (step: Step<A>)
    requires
        turn@.index <= msg@.amount.len(),
    ensures
        step@ == turn_step::<A>(params@, msg@, turn@),
{
    if turn.index == msg.amount.len() {
        let coins = copy_coins(&msg.amount);
        return Step::Ask(
            Request::FormatCoins(coins),
            Pending { params, msg, stage: Stage::CoinText },
        );
    }
    let coin = &msg.amount[turn.index];
    match parse_amount(coin.amount.as_str()) {
        None => Step::Done(Err(RootError::InvalidCoins)),
        Some(amount) => if coin.denom == params.native_denom {
            let request = Request::ConsumeGas {
                gas: params.msg_send_native,
                descriptor: "msg_send_native",
            };
            Step::Ask(request, Pending { params, msg, stage: Stage::NativeGas { turn, amount } })
        } else {
            let request = Request::ConsumeGas {
                gas: params.msg_send_asset,
                descriptor: "msg_send_asset",
            };
            Step::Ask(request, Pending { params, msg, stage: Stage::AssetGas { turn, amount } })
        },
    }
}

impl Pending {
    #[verifier::type_invariant]
    spec fn well_formed(self) -> bool {
        match stage_turn(self.stage@) {
            Some(turn) => 0 <= turn.index < self.msg@.amount.len(),
            None => true,
        }
    }

    /// Whether a reply is of the kind that this send waits for.
    pub fn accepts<A>(&self, reply: &Reply<A>) -> (accepted: bool)
        ensures
            accepted == answers(self@.stage, reply@),
    {
        match (&self.stage, reply) {
            (Stage::Sender, Reply::Address(_)) => true,
            (Stage::Recipient { .. }, Reply::Address(_)) => true,
            (Stage::NativeGas { .. }, Reply::Gas(_)) => true,
            (Stage::AssetGas { .. }, Reply::Gas(_)) => true,
            (Stage::RecipientNonce { .. }, Reply::Nonce(_)) => true,
            (Stage::AssetId { .. }, Reply::Asset(_)) => true,
            (Stage::Transfer { .. }, Reply::Transfer(_)) => true,
            (Stage::CoinText, Reply::Coins(_)) => true,
            (Stage::Event, Reply::Emitted) => true,
            (_, _) => false,
        }
    }

    /// Goes on with the reply to the last request.
    pub fn resume<A>(self, reply: Reply<A>) -> (step: Step<A>)
        requires
            answers(self@.stage, reply@),
        ensures
            step@ == next_step(self@, reply@),
    {
        proof {
            use_type_invariant(&self);
        }
        let Pending { params, msg, stage } = self;
        match (stage, reply) {
            (Stage::Sender, Reply::Address(decoded)) => match account_from(decoded) {
                Some(from) => {
                    let request = Request::DecodeAddress(msg.to_address.clone());
                    Step::Ask(request, Pending { params, msg, stage: Stage::Recipient { from } })
                },
                None => Step::Done(Err(RootError::InvalidAddress)),
            },
            (Stage::Recipient { from }, Reply::Address(decoded)) => match account_from(decoded) {
                Some(to) => begin_turn(params, msg, Turn { from, to, index: 0 }),
                None => Step::Done(Err(RootError::InvalidAddress)),
            },
            (Stage::NativeGas { turn, amount }, Reply::Gas(Ok(_))) => {
                let request = Request::TransferNative {
                    from: turn.from,
                    to: turn.to,
                    amount: saturate(amount, params.max_native_balance),
                    requirement: ExistenceRequirement::KeepAlive,
                };
                Step::Ask(request, Pending { params, msg, stage: Stage::Transfer { turn } })
            },
            (Stage::AssetGas { turn, amount }, Reply::Gas(Ok(_))) => Step::Ask(
                Request::ReadNonce(turn.to),
                Pending { params, msg, stage: Stage::RecipientNonce { turn, amount } },
            ),
            (_, Reply::Gas(Err(_))) => Step::Done(Err(RootError::OutOfGas)),
            (Stage::RecipientNonce { turn, amount }, Reply::Nonce(nonce)) => if nonce == 0 {
                Step::Done(Err(RootError::UnknownAddress))
            } else {
                let request = Request::ResolveAsset(msg.amount[turn.index].denom.clone());
                Step::Ask(request, Pending { params, msg, stage: Stage::AssetId { turn, amount } })
            },
            (Stage::AssetId { turn, amount }, Reply::Asset(Ok(asset))) => {
                let request = Request::TransferAsset {
                    asset,
                    from: turn.from,
                    to: turn.to,
                    amount: saturate(amount, params.max_asset_balance),
                    preservation: Preservation::Preserve,
                };
                Step::Ask(request, Pending { params, msg, stage: Stage::Transfer { turn } })
            },
            (_, Reply::Asset(Err(_))) => Step::Done(Err(RootError::InvalidCoins)),
            (Stage::Transfer { turn }, Reply::Transfer(Ok(_))) => {
                assert(turn.index < msg.amount.len());
                let next = Turn { from: turn.from, to: turn.to, index: turn.index + 1 };
                begin_turn(params, msg, next)
            },
            (_, Reply::Transfer(Err(_))) => Step::Done(Err(RootError::InsufficientFunds)),
            (Stage::CoinText, Reply::Coins(text)) => {
                let event = CosmosEvent {
                    event_type: EVENT_TYPE_TRANSFER.to_owned(),
                    attributes: vec![
                        event_attribute(ATTRIBUTE_KEY_SENDER, msg.from_address.clone()),
                        event_attribute(ATTRIBUTE_KEY_RECIPIENT, msg.to_address.clone()),
                        event_attribute(ATTRIBUTE_KEY_AMOUNT, text),
                    ],
                };
                assert(event@.attributes =~= transfer_event(msg@, text@).attributes);
                Step::Ask(
                    Request::EmitEvent(event),
                    Pending { params, msg, stage: Stage::Event },
                )
            },
            (_, _) => Step::Done(Ok(())),
        }
    }
}

/// Carries out messages of type `MsgSend` for the chain `T`.
pub struct MsgSendHandler<T>(PhantomData<T>);

impl<T> Default for MsgSendHandler<T> {
    fn default() -> (handler: Self)
        ensures
            handler == MsgSendHandler::<T>::spec_default(),
    {
        MsgSendHandler(PhantomData)
    }
}

impl<T> MsgSendHandler<T> {
    pub closed spec fn spec_default() -> Self {
        MsgSendHandler(PhantomData)
    }

    /// Starts to carry out an encoded message.
    pub fn handle<A>(&self, params: SendParams, msg: &Any) -> (step: Step<A>)
        ensures
            step@ == match message::decoded_msg_send(msg.value@) {
                Some(msg) => first_step::<A>(params@, msg),
                None => StepView::Done(Err(RootError::UnpackAnyError)),
            },
    {
        match decode_msg_send(&msg.value) {
            Ok(msg) => self.send(params, msg),
            Err(_) => Step::Done(Err(RootError::UnpackAnyError)),
        }
    }

    /// Starts to carry out a message.
    pub fn send<A>(&self, params: SendParams, msg: MsgSend) -> (step: Step<A>)
        ensures
            step@ == first_step::<A>(params@, msg@),
    {
        let request = Request::DecodeAddress(msg.from_address.clone());
        Step::Ask(request, Pending { params, msg, stage: Stage::Sender })
    }
}

} // verus!
