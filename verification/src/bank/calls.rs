//! What a caller sees of a send: the requests it gets, the replies it gives and the outcome.
use super::amount;
use super::message;
use super::message::{Any, MsgSend};
use super::send;
use super::send::{
    ExistenceRequirement, MsgSendHandler, Pending, Preservation, Reply, Request, RootError,
    SendParams, StageView, Step, TurnView,
};
use vstd::prelude::*;

verus! {

/// Whether a step is how a send of the message begins, be the message given as it is or encoded.
pub open spec fn begun<T, A>(
    handler: MsgSendHandler<T>,
    params: SendParams,
    msg: MsgSend,
    encoded: Any,
    step: Step<A>,
) -> bool {
    ||| call_ensures(MsgSendHandler::<T>::send::<A>, (&handler, params, msg), step)
    ||| message::decoded_msg_send(encoded.value@) == Some(msg@) && call_ensures(
        MsgSendHandler::<T>::handle::<A>,
        (&handler, params, &encoded),
        step,
    )
}

/// Whether a step is what a pending send comes to with a reply that it accepts.
pub open spec fn resumed<A>(step: Step<A>, reply: Reply<A>, next: Step<A>) -> bool {
    step matches Step::Ask(_, pending) && call_ensures(
        Pending::accepts::<A>,
        (&pending, &reply),
        true,
    ) && call_ensures(Pending::resume::<A>, (pending, reply), next)
}

/// Whether these are the steps of a send that got these replies; the `i`th reply leads from the
/// `i`th step to the next.
pub open spec fn carried_out<T, A>(
    handler: MsgSendHandler<T>,
    params: SendParams,
    msg: MsgSend,
    encoded: Any,
    replies: Seq<Reply<A>>,
    steps: Seq<Step<A>>,
) -> bool {
    &&& steps.len() == replies.len() + 1
    &&& begun(handler, params, msg, encoded, steps[0])
    &&& forall|i: int|
        0 <= i < replies.len() ==> resumed(steps[i], #[trigger] replies[i], steps[i + 1])
}

pub open spec fn asks_for_transfer<A>(step: Step<A>) -> bool {
    step matches Step::Ask(request, _) && (request is TransferNative || request is TransferAsset)
}

/// How many of the first `n` steps ask for a transfer; the coin in that place is next.
pub open spec fn transfers_before<A>(steps: Seq<Step<A>>, n: int) -> int
    decreases n,
{
    if n <= 0 {
        0
    } else if asks_for_transfer(steps[n - 1]) {
        transfers_before(steps, n - 1) + 1
    } else {
        transfers_before(steps, n - 1)
    }
}

/// What a pending send has in mind of the coin whose turn it is.
spec fn turn_kept<A>(
    msg: MsgSend,
    replies: Seq<Reply<A>>,
    steps: Seq<Step<A>>,
    i: int,
    turn: TurnView,
) -> bool {
    &&& i >= 2
    &&& replies[0] matches Reply::Address(Ok(from)) && from@.len() == 20 && turn.from == from@
    &&& replies[1] matches Reply::Address(Ok(to)) && to@.len() == 20 && turn.to == to@
    &&& turn.index == transfers_before(steps, i)
    &&& 0 <= turn.index < msg.amount@.len()
}

spec fn amount_kept(msg: MsgSend, turn: TurnView, amount: u128) -> bool {
    amount::denoted_amount(msg.amount@[turn.index].amount@) == Some(amount)
}

spec fn is_native(params: SendParams, msg: MsgSend, turn: TurnView) -> bool {
    msg.amount@[turn.index].denom@ == params.native_denom@
}

/// How what a pending send has in mind relates to what it asked and was told.
spec fn kept<A>(
    params: SendParams,
    msg: MsgSend,
    replies: Seq<Reply<A>>,
    steps: Seq<Step<A>>,
    i: int,
) -> bool {
    steps[i] matches Step::Ask(request, pending) ==> {
        &&& pending@.params == params@
        &&& pending@.msg == msg@
        &&& match pending@.stage {
            StageView::Sender => i == 0 && request is DecodeAddress,
            StageView::Recipient { from } => {
                &&& i == 1
                &&& transfers_before(steps, i) == 0
                &&& request is DecodeAddress
                &&& replies[0] matches Reply::Address(Ok(sender)) && sender@.len() == 20 && from
                    == sender@
            },
            StageView::NativeGas { turn, amount } => {
                &&& turn_kept(msg, replies, steps, i, turn)
                &&& amount_kept(msg, turn, amount)
                &&& is_native(params, msg, turn)
                &&& request@ == send::native_gas::<A>(params@)
            },
            StageView::AssetGas { turn, amount } => {
                &&& turn_kept(msg, replies, steps, i, turn)
                &&& amount_kept(msg, turn, amount)
                &&& !is_native(params, msg, turn)
                &&& request@ == send::asset_gas::<A>(params@)
            },
            StageView::RecipientNonce { turn, amount } => {
                &&& turn_kept(msg, replies, steps, i, turn)
                &&& amount_kept(msg, turn, amount)
                &&& !is_native(params, msg, turn)
                &&& request is ReadNonce
                &&& request@->ReadNonce_0 == turn.to
            },
            StageView::AssetId { turn, amount } => {
                &&& turn_kept(msg, replies, steps, i, turn)
                &&& amount_kept(msg, turn, amount)
                &&& !is_native(params, msg, turn)
                &&& request is ResolveAsset
                &&& request@->ResolveAsset_0 == msg.amount@[turn.index].denom@
            },
            StageView::Transfer { turn } => {
                &&& turn_kept(msg, replies, steps, i, turn)
                &&& amount::denoted_amount(msg.amount@[turn.index].amount@) matches Some(amount)
                    && if is_native(params, msg, turn) {
                    request@ == send::native_transfer::<A>(params@, turn, amount)
                } else {
                    &&& request is TransferAsset
                    &&& request@ == send::asset_transfer::<A>(
                        params@,
                        request->TransferAsset_asset,
                        turn,
                        amount,
                    )
                }
            },
            StageView::CoinText => {
                &&& i >= 2
                &&& request is FormatCoins
                &&& request@->FormatCoins_0 == msg@.amount
                &&& transfers_before(steps, i) == msg.amount@.len()
            },
            StageView::Event => i >= 3 && request is EmitEvent,
        }
    }
}

/// Each step of a send keeps what the steps before it came to.
proof fn lemma_kept<T, A>(
    handler: MsgSendHandler<T>,
    params: SendParams,
    msg: MsgSend,
    encoded: Any,
    replies: Seq<Reply<A>>,
    steps: Seq<Step<A>>,
    i: int,
)
    requires
        carried_out(handler, params, msg, encoded, replies, steps),
        0 <= i < steps.len(),
    ensures
        kept(params, msg, replies, steps, i),
        i > 0 ==> steps[i - 1] is Ask && steps[i]@ == send::next_step(
            steps[i - 1]->Ask_1@,
            replies[i - 1]@,
        ) && send::answers(steps[i - 1]->Ask_1@.stage, replies[i - 1]@) && kept(
            params,
            msg,
            replies,
            steps,
            i - 1,
        ),
    decreases i,
{
    if i > 0 {
        lemma_kept(handler, params, msg, encoded, replies, steps, i - 1);
        assert(resumed(steps[i - 1], replies[i - 1], steps[i]));
        assert(transfers_before(steps, i) == transfers_before(steps, i - 1) + if asks_for_transfer(
            steps[i - 1],
        ) {
            1int
        } else {
            0int
        });
        assert forall|k: int| 0 <= k < msg.amount@.len() implies #[trigger] msg@.amount[k]
            == msg.amount@[k]@ by {}
        assert(msg@.amount.len() == msg.amount@.len());
    } else {
        assert(steps[0]@ == send::first_step::<A>(params@, msg@));
    }
}

/// Bytes that are no message are refused before anything is asked.
pub proof fn law_undecodable_message_is_refused<T, A>(
    handler: MsgSendHandler<T>,
    params: SendParams,
    encoded: Any,
    step: Step<A>,
)
    requires
        call_ensures(MsgSendHandler::<T>::handle::<A>, (&handler, params, &encoded), step),
        message::decoded_msg_send(encoded.value@) is None,
    ensures
        step == Step::<A>::Done(Err(RootError::UnpackAnyError)),
{
}

/// A send begins by asking for the bytes of the sender's address, and then asks for those of the
/// recipient's, if the sender's are twenty. An address that is none, or has another length, ends
/// the send.
pub proof fn law_addresses_come_first<T, A>(
    handler: MsgSendHandler<T>,
    params: SendParams,
    msg: MsgSend,
    encoded: Any,
    replies: Seq<Reply<A>>,
    steps: Seq<Step<A>>,
)
    requires
        carried_out(handler, params, msg, encoded, replies, steps),
    ensures
        steps[0] matches Step::Ask(Request::DecodeAddress(address), _) && address@
            == msg.from_address@,
        replies.len() > 0 ==> (replies[0] matches Reply::Address(decoded) && match decoded {
            Ok(bytes) if bytes@.len() == 20 => steps[1] matches Step::Ask(
                Request::DecodeAddress(address),
                _,
            ) && address@ == msg.to_address@,
            _ => steps[1] == Step::<A>::Done(Err(RootError::InvalidAddress)),
        }),
        replies.len() > 1 ==> (replies[1] matches Reply::Address(decoded) && match decoded {
            Ok(bytes) if bytes@.len() == 20 => steps[2] != Step::<A>::Done(
                Err(RootError::InvalidAddress),
            ),
            _ => steps[2] == Step::<A>::Done(Err(RootError::InvalidAddress)),
        }),
{
    lemma_kept(handler, params, msg, encoded, replies, steps, 0);
    assert(steps[0]@ == send::first_step::<A>(params@, msg@));
    if replies.len() > 0 {
        lemma_kept(handler, params, msg, encoded, replies, steps, 1);
    }
    if replies.len() > 1 {
        lemma_kept(handler, params, msg, encoded, replies, steps, 2);
    }
}

/// Coins move from the very bytes that the sender's address decoded to, to the very bytes that the
/// recipient's address decoded to; and it is the recipient whose nonce is looked up.
pub proof fn law_transfers_move_between_decoded_accounts<T, A>(
    handler: MsgSendHandler<T>,
    params: SendParams,
    msg: MsgSend,
    encoded: Any,
    replies: Seq<Reply<A>>,
    steps: Seq<Step<A>>,
    i: int,
)
    requires
        carried_out(handler, params, msg, encoded, replies, steps),
        0 <= i < steps.len(),
    ensures
        match steps[i] {
            Step::Ask(Request::TransferNative { from, to, .. }, _) => {
                &&& i >= 2
                &&& replies[0] matches Reply::Address(Ok(sender)) && from@ == sender@
                &&& replies[1] matches Reply::Address(Ok(recipient)) && to@ == recipient@
            },
            Step::Ask(Request::TransferAsset { from, to, .. }, _) => {
                &&& i >= 2
                &&& replies[0] matches Reply::Address(Ok(sender)) && from@ == sender@
                &&& replies[1] matches Reply::Address(Ok(recipient)) && to@ == recipient@
            },
            Step::Ask(Request::ReadNonce(account), _) => {
                &&& i >= 2
                &&& replies[1] matches Reply::Address(Ok(recipient)) && account@ == recipient@
            },
            _ => true,
        },
{
    lemma_kept(handler, params, msg, encoded, replies, steps, i);
}

/// A transfer moves the amount that the message gives for the coin whose turn it is, unchanged if
/// a balance can hold it, and else the largest balance there can be. The native currency moves as
/// such, and everything else as an asset; the sender's account stays in being.
pub proof fn law_amount_is_moved_as_written<T, A>(
    handler: MsgSendHandler<T>,
    params: SendParams,
    msg: MsgSend,
    encoded: Any,
    replies: Seq<Reply<A>>,
    steps: Seq<Step<A>>,
    i: int,
)
    requires
        carried_out(handler, params, msg, encoded, replies, steps),
        0 <= i < steps.len(),
    ensures
        match steps[i] {
            Step::Ask(Request::TransferNative { amount, requirement, .. }, _) => {
                let k = transfers_before(steps, i);
                &&& 0 <= k < msg.amount@.len()
                &&& msg.amount@[k].denom@ == params.native_denom@
                &&& amount::denoted_amount(msg.amount@[k].amount@) matches Some(written) && {
                    &&& written <= params.max_native_balance ==> amount == written
                    &&& written > params.max_native_balance ==> amount == params.max_native_balance
                }
                &&& requirement == ExistenceRequirement::KeepAlive
            },
            Step::Ask(Request::TransferAsset { amount, preservation, .. }, _) => {
                let k = transfers_before(steps, i);
                &&& 0 <= k < msg.amount@.len()
                &&& msg.amount@[k].denom@ != params.native_denom@
                &&& amount::denoted_amount(msg.amount@[k].amount@) matches Some(written) && {
                    &&& written <= params.max_asset_balance ==> amount == written
                    &&& written > params.max_asset_balance ==> amount == params.max_asset_balance
                }
                &&& preservation == Preservation::Preserve
            },
            _ => true,
        },
{
    lemma_kept(handler, params, msg, encoded, replies, steps, i);
}

/// Once both addresses are known, and again after each transfer that went through, the next coin
/// of the message has its turn: gas is asked for, as much as the chain sets for its kind, unless
/// its amount is no number, which ends the send. After the last coin, the text of all of them is
/// asked for.
pub proof fn law_coins_take_turns<T, A>(
    handler: MsgSendHandler<T>,
    params: SendParams,
    msg: MsgSend,
    encoded: Any,
    replies: Seq<Reply<A>>,
    steps: Seq<Step<A>>,
    i: int,
)
    requires
        carried_out(handler, params, msg, encoded, replies, steps),
        0 <= i < replies.len(),
        i == 1 && (replies[1] matches Reply::Address(Ok(bytes)) && bytes@.len() == 20)
            || asks_for_transfer(steps[i]) && replies[i] matches Reply::Transfer(Ok(_)),
    ensures
        ({
            let k = transfers_before(steps, i + 1);
            if k == msg.amount@.len() {
                steps[i + 1] matches Step::Ask(Request::FormatCoins(coins), _) && {
                    &&& coins@.len() == msg.amount@.len()
                    &&& forall|j: int|
                        0 <= j < coins@.len() ==> (#[trigger] coins@[j]).denom@
                            == msg.amount@[j].denom@ && coins@[j].amount@ == msg.amount@[j].amount@
                }
            } else {
                &&& 0 <= k < msg.amount@.len()
                &&& amount::denoted_amount(msg.amount@[k].amount@) is None ==> steps[i + 1]
                    == Step::<A>::Done(Err(RootError::InvalidCoins))
                &&& amount::denoted_amount(msg.amount@[k].amount@) is Some ==> (steps[i
                    + 1] matches Step::Ask(Request::ConsumeGas { gas, descriptor }, _) && {
                    if msg.amount@[k].denom@ == params.native_denom@ {
                        gas == params.msg_send_native && descriptor@ == "msg_send_native"@
                    } else {
                        gas == params.msg_send_asset && descriptor@ == "msg_send_asset"@
                    }
                })
            }
        }),
{
    lemma_kept(handler, params, msg, encoded, replies, steps, i);
    lemma_kept(handler, params, msg, encoded, replies, steps, i + 1);
    lemma_coins_are_the_messages(msg, steps[i + 1]);
}

/// Gas is only asked for the coin whose turn it is. Once it is paid, a coin of the native currency
/// is moved, and for any other the recipient's nonce is looked up; if it cannot be paid, the send
/// is over.
pub proof fn law_gas_is_paid_first<T, A>(
    handler: MsgSendHandler<T>,
    params: SendParams,
    msg: MsgSend,
    encoded: Any,
    replies: Seq<Reply<A>>,
    steps: Seq<Step<A>>,
    i: int,
)
    requires
        carried_out(handler, params, msg, encoded, replies, steps),
        0 <= i < replies.len(),
        steps[i]->Ask_0 is ConsumeGas,
    ensures
        replies[i] is Gas,
        replies[i] matches Reply::Gas(Err(_)) ==> steps[i + 1] == Step::<A>::Done(
            Err(RootError::OutOfGas),
        ),
        replies[i] matches Reply::Gas(Ok(_)) ==> {
            let k = transfers_before(steps, i);
            &&& 0 <= k < msg.amount@.len()
            &&& steps[i + 1] is Ask
            &&& if msg.amount@[k].denom@ == params.native_denom@ {
                steps[i + 1]->Ask_0 is TransferNative
            } else {
                steps[i + 1]->Ask_0 is ReadNonce
            }
        },
{
    lemma_kept(handler, params, msg, encoded, replies, steps, i);
    lemma_kept(handler, params, msg, encoded, replies, steps, i + 1);
}

/// A recipient that never sent a transaction gets no asset: the send is over. For any other, the
/// asset with the coin's denomination is asked for.
pub proof fn law_unknown_recipient_gets_no_asset<T, A>(
    handler: MsgSendHandler<T>,
    params: SendParams,
    msg: MsgSend,
    encoded: Any,
    replies: Seq<Reply<A>>,
    steps: Seq<Step<A>>,
    i: int,
)
    requires
        carried_out(handler, params, msg, encoded, replies, steps),
        0 <= i < replies.len(),
        steps[i]->Ask_0 is ReadNonce,
    ensures
        replies[i] matches Reply::Nonce(nonce) && if nonce == 0 {
            steps[i + 1] == Step::<A>::Done(Err(RootError::UnknownAddress))
        } else {
            let k = transfers_before(steps, i);
            0 <= k < msg.amount@.len() && (steps[i + 1] matches Step::Ask(
                Request::ResolveAsset(denom),
                _,
            ) && denom@ == msg.amount@[k].denom@)
        },
{
    lemma_kept(handler, params, msg, encoded, replies, steps, i);
    lemma_kept(handler, params, msg, encoded, replies, steps, i + 1);
}

/// The asset that was found for a denomination is the one that is moved; if there is none, the
/// send is over.
pub proof fn law_resolved_asset_is_moved<T, A>(
    handler: MsgSendHandler<T>,
    params: SendParams,
    msg: MsgSend,
    encoded: Any,
    replies: Seq<Reply<A>>,
    steps: Seq<Step<A>>,
    i: int,
)
    requires
        carried_out(handler, params, msg, encoded, replies, steps),
        0 <= i < replies.len(),
        steps[i]->Ask_0 is ResolveAsset,
    ensures
        match replies[i] {
            Reply::Asset(Ok(found)) => steps[i + 1] matches Step::Ask(
                Request::TransferAsset { asset, .. },
                _,
            ) && asset == found,
            Reply::Asset(Err(_)) => steps[i + 1] == Step::<A>::Done(Err(RootError::InvalidCoins)),
            _ => false,
        },
{
    lemma_kept(handler, params, msg, encoded, replies, steps, i);
    lemma_kept(handler, params, msg, encoded, replies, steps, i + 1);
}

/// A transfer that is refused ends the send.
pub proof fn law_refused_transfer_ends_send<T, A>(
    handler: MsgSendHandler<T>,
    params: SendParams,
    msg: MsgSend,
    encoded: Any,
    replies: Seq<Reply<A>>,
    steps: Seq<Step<A>>,
    i: int,
)
    requires
        carried_out(handler, params, msg, encoded, replies, steps),
        0 <= i < replies.len(),
        asks_for_transfer(steps[i]),
    ensures
        replies[i] is Transfer,
        replies[i] matches Reply::Transfer(Err(_)) ==> steps[i + 1] == Step::<A>::Done(
            Err(RootError::InsufficientFunds),
        ),
{
    lemma_kept(handler, params, msg, encoded, replies, steps, i);
    lemma_kept(handler, params, msg, encoded, replies, steps, i + 1);
}

/// The text that the coins were given goes, as it is, into the one event of a send, together with
/// the addresses as the message has them; and nothing else does. Before that, every coin was moved.
pub proof fn law_event_records_the_send<T, A>(
    handler: MsgSendHandler<T>,
    params: SendParams,
    msg: MsgSend,
    encoded: Any,
    replies: Seq<Reply<A>>,
    steps: Seq<Step<A>>,
    i: int,
)
    requires
        carried_out(handler, params, msg, encoded, replies, steps),
        0 <= i < replies.len(),
        steps[i]->Ask_0 is FormatCoins,
    ensures
        transfers_before(steps, i) == msg.amount@.len(),
        replies[i] matches Reply::Coins(text) && (steps[i + 1] matches Step::Ask(
            Request::EmitEvent(event),
            _,
        ) && {
            &&& event.event_type@ == "transfer"@
            &&& event.attributes@.len() == 3
            &&& event.attributes@[0].key@ == "sender"@
            &&& event.attributes@[0].value@ == msg.from_address@
            &&& event.attributes@[1].key@ == "recipient"@
            &&& event.attributes@[1].value@ == msg.to_address@
            &&& event.attributes@[2].key@ == "amount"@
            &&& event.attributes@[2].value@ == text@
        }),
{
    lemma_kept(handler, params, msg, encoded, replies, steps, i);
    lemma_kept(handler, params, msg, encoded, replies, steps, i + 1);
    lemma_event_is_recorded(msg, replies[i]->Coins_0@, steps[i + 1]);
}

/// A send goes through once its event is recorded, and not before.
pub proof fn law_send_ends_with_the_event<T, A>(
    handler: MsgSendHandler<T>,
    params: SendParams,
    msg: MsgSend,
    encoded: Any,
    replies: Seq<Reply<A>>,
    steps: Seq<Step<A>>,
    i: int,
)
    requires
        carried_out(handler, params, msg, encoded, replies, steps),
        0 <= i < replies.len(),
    ensures
        steps[i]->Ask_0 is EmitEvent ==> replies[i] is Emitted,
        steps[i]->Ask_0 is EmitEvent <==> steps[i + 1] == Step::<A>::Done(Ok(())),
{
    lemma_kept(handler, params, msg, encoded, replies, steps, i);
    lemma_kept(handler, params, msg, encoded, replies, steps, i + 1);
}

/// A pending send accepts a reply just if it is of the kind that its request asks for, and then
/// it can go on with it.
pub proof fn law_fitting_replies_are_accepted<T, A>(
    handler: MsgSendHandler<T>,
    params: SendParams,
    msg: MsgSend,
    encoded: Any,
    replies: Seq<Reply<A>>,
    steps: Seq<Step<A>>,
    reply: Reply<A>,
    accepted: bool,
)
    requires
        carried_out(handler, params, msg, encoded, replies, steps),
        steps.last() is Ask,
        call_ensures(Pending::accepts::<A>, (&steps.last()->Ask_1, &reply), accepted),
    ensures
        accepted == match steps.last()->Ask_0 {
            Request::DecodeAddress(_) => reply is Address,
            Request::ConsumeGas { .. } => reply is Gas,
            Request::TransferNative { .. } => reply is Transfer,
            Request::ReadNonce(_) => reply is Nonce,
            Request::ResolveAsset(_) => reply is Asset,
            Request::TransferAsset { .. } => reply is Transfer,
            Request::FormatCoins(_) => reply is Coins,
            Request::EmitEvent(_) => reply is Emitted,
        },
        accepted ==> call_requires(Pending::resume::<A>, (steps.last()->Ask_1, reply)),
{
    lemma_kept(handler, params, msg, encoded, replies, steps, steps.len() - 1);
}

/// The coins of a request with the same contents as a message's are the message's, one by one.
proof fn lemma_coins_are_the_messages<A>(msg: MsgSend, step: Step<A>)
    ensures
        step matches Step::Ask(Request::FormatCoins(coins), _) ==> message::coins_view(coins@)
            == msg@.amount ==> coins@.len() == msg.amount@.len() && forall|j: int|
            0 <= j < coins@.len() ==> (#[trigger] coins@[j]).denom@ == msg.amount@[j].denom@
                && coins@[j].amount@ == msg.amount@[j].amount@,
{
    if let Step::Ask(Request::FormatCoins(coins), _) = step {
        if message::coins_view(coins@) == msg@.amount {
            assert(message::coins_view(coins@).len() == msg@.amount.len());
            assert forall|j: int| 0 <= j < coins@.len() implies (#[trigger] coins@[j]).denom@
                == msg.amount@[j].denom@ && coins@[j].amount@ == msg.amount@[j].amount@ by {
                assert(message::coins_view(coins@)[j] == msg@.amount[j]);
            }
        }
    }
}

/// An event with the contents of the record of a send has its attributes, one by one.
proof fn lemma_event_is_recorded<A>(msg: MsgSend, text: Seq<char>, step: Step<A>)
    ensures
        step matches Step::Ask(Request::EmitEvent(event), _) ==> event@ == send::transfer_event(
            msg@,
            text,
        ) ==> {
            &&& event.attributes@.len() == 3
            &&& event.attributes@[0]@ == send::transfer_event(msg@, text).attributes[0]
            &&& event.attributes@[1]@ == send::transfer_event(msg@, text).attributes[1]
            &&& event.attributes@[2]@ == send::transfer_event(msg@, text).attributes[2]
        },
{
    if let Step::Ask(Request::EmitEvent(event), _) = step {
        if event@ == send::transfer_event(msg@, text) {
            assert(event@.attributes.len() == 3);
            assert(event@.attributes[0] == event.attributes@[0]@);
            assert(event@.attributes[1] == event.attributes@[1]@);
            assert(event@.attributes[2] == event.attributes@[2]@);
        }
    }
}

} // verus!
