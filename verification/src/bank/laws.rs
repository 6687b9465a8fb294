//! What holds of every send, from its first request to its end.
use super::amount;
use super::message::{CoinView, MsgSendView};
use super::send;
use super::send::{
    PendingView, ReplyView, RequestView, RootError, SendParamsView, StageView, StepView, TurnView,
};
use vstd::prelude::*;

verus! {

/// Whether each reply is of the kind that the send waits for when the reply comes.
pub open spec fn fitting<A>(step: StepView<A>, replies: Seq<ReplyView<A>>) -> bool
    decreases replies.len(),
{
    if replies.len() == 0 {
        true
    } else {
        match step {
            StepView::Done(_) => false,
            StepView::Ask(_, pending) => send::answers(pending.stage, replies[0]) && fitting(
                send::next_step(pending, replies[0]),
                replies.drop_first(),
            ),
        }
    }
}

/// Where a send stands after the given replies.
pub open spec fn run<A>(step: StepView<A>, replies: Seq<ReplyView<A>>) -> StepView<A>
    decreases replies.len(),
{
    match step {
        StepView::Ask(_, pending) if replies.len() > 0 => run(
            send::next_step(pending, replies[0]),
            replies.drop_first(),
        ),
        _ => step,
    }
}

/// What a send asks for, when it gets the given replies; the `i`th reply answers the `i`th
/// request.
pub open spec fn requests<A>(step: StepView<A>, replies: Seq<ReplyView<A>>) -> Seq<RequestView<A>>
    decreases replies.len(),
{
    match step {
        StepView::Done(_) => seq![],
        StepView::Ask(request, pending) => if replies.len() == 0 {
            seq![request]
        } else {
            seq![request] + requests(send::next_step(pending, replies[0]), replies.drop_first())
        },
    }
}

/// What the replies to a whole send settle: the two accounts, the asset of each coin (any, for
/// coins of the native currency), and the text of the coins.
#[verifier::reject_recursive_types(A)]
pub struct Course<A> {
    pub from: Seq<u8>,
    pub to: Seq<u8>,
    pub assets: Seq<A>,
    pub text: Seq<char>,
}

/// All requests for one coin.
pub open spec fn coin_script<A>(
    params: SendParamsView,
    coin: CoinView,
    turn: TurnView,
    asset: A,
) -> Seq<RequestView<A>> {
    match amount::denoted_amount(coin.amount) {
        None => seq![],
        Some(amount) => if coin.denom == params.native_denom {
            seq![send::native_gas(params), send::native_transfer(params, turn, amount)]
        } else {
            seq![
                send::asset_gas(params),
                RequestView::ReadNonce(turn.to),
                RequestView::ResolveAsset(coin.denom),
                send::asset_transfer(params, asset, turn, amount),
            ]
        },
    }
}

/// All requests for the coins from the given one on, in the order of the message.
pub open spec fn coins_script<A>(
    params: SendParamsView,
    msg: MsgSendView,
    course: Course<A>,
    index: int,
) -> Seq<RequestView<A>>
    decreases msg.amount.len() - index,
{
    if index < 0 || index >= msg.amount.len() {
        seq![]
    } else {
        coin_script(
            params,
            msg.amount[index],
            TurnView { from: course.from, to: course.to, index },
            course.assets[index],
        ) + coins_script(params, msg, course, index + 1)
    }
}

/// The last requests of a send.
pub open spec fn closing_script<A>(msg: MsgSendView, text: Seq<char>) -> Seq<RequestView<A>> {
    seq![
        RequestView::FormatCoins(msg.amount),
        RequestView::EmitEvent(send::transfer_event(msg, text)),
    ]
}

/// All requests of a send that goes through: both addresses, each coin in turn, the event.
pub open spec fn script<A>(
    params: SendParamsView,
    msg: MsgSendView,
    course: Course<A>,
) -> Seq<RequestView<A>> {
    seq![
        RequestView::DecodeAddress(msg.from_address),
        RequestView::DecodeAddress(msg.to_address),
    ] + coins_script(params, msg, course, 0) + closing_script(msg, course.text)
}

/// How what was asked relates to all that there is to ask: it is the beginning of it, and the
/// whole of it if the send went through, but not if the send was refused.
pub open spec fn follows<A>(
    asked: Seq<RequestView<A>>,
    end: StepView<A>,
    script: Seq<RequestView<A>>,
) -> bool {
    &&& asked.len() <= script.len()
    &&& forall|i: int| 0 <= i < asked.len() ==> #[trigger] asked[i] == script[i]
    &&& end == StepView::<A>::Done(Ok(())) ==> asked.len() == script.len()
    &&& end matches StepView::Done(Err(_)) ==> asked.len() < script.len()
}

/// A step whose successor follows a script follows the script with its own request before it.
proof fn lemma_follows_after<A>(
    step: StepView<A>,
    replies: Seq<ReplyView<A>>,
    script: Seq<RequestView<A>>,
)
    requires
        step is Ask,
        replies.len() > 0,
        follows(
            requests(send::next_step(step->Ask_1, replies[0]), replies.drop_first()),
            run(send::next_step(step->Ask_1, replies[0]), replies.drop_first()),
            script,
        ),
    ensures
        follows(requests(step, replies), run(step, replies), seq![step->Ask_0] + script),
        run(step, replies) == run(
            send::next_step(step->Ask_1, replies[0]),
            replies.drop_first(),
        ),
{
    let asked = requests(send::next_step(step->Ask_1, replies[0]), replies.drop_first());
    assert forall|i: int| 0 <= i < requests(step, replies).len() implies #[trigger] requests(
        step,
        replies,
    )[i] == (seq![step->Ask_0] + script)[i] by {
        if i > 0 {
            assert(asked[i - 1] == script[i - 1]);
        }
    }
}

/// A step that gets no reply, or one that ends the send with an error, follows any script
/// that goes on after its request.
proof fn lemma_follows_at_end<A>(
    step: StepView<A>,
    replies: Seq<ReplyView<A>>,
    script: Seq<RequestView<A>>,
)
    requires
        step is Ask,
        fitting(step, replies),
        replies.len() > 0 ==> send::next_step(step->Ask_1, replies[0]) matches StepView::Done(
            Err(_),
        ),
        script.len() > 1,
        script[0] == step->Ask_0,
    ensures
        follows(requests(step, replies), run(step, replies), script),
        run(step, replies) != StepView::<A>::Done(Ok(())),
{
    reveal_with_fuel(run, 2);
    reveal_with_fuel(requests, 2);
}

/// Whether the amount of each coin from the given one on is a number.
pub open spec fn amounts_denote(msg: MsgSendView, index: int) -> bool {
    forall|j: int|
        index <= j < msg.amount.len() ==> amount::denoted_amount(#[trigger] msg.amount[j].amount)
            is Some
}

/// The requests for the coins from one on do not depend on the assets of the coins before.
proof fn lemma_coins_script_is_local<A>(
    params: SendParamsView,
    msg: MsgSendView,
    a: Course<A>,
    b: Course<A>,
    index: int,
)
    requires
        0 <= index,
        a.from == b.from,
        a.to == b.to,
        forall|j: int| index <= j < msg.amount.len() ==> #[trigger] a.assets[j] == b.assets[j],
    ensures
        coins_script(params, msg, a, index) == coins_script(params, msg, b, index),
    decreases msg.amount.len() - index,
{
    if index < msg.amount.len() {
        lemma_coins_script_is_local(params, msg, a, b, index + 1);
    }
}

/// A send that has come to the closing requests.
proof fn lemma_closing_follows<A>(
    params: SendParamsView,
    msg: MsgSendView,
    replies: Seq<ReplyView<A>>,
) -> (text: Seq<char>)
    requires
        fitting(
            StepView::Ask(
                RequestView::FormatCoins(msg.amount),
                PendingView { params, msg, stage: StageView::CoinText },
            ),
            replies,
        ),
    ensures
        ({
            let step = StepView::Ask(
                RequestView::<A>::FormatCoins(msg.amount),
                PendingView { params, msg, stage: StageView::CoinText },
            );
            follows(requests(step, replies), run(step, replies), closing_script(msg, text))
        }),
{
    reveal_with_fuel(run, 3);
    reveal_with_fuel(requests, 3);
    reveal_with_fuel(fitting, 3);
    if replies.len() > 0 {
        replies[0]->Coins_0
    } else {
        seq![]
    }
}

/// From the turn of a coin on, a send asks for that coin, the coins after it and the event.
proof fn lemma_turn_follows<A>(
    params: SendParamsView,
    msg: MsgSendView,
    turn: TurnView,
    replies: Seq<ReplyView<A>>,
) -> (course: Course<A>)
    requires
        0 <= turn.index <= msg.amount.len(),
        fitting(send::turn_step(params, msg, turn), replies),
    ensures
        course.from == turn.from,
        course.to == turn.to,
        course.assets.len() == msg.amount.len(),
        ({
            let step = send::turn_step(params, msg, turn);
            follows(
                requests(step, replies),
                run(step, replies),
                coins_script(params, msg, course, turn.index) + closing_script(msg, course.text),
            )
        }),
        run(send::turn_step(params, msg, turn), replies) == StepView::<A>::Done(Ok(()))
            ==> amounts_denote(msg, turn.index),
    decreases replies.len(), 1int,
{
    let step = send::turn_step::<A>(params, msg, turn);
    let any_course = Course::<A> {
        from: turn.from,
        to: turn.to,
        assets: Seq::new(msg.amount.len(), |i: int| arbitrary()),
        text: seq![],
    };
    if turn.index == msg.amount.len() {
        let text = lemma_closing_follows(params, msg, replies);
        let course = Course { text, ..any_course };
        assert(coins_script(params, msg, course, turn.index) + closing_script(msg, text)
            =~= closing_script(msg, text));
        course
    } else {
        let coin = msg.amount[turn.index];
        match amount::denoted_amount(coin.amount) {
            None => any_course,
            Some(amount) => if coin.denom == params.native_denom {
                let transfer = StepView::<A>::Ask(
                    send::native_transfer(params, turn, amount),
                    PendingView { params, msg, stage: StageView::Transfer { turn } },
                );
                let course = if replies.len() > 0 && replies[0]->Gas_0 is Ok {
                    lemma_transfer_follows(transfer, replies.drop_first())
                } else {
                    any_course
                };
                let todo = seq![transfer->Ask_0] + coins_script(
                    params,
                    msg,
                    course,
                    turn.index + 1,
                ) + closing_script(msg, course.text);
                let whole = coins_script(params, msg, course, turn.index) + closing_script(
                    msg,
                    course.text,
                );
                assert(whole =~= seq![step->Ask_0] + todo);
                if replies.len() > 0 && replies[0]->Gas_0 is Ok {
                    lemma_follows_after(step, replies, todo);
                } else {
                    lemma_follows_at_end(step, replies, whole);
                }
                course
            } else {
                lemma_asset_follows(params, msg, turn, amount, replies)
            },
        }
    }
}

/// From the turn of a coin that is not of the native currency on, a send asks for that coin,
/// the coins after it and the event.
proof fn lemma_asset_follows<A>(
    params: SendParamsView,
    msg: MsgSendView,
    turn: TurnView,
    amount: u128,
    replies: Seq<ReplyView<A>>,
) -> (course: Course<A>)
    requires
        0 <= turn.index < msg.amount.len(),
        amount::denoted_amount(msg.amount[turn.index].amount) == Some(amount),
        msg.amount[turn.index].denom != params.native_denom,
        fitting(send::turn_step(params, msg, turn), replies),
    ensures
        course.from == turn.from,
        course.to == turn.to,
        course.assets.len() == msg.amount.len(),
        ({
            let step = send::turn_step(params, msg, turn);
            follows(
                requests(step, replies),
                run(step, replies),
                coins_script(params, msg, course, turn.index) + closing_script(msg, course.text),
            )
        }),
        run(send::turn_step(params, msg, turn), replies) == StepView::<A>::Done(Ok(()))
            ==> amounts_denote(msg, turn.index),
    decreases replies.len(), 0int,
{
    let gas = send::turn_step::<A>(params, msg, turn);
    let nonce = StepView::<A>::Ask(
        RequestView::ReadNonce(turn.to),
        PendingView { params, msg, stage: StageView::RecipientNonce { turn, amount } },
    );
    let resolve = StepView::<A>::Ask(
        RequestView::ResolveAsset(msg.amount[turn.index].denom),
        PendingView { params, msg, stage: StageView::AssetId { turn, amount } },
    );
    let after_gas = replies.drop_first();
    let after_nonce = after_gas.drop_first();
    let after_resolve = after_nonce.drop_first();
    let paid = replies.len() > 0 && replies[0]->Gas_0 is Ok;
    let known = paid && after_gas.len() > 0 && after_gas[0]->Nonce_0 != 0;
    let resolved = known && after_nonce.len() > 0 && after_nonce[0]->Asset_0 is Ok;
    let asset: A = if resolved {
        after_nonce[0]->Asset_0->Ok_0
    } else {
        arbitrary()
    };
    let transfer = StepView::<A>::Ask(
        send::asset_transfer(params, asset, turn, amount),
        PendingView { params, msg, stage: StageView::Transfer { turn } },
    );
    if paid {
        assert(send::next_step(gas->Ask_1, replies[0]) == nonce);
        assert(fitting(nonce, after_gas));
    }
    if known {
        assert(send::next_step(nonce->Ask_1, after_gas[0]) == resolve);
        assert(fitting(resolve, after_nonce));
    }
    if resolved {
        assert(send::next_step(resolve->Ask_1, after_nonce[0]) == transfer);
        assert(fitting(transfer, after_resolve));
    }
    let later = if resolved {
        lemma_transfer_follows(transfer, after_resolve)
    } else {
        Course::<A> {
            from: turn.from,
            to: turn.to,
            assets: Seq::new(msg.amount.len(), |i: int| arbitrary()),
            text: seq![],
        }
    };
    let course = Course { assets: later.assets.update(turn.index, asset), ..later };
    lemma_coins_script_is_local(params, msg, later, course, turn.index + 1);
    let from_transfer = seq![transfer->Ask_0] + coins_script(params, msg, course, turn.index + 1)
        + closing_script(msg, course.text);
    let from_resolve = seq![resolve->Ask_0] + from_transfer;
    let from_nonce = seq![nonce->Ask_0] + from_resolve;
    let whole = coins_script(params, msg, course, turn.index) + closing_script(msg, course.text);
    assert(whole =~= seq![gas->Ask_0] + from_nonce);
    if resolved {
        lemma_follows_after(resolve, after_nonce, from_transfer);
    } else if known {
        lemma_follows_at_end(resolve, after_nonce, from_resolve);
    }
    if known {
        lemma_follows_after(nonce, after_gas, from_resolve);
    } else if paid {
        lemma_follows_at_end(nonce, after_gas, from_nonce);
    }
    if paid {
        lemma_follows_after(gas, replies, from_nonce);
    } else {
        lemma_follows_at_end(gas, replies, whole);
    }
    course
}

/// From the transfer of a coin on, a send asks for that transfer, the coins after it and the
/// event.
proof fn lemma_transfer_follows<A>(
    transfer: StepView<A>,
    replies: Seq<ReplyView<A>>,
) -> (course: Course<A>)
    requires
        transfer is Ask,
        transfer->Ask_1.stage is Transfer,
        0 <= transfer->Ask_1.stage->Transfer_turn.index < transfer->Ask_1.msg.amount.len(),
        fitting(transfer, replies),
    ensures
        ({
            let PendingView { params, msg, stage } = transfer->Ask_1;
            let turn = stage->Transfer_turn;
            &&& course.from == turn.from
            &&& course.to == turn.to
            &&& course.assets.len() == msg.amount.len()
            &&& follows(
                requests(transfer, replies),
                run(transfer, replies),
                seq![transfer->Ask_0] + coins_script(params, msg, course, turn.index + 1)
                    + closing_script(msg, course.text),
            )
        }),
        run(transfer, replies) == StepView::<A>::Done(Ok(())) ==> amounts_denote(
            transfer->Ask_1.msg,
            transfer->Ask_1.stage->Transfer_turn.index + 1,
        ),
    decreases replies.len(), 0int,
{
    let PendingView { params, msg, stage } = transfer->Ask_1;
    let turn = stage->Transfer_turn;
    if replies.len() > 0 && replies[0]->Transfer_0 is Ok {
        let next_turn = TurnView { index: turn.index + 1, ..turn };
        let course = lemma_turn_follows(params, msg, next_turn, replies.drop_first());
        let todo = coins_script(params, msg, course, turn.index + 1) + closing_script(
            msg,
            course.text,
        );
        lemma_follows_after(transfer, replies, todo);
        assert(seq![transfer->Ask_0] + todo =~= seq![transfer->Ask_0] + coins_script(
            params,
            msg,
            course,
            turn.index + 1,
        ) + closing_script(msg, course.text));
        course
    } else {
        let course = Course::<A> {
            from: turn.from,
            to: turn.to,
            assets: Seq::new(msg.amount.len(), |i: int| arbitrary()),
            text: seq![],
        };
        let whole = seq![transfer->Ask_0] + coins_script(params, msg, course, turn.index + 1)
            + closing_script(msg, course.text);
        lemma_follows_at_end(transfer, replies, whole);
        course
    }
}

/// A send never strays from its script: what it asks is the beginning of all that a send of
/// that message asks, in that order; it is all of it when the send goes through, and never all
/// of it when the send is refused. The accounts in it are those that the addresses decode to,
/// and a send only goes through when all its amounts are numbers.
pub proof fn law_send_follows_script<A>(
    params: SendParamsView,
    msg: MsgSendView,
    replies: Seq<ReplyView<A>>,
) -> (course: Course<A>)
    requires
        fitting(send::first_step(params, msg), replies),
    ensures
        course.assets.len() == msg.amount.len(),
        ({
            let asked = requests(send::first_step(params, msg), replies);
            let end = run(send::first_step(params, msg), replies);
            &&& follows(asked, end, script(params, msg, course))
            &&& asked.len() > 1 ==> course.from.len() == 20 && replies[0]
                == ReplyView::<A>::Address(Ok(course.from))
            &&& asked.len() > 2 ==> course.to.len() == 20 && replies[1] == ReplyView::<A>::Address(
                Ok(course.to),
            )
            &&& end == StepView::<A>::Done(Ok(())) ==> amounts_denote(msg, 0)
        }),
{
    let sender = send::first_step::<A>(params, msg);
    let after_sender = replies.drop_first();
    let after_recipient = after_sender.drop_first();
    let from = send::account_address(replies[0]->Address_0);
    let to = send::account_address(after_sender[0]->Address_0);
    let sender_known = replies.len() > 0 && from is Some;
    let recipient_known = sender_known && after_sender.len() > 0 && to is Some;
    let recipient = StepView::<A>::Ask(
        RequestView::DecodeAddress(msg.to_address),
        PendingView { params, msg, stage: StageView::Recipient { from: from->0 } },
    );
    let turn = TurnView { from: from->0, to: to->0, index: 0 };
    if sender_known {
        assert(send::next_step(sender->Ask_1, replies[0]) == recipient);
        assert(fitting(recipient, after_sender));
    }
    if recipient_known {
        assert(send::next_step(recipient->Ask_1, after_sender[0]) == send::turn_step::<A>(
            params,
            msg,
            turn,
        ));
    }
    let course = if recipient_known {
        lemma_turn_follows(params, msg, turn, after_recipient)
    } else {
        Course::<A> {
            from: from->0,
            to: to->0,
            assets: Seq::new(msg.amount.len(), |i: int| arbitrary()),
            text: seq![],
        }
    };
    let from_turn = coins_script(params, msg, course, 0) + closing_script(msg, course.text);
    let from_recipient = seq![recipient->Ask_0] + from_turn;
    let whole = script(params, msg, course);
    assert(whole =~= seq![sender->Ask_0] + from_recipient);
    if recipient_known {
        lemma_follows_after(recipient, after_sender, from_turn);
    } else if sender_known {
        lemma_follows_at_end(recipient, after_sender, from_recipient);
    }
    if sender_known {
        lemma_follows_after(sender, replies, from_recipient);
    } else {
        lemma_follows_at_end(sender, replies, whole);
    }
    assert(!sender_known ==> requests(sender, replies).len() == 1) by {
        reveal_with_fuel(requests, 2);
    }
    assert(sender_known && !recipient_known ==> requests(recipient, after_sender).len() == 1) by {
        reveal_with_fuel(requests, 2);
    }
    course
}

/// Each reply settles one request, so a pending send has asked once more than it was answered.
proof fn lemma_requests_len<A>(step: StepView<A>, replies: Seq<ReplyView<A>>)
    requires
        fitting(step, replies),
    ensures
        requests(step, replies).len() == replies.len() + (if run(step, replies) is Ask {
            1nat
        } else {
            0nat
        }),
    decreases replies.len(),
{
    if replies.len() > 0 {
        lemma_requests_len(
            send::next_step(step->Ask_1, replies[0]),
            replies.drop_first(),
        );
    }
}

/// Whether a reply lets a send go on.
pub open spec fn favourable<A>(reply: ReplyView<A>) -> bool {
    match reply {
        ReplyView::Address(Ok(bytes)) => bytes.len() == 20,
        ReplyView::Address(Err(_)) => false,
        ReplyView::Gas(outcome) => outcome is Ok,
        ReplyView::Transfer(outcome) => outcome is Ok,
        ReplyView::Nonce(nonce) => nonce != 0,
        ReplyView::Asset(asset) => asset is Ok,
        ReplyView::Coins(_) => true,
        ReplyView::Emitted => true,
    }
}

/// The first reply that is not favourable ends the send: nothing is asked after it.
pub proof fn law_refusal_ends_send<A>(step: StepView<A>, replies: Seq<ReplyView<A>>)
    requires
        fitting(step, replies),
    ensures
        forall|i: int|
            0 <= i < requests(step, replies).len() - 1 ==> favourable(#[trigger] replies[i]),
    decreases replies.len(),
{
    lemma_requests_len(step, replies);
    if replies.len() > 0 {
        let next = send::next_step(step->Ask_1, replies[0]);
        let rest = replies.drop_first();
        law_refusal_ends_send(next, rest);
        lemma_requests_len(next, rest);
        assert forall|i: int| 0 <= i < requests(step, replies).len() - 1 implies favourable(
            #[trigger] replies[i],
        ) by {
            if i == 0 {
                assert(requests(next, rest).len() > 0);
                assert(next is Ask);
            } else {
                assert(favourable(rest[i - 1]));
            }
        }
    }
}

/// Why a send is over after a reply that does not let it go on.
pub open spec fn reason<A>(reply: ReplyView<A>) -> RootError {
    match reply {
        ReplyView::Address(_) => RootError::InvalidAddress,
        ReplyView::Gas(_) => RootError::OutOfGas,
        ReplyView::Transfer(_) => RootError::InsufficientFunds,
        ReplyView::Nonce(_) => RootError::UnknownAddress,
        _ => RootError::InvalidCoins,
    }
}

/// What the outcome of a send says of the replies it got.
pub open spec fn accounted_for<A>(
    msg: MsgSendView,
    replies: Seq<ReplyView<A>>,
    outcome: Result<(), RootError>,
) -> bool {
    match outcome {
        Ok(_) => {
            &&& amounts_denote(msg, 0)
            &&& forall|i: int| 0 <= i < replies.len() ==> favourable(#[trigger] replies[i])
        },
        Err(e) => {
            &&& replies.len() > 0
            &&& forall|i: int| 0 <= i < replies.len() - 1 ==> favourable(#[trigger] replies[i])
            &&& if favourable(replies.last()) {
                e == RootError::InvalidCoins && !amounts_denote(msg, 0)
            } else {
                e == reason(replies.last())
            }
        },
    }
}

/// A send that is over went through just if all its amounts are numbers and every reply was
/// favourable. Otherwise only the last reply was not, and the error is the one for it; or all
/// were, and some amount is no number. So no send is refused without a reason.
pub proof fn law_outcome_has_its_reason<A>(
    params: SendParamsView,
    msg: MsgSendView,
    replies: Seq<ReplyView<A>>,
)
    requires
        fitting(send::first_step(params, msg), replies),
        run(send::first_step(params, msg), replies) is Done,
    ensures
        accounted_for(msg, replies, run(send::first_step(params, msg), replies)->Done_0),
{
    let first = send::first_step::<A>(params, msg);
    law_send_follows_script(params, msg, replies);
    lemma_error_has_its_reason(first, msg, replies);
    lemma_requests_len(first, replies);
    law_refusal_ends_send(first, replies);
    if let Ok(unit) = run(first, replies)->Done_0 {
        assert(unit == ());
        assert(run(first, replies) == StepView::<A>::Done(Ok(())));
        assert forall|i: int| 0 <= i < replies.len() implies favourable(#[trigger] replies[i]) by {
            if i == replies.len() - 1 {
                assert(replies[i] == replies.last());
            }
        }
    }
}

proof fn lemma_error_has_its_reason<A>(
    step: StepView<A>,
    msg: MsgSendView,
    replies: Seq<ReplyView<A>>,
)
    requires
        fitting(step, replies),
        step is Ask,
        step->Ask_1.msg == msg,
        send::stage_turn(step->Ask_1.stage) matches Some(turn) ==> turn.index >= 0,
        run(step, replies) is Done,
    ensures
        replies.len() > 0,
        match run(step, replies)->Done_0 {
            Ok(_) => favourable(replies.last()),
            Err(e) => if favourable(replies.last()) {
                e == RootError::InvalidCoins && !amounts_denote(msg, 0)
            } else {
                e == reason(replies.last())
            },
        },
    decreases replies.len(),
{
    if replies.len() > 0 {
        let next = send::next_step(step->Ask_1, replies[0]);
        let rest = replies.drop_first();
        if next is Ask {
            lemma_error_has_its_reason(next, msg, rest);
        } else {
            assert(fitting(next, rest));
            assert(rest.len() == 0);
        }
    }
}

/// The event that a send records has the addresses of the message, and the very text that the
/// coins were given right before.
pub proof fn law_event_holds_coin_text<A>(
    params: SendParamsView,
    msg: MsgSendView,
    replies: Seq<ReplyView<A>>,
)
    requires
        fitting(send::first_step(params, msg), replies),
    ensures
        forall|i: int|
            #![trigger requests(send::first_step(params, msg), replies)[i]]
            0 <= i < requests(send::first_step(params, msg), replies).len() ==> (requests(
                send::first_step(params, msg),
                replies,
            )[i] matches RequestView::EmitEvent(event) ==> {
                &&& i > 0
                &&& replies[i - 1] is Coins
                &&& event.event_type == "transfer"@
                &&& event.attributes.len() == 3
                &&& event.attributes[0].key == "sender"@
                &&& event.attributes[0].value == msg.from_address
                &&& event.attributes[1].key == "recipient"@
                &&& event.attributes[1].value == msg.to_address
                &&& event.attributes[2].key == "amount"@
                &&& event.attributes[2].value == replies[i - 1]->Coins_0
            }),
{
    lemma_event_holds_coin_text(send::first_step(params, msg), msg, replies);
}

proof fn lemma_event_holds_coin_text<A>(
    step: StepView<A>,
    msg: MsgSendView,
    replies: Seq<ReplyView<A>>,
)
    requires
        fitting(step, replies),
        step matches StepView::Ask(_, pending) ==> pending.msg == msg,
    ensures
        forall|i: int|
            #![trigger requests(step, replies)[i]]
            0 < i < requests(step, replies).len() ==> (requests(
                step,
                replies,
            )[i] matches RequestView::EmitEvent(event) ==> replies[i - 1] is Coins && event
                == send::transfer_event(msg, replies[i - 1]->Coins_0)),
    decreases replies.len(),
{
    if replies.len() > 0 {
        let next = send::next_step(step->Ask_1, replies[0]);
        let rest = replies.drop_first();
        lemma_event_holds_coin_text(next, msg, rest);
        lemma_requests_len(step, replies);
        assert forall|i: int|
            #![trigger requests(step, replies)[i]]
            0 < i < requests(step, replies).len() implies (requests(
            step,
            replies,
        )[i] matches RequestView::EmitEvent(event) ==> replies[i - 1] is Coins && event
            == send::transfer_event(msg, replies[i - 1]->Coins_0)) by {
            assert(requests(step, replies)[i] == requests(next, rest)[i - 1]);
            if i > 1 {
                assert(rest[i - 2] == replies[i - 1]);
            } else {
                assert(requests(next, rest)[0] == next->Ask_0);
            }
        }
    }
}

/// An asset is only transferred as the very asset that was found for its denomination.
pub proof fn law_transferred_asset_was_resolved<A>(
    params: SendParamsView,
    msg: MsgSendView,
    replies: Seq<ReplyView<A>>,
)
    requires
        fitting(send::first_step(params, msg), replies),
    ensures
        forall|i: int|
            #![trigger requests(send::first_step(params, msg), replies)[i]]
            0 <= i < requests(send::first_step(params, msg), replies).len() ==> (requests(
                send::first_step(params, msg),
                replies,
            )[i] matches RequestView::TransferAsset { asset, .. } ==> i > 0 && replies[i - 1]
                == ReplyView::<A>::Asset(Ok(asset))),
{
    lemma_transferred_asset_was_resolved(send::first_step(params, msg), replies);
}

proof fn lemma_transferred_asset_was_resolved<A>(step: StepView<A>, replies: Seq<ReplyView<A>>)
    requires
        fitting(step, replies),
    ensures
        forall|i: int|
            #![trigger requests(step, replies)[i]]
            0 < i < requests(step, replies).len() ==> (requests(
                step,
                replies,
            )[i] matches RequestView::TransferAsset { asset, .. } ==> replies[i - 1]
                == ReplyView::<A>::Asset(Ok(asset))),
    decreases replies.len(),
{
    if replies.len() > 0 {
        let next = send::next_step(step->Ask_1, replies[0]);
        let rest = replies.drop_first();
        lemma_transferred_asset_was_resolved(next, rest);
        lemma_requests_len(step, replies);
        assert forall|i: int|
            #![trigger requests(step, replies)[i]]
            0 < i < requests(step, replies).len() implies (requests(
            step,
            replies,
        )[i] matches RequestView::TransferAsset { asset, .. } ==> replies[i - 1]
            == ReplyView::<A>::Asset(Ok(asset))) by {
            assert(requests(step, replies)[i] == requests(next, rest)[i - 1]);
            if i > 1 {
                assert(rest[i - 2] == replies[i - 1]);
            } else {
                assert(next is Ask);
                assert(requests(next, rest)[0] == next->Ask_0);
            }
        }
    }
}

/// The place of a request among those for the coins: a transfer comes right after what it
/// depends on, moves between the two accounts only, and never at the price of the sender's
/// account; the closing requests have no place here.
pub open spec fn in_place<A>(
    params: SendParamsView,
    from: Seq<u8>,
    to: Seq<u8>,
    asked: Seq<RequestView<A>>,
    i: int,
) -> bool {
    match asked[i] {
        RequestView::TransferNative { from: source, to: target, requirement, .. } => {
            &&& i >= 1
            &&& asked[i - 1] == RequestView::<A>::ConsumeGas {
                gas: params.msg_send_native,
                descriptor: "msg_send_native"@,
            }
            &&& source == from
            &&& target == to
            &&& requirement == send::ExistenceRequirement::KeepAlive
        },
        RequestView::TransferAsset { from: source, to: target, preservation, .. } => {
            &&& i >= 3
            &&& asked[i - 3] == RequestView::<A>::ConsumeGas {
                gas: params.msg_send_asset,
                descriptor: "msg_send_asset"@,
            }
            &&& asked[i - 2] == RequestView::<A>::ReadNonce(to)
            &&& asked[i - 1] is ResolveAsset
            &&& source == from
            &&& target == to
            &&& preservation == send::Preservation::Preserve
        },
        RequestView::EmitEvent(_) => false,
        _ => true,
    }
}

proof fn lemma_coins_script_in_place<A>(
    params: SendParamsView,
    msg: MsgSendView,
    course: Course<A>,
    index: int,
)
    requires
        0 <= index,
    ensures
        forall|i: int|
            0 <= i < coins_script(params, msg, course, index).len() ==> #[trigger] in_place(
                params,
                course.from,
                course.to,
                coins_script(params, msg, course, index),
                i,
            ),
        coins_script(params, msg, course, index).len() <= (if index <= msg.amount.len() {
            4 * (msg.amount.len() - index)
        } else {
            0
        }),
    decreases msg.amount.len() - index,
{
    if index < msg.amount.len() {
        lemma_coins_script_in_place(params, msg, course, index + 1);
        let turn = TurnView { from: course.from, to: course.to, index };
        let head = coin_script(params, msg.amount[index], turn, course.assets[index]);
        let tail = coins_script(params, msg, course, index + 1);
        assert forall|i: int| 0 <= i < (head + tail).len() implies #[trigger] in_place(
            params,
            course.from,
            course.to,
            head + tail,
            i,
        ) by {
            if i >= head.len() {
                assert(in_place(params, course.from, course.to, tail, i - head.len()));
            }
        }
    }
}

/// A transfer is only asked for once its gas is paid and, for an asset, the recipient's nonce
/// and the asset were looked up; and it only moves between the two accounts that the addresses
/// decode to, and leaves the sender's account in being.
pub proof fn law_transfers_in_place<A>(
    params: SendParamsView,
    msg: MsgSendView,
    replies: Seq<ReplyView<A>>,
)
    requires
        fitting(send::first_step(params, msg), replies),
    ensures
        ({
            let asked = requests(send::first_step::<A>(params, msg), replies);
            let from = replies[0]->Address_0->Ok_0;
            let to = replies[1]->Address_0->Ok_0;
            forall|i: int|
                0 <= i < asked.len() && !(asked[i] is EmitEvent) ==> #[trigger] in_place(
                    params,
                    from,
                    to,
                    asked,
                    i,
                )
        }),
{
    let asked = requests(send::first_step::<A>(params, msg), replies);
    let from = replies[0]->Address_0->Ok_0;
    let to = replies[1]->Address_0->Ok_0;
    let course = law_send_follows_script(params, msg, replies);
    let whole = script(params, msg, course);
    let coins = coins_script(params, msg, course, 0);
    lemma_coins_script_in_place(params, msg, course, 0);
    assert forall|i: int| 0 <= i < asked.len() && !(asked[i] is EmitEvent) implies #[trigger]
    in_place(params, from, to, asked, i) by {
        assert(asked[i] == whole[i]);
        if 2 <= i < 2 + coins.len() {
            assert(in_place(params, course.from, course.to, coins, i - 2));
            assert(whole[i] == coins[i - 2]);
            if i >= 3 {
                assert(asked[i - 1] == whole[i - 1]);
            }
            if i >= 4 {
                assert(asked[i - 2] == whole[i - 2]);
            }
            if i >= 5 {
                assert(asked[i - 3] == whole[i - 3]);
            }
        }
    }
}

/// The event is asked for last, and only after all that a send of the message has to ask; a
/// send that is refused has not asked for it, and one that goes through has.
pub proof fn law_event_comes_last<A>(
    params: SendParamsView,
    msg: MsgSendView,
    replies: Seq<ReplyView<A>>,
) -> (course: Course<A>)
    requires
        fitting(send::first_step(params, msg), replies),
    ensures
        ({
            let asked = requests(send::first_step::<A>(params, msg), replies);
            let end = run(send::first_step::<A>(params, msg), replies);
            &&& forall|i: int|
                0 <= i < asked.len() ==> (#[trigger] asked[i] is EmitEvent ==> i == asked.len() - 1
                    && asked == script(params, msg, course))
            &&& end == StepView::<A>::Done(Ok(())) ==> asked.len() > 0 && asked.last()
                == RequestView::<A>::EmitEvent(send::transfer_event(msg, course.text))
            &&& end matches StepView::Done(Err(_)) ==> forall|i: int|
                0 <= i < asked.len() ==> !(#[trigger] asked[i] is EmitEvent)
        }),
{
    let asked = requests(send::first_step::<A>(params, msg), replies);
    let course = law_send_follows_script(params, msg, replies);
    let whole = script(params, msg, course);
    let coins = coins_script(params, msg, course, 0);
    lemma_coins_script_in_place(params, msg, course, 0);
    assert forall|i: int| 0 <= i < asked.len() && #[trigger] asked[i] is EmitEvent implies i
        == whole.len() - 1 by {
        assert(asked[i] == whole[i]);
        if 2 <= i < 2 + coins.len() {
            assert(in_place(params, course.from, course.to, coins, i - 2));
        }
    }
    if asked.len() == whole.len() {
        assert(asked =~= whole);
    }
    course
}

/// A send is over after at most four replies and four more for each coin.
pub proof fn law_send_ends<A>(
    params: SendParamsView,
    msg: MsgSendView,
    replies: Seq<ReplyView<A>>,
)
    requires
        fitting(send::first_step(params, msg), replies),
    ensures
        requests(send::first_step::<A>(params, msg), replies).len() <= 4 + 4 * msg.amount.len(),
        replies.len() >= 4 + 4 * msg.amount.len() ==> run(send::first_step(params, msg), replies)
            is Done,
{
    let course = law_send_follows_script(params, msg, replies);
    lemma_coins_script_in_place(params, msg, course, 0);
    lemma_requests_len(send::first_step(params, msg), replies);
}

/// The one transfer that moves a coin: in the amount written, or else in the largest that the
/// balances of its kind can hold.
pub open spec fn coin_transfer<A>(
    params: SendParamsView,
    coin: CoinView,
    turn: TurnView,
    asset: A,
) -> RequestView<A> {
    let written = amount::denoted_amount(coin.amount)->0;
    if coin.denom == params.native_denom {
        RequestView::TransferNative {
            from: turn.from,
            to: turn.to,
            amount: if written <= params.max_native_balance {
                written
            } else {
                params.max_native_balance
            },
            requirement: send::ExistenceRequirement::KeepAlive,
        }
    } else {
        RequestView::TransferAsset {
            asset,
            from: turn.from,
            to: turn.to,
            amount: if written <= params.max_asset_balance {
                written
            } else {
                params.max_asset_balance
            },
            preservation: send::Preservation::Preserve,
        }
    }
}

pub open spec fn is_transfer<A>(request: RequestView<A>) -> bool {
    request is TransferNative || request is TransferAsset
}

/// The transfers among requests, in order.
pub open spec fn transfers<A>(asked: Seq<RequestView<A>>) -> Seq<RequestView<A>> {
    asked.filter(|request: RequestView<A>| is_transfer(request))
}

proof fn lemma_no_transfers<A>(asked: Seq<RequestView<A>>)
    requires
        forall|i: int| 0 <= i < asked.len() ==> !is_transfer(#[trigger] asked[i]),
    ensures
        transfers(asked) == Seq::<RequestView<A>>::empty(),
    decreases asked.len(),
{
    reveal(Seq::filter);
    if asked.len() > 0 {
        lemma_no_transfers(asked.drop_last());
    }
}

proof fn lemma_transfers_of_coin<A>(
    params: SendParamsView,
    coin: CoinView,
    turn: TurnView,
    asset: A,
)
    requires
        amount::denoted_amount(coin.amount) is Some,
    ensures
        transfers(coin_script(params, coin, turn, asset)) == seq![
            coin_transfer(params, coin, turn, asset),
        ],
{
    let pred = |request: RequestView<A>| is_transfer(request);
    let all = coin_script(params, coin, turn, asset);
    reveal(Seq::filter);
    let before = all.drop_last();
    assert(all.last() == coin_transfer(params, coin, turn, asset));
    lemma_no_transfers(before);
    assert(all.filter(pred) =~= before.filter(pred).push(all.last()));
}

proof fn lemma_transfers_of_coins<A>(
    params: SendParamsView,
    msg: MsgSendView,
    course: Course<A>,
    index: int,
)
    requires
        0 <= index <= msg.amount.len(),
        amounts_denote(msg, index),
    ensures
        transfers(coins_script(params, msg, course, index)) == Seq::new(
            (msg.amount.len() - index) as nat,
            |i: int|
                coin_transfer(
                    params,
                    msg.amount[index + i],
                    TurnView { from: course.from, to: course.to, index: index + i },
                    course.assets[index + i],
                ),
        ),
    decreases msg.amount.len() - index,
{
    let pred = |request: RequestView<A>| is_transfer(request);
    if index < msg.amount.len() {
        lemma_transfers_of_coins(params, msg, course, index + 1);
        let turn = TurnView { from: course.from, to: course.to, index };
        let head = coin_script(params, msg.amount[index], turn, course.assets[index]);
        let tail = coins_script(params, msg, course, index + 1);
        Seq::filter_distributes_over_add(head, tail, pred);
        assert(amount::denoted_amount(msg.amount[index].amount) is Some);
        lemma_transfers_of_coin(params, msg.amount[index], turn, course.assets[index]);
    } else {
        reveal(Seq::filter);
    }
}

/// A send that goes through moves each coin of the message once, in the order of the message,
/// and moves nothing else.
pub proof fn law_every_coin_moves_once<A>(
    params: SendParamsView,
    msg: MsgSendView,
    replies: Seq<ReplyView<A>>,
) -> (course: Course<A>)
    requires
        fitting(send::first_step(params, msg), replies),
        run(send::first_step(params, msg), replies) == StepView::<A>::Done(Ok(())),
    ensures
        transfers(requests(send::first_step(params, msg), replies)) == Seq::new(
            msg.amount.len(),
            |i: int|
                coin_transfer(
                    params,
                    msg.amount[i],
                    TurnView { from: course.from, to: course.to, index: i },
                    course.assets[i],
                ),
        ),
        replies[0] == ReplyView::<A>::Address(Ok(course.from)),
        replies[1] == ReplyView::<A>::Address(Ok(course.to)),
{
    let course = law_send_follows_script(params, msg, replies);
    let asked = requests(send::first_step::<A>(params, msg), replies);
    let pred = |request: RequestView<A>| is_transfer(request);
    let opening = seq![
        RequestView::<A>::DecodeAddress(msg.from_address),
        RequestView::<A>::DecodeAddress(msg.to_address),
    ];
    let coins = coins_script(params, msg, course, 0);
    let closing = closing_script::<A>(msg, course.text);
    assert(asked =~= opening + coins + closing);
    Seq::filter_distributes_over_add(opening + coins, closing, pred);
    Seq::filter_distributes_over_add(opening, coins, pred);
    lemma_no_transfers(opening);
    lemma_no_transfers(closing);
    lemma_transfers_of_coins(params, msg, course, 0);
    assert(transfers(asked) =~= transfers(coins));
    course
}

} // verus!
