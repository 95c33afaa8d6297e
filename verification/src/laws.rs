//! What the calls of this crate are for: what the result of a call has to do with
//! what went into it, and how the calls of one session relate to each other.
//!
//! A law speaks of calls. `call_ensures(f, args, r)` says that `r` is what `f` gave
//! back for `args`; a parameter that a call changes is a mutable reference, and
//! `old` and `final` are its value before and after.

use crate::background::{BackgroundTask, Event, Step};
use crate::client::{reply, ReconnectingWsClient, Started, Submitted};
use crate::connect::{ws_client, Connect, PingConfig};
use crate::channel::MessageSender;
use crate::counter::ReconnectCounter;
use crate::dispatch::{
    dispatch_call, Dispatch, PendingCall, PendingSubscription, SettledCall, SettledSubscription, Transmit,
};
use crate::reconnect::{
    Drained, Reconnect, ReconnectFailed, ReconnectPlan, Reconnecting, Resubscribe, ResubscribeFailed,
    Resubscribed, Resubscribing, Resubscription,
};
use crate::subscription::{Finished, HandlerStep, Notified, Reports, SubscriptionHandler};
use crate::types::{
    CallRequest, MethodResult, Notification, Op, Response, RetrySubscription, RpcError, RpcParams, SubscribeRequest, SubscriptionResult,
};
use serde_json::value::RawValue;
use std::collections::HashMap;
use tokio::sync::oneshot;
use vstd::prelude::*;

verus! {

// Asking for something.

/// A call is submitted with the method and the parameters that it was asked for
/// with, once and behind all that was submitted before. Its answer is waited for
/// where the operation says that it is sent, exactly if the operation was taken;
/// otherwise the client learns that the background task is gone.
pub proof fn law_call_is_submitted_as_asked(
    client: &mut ReconnectingWsClient,
    method: String,
    params: RpcParams,
    r: Submitted<MethodResult>,
)
    requires
        call_ensures(ReconnectingWsClient::inner_request, (client, method, params), r),
    ensures
        ({
            let before = old(client).tx@;
            let after = final(client).tx@;
            &&& after.receiver == before.receiver
            &&& after.shares == before.shares
            &&& after.sent.len() == before.sent.len() + 1
            &&& forall|i: int| 0 <= i < before.sent.len() ==> after.sent[i] == before.sent[i]
            &&& after.sent.last().0 matches Op::Call { method: m, params: p, send_back }
            &&& m == method
            &&& p == params
            &&& send_back == r.channel.sender()
            &&& after.sent.last().1 ==> (r.reply matches Ok(rx) && rx == r.channel.receiver())
            &&& !after.sent.last().1 ==> (r.reply matches Err(RpcError::Custom(text)) && text@
                == "Client is dropped"@)
        }),
        final(client).reconnect_cnt@ == old(client).reconnect_cnt@,
{
}

/// A subscription is submitted with the methods and the parameters that it was
/// asked for with, once and behind all that was submitted before. Its answer is
/// waited for where the operation says that it is sent, exactly if the operation
/// was taken; otherwise the client learns that the background task is gone.
pub proof fn law_subscription_is_submitted_as_asked(
    client: &mut ReconnectingWsClient,
    subscribe_method: String,
    params: RpcParams,
    unsubscribe_method: String,
    r: Submitted<SubscriptionResult>,
)
    requires
        call_ensures(
            ReconnectingWsClient::inner_subscribe,
            (client, subscribe_method, params, unsubscribe_method),
            r,
        ),
    ensures
        ({
            let before = old(client).tx@;
            let after = final(client).tx@;
            &&& after.receiver == before.receiver
            &&& after.shares == before.shares
            &&& after.sent.len() == before.sent.len() + 1
            &&& forall|i: int| 0 <= i < before.sent.len() ==> after.sent[i] == before.sent[i]
            &&& after.sent.last().0 matches Op::Subscription {
                subscribe_method: s,
                params: p,
                unsubscribe_method: u,
                send_back,
            }
            &&& s == subscribe_method
            &&& p == params
            &&& u == unsubscribe_method
            &&& send_back == r.channel.sender()
            &&& after.sent.last().1 ==> (r.reply matches Ok(rx) && rx == r.channel.receiver())
            &&& !after.sent.last().1 ==> (r.reply matches Err(RpcError::Custom(text)) && text@
                == "Client is dropped"@)
        }),
        final(client).reconnect_cnt@ == old(client).reconnect_cnt@,
{
}

/// A request whose parameters serialised submits a call with what they serialised
/// to. One whose parameters did not serialise submits nothing, and hands on why.
pub proof fn law_request_submits_its_parameters(
    client: &mut ReconnectingWsClient,
    method: String,
    params: Result<Option<Box<RawValue>>, RpcError>,
    r: Result<Submitted<MethodResult>, RpcError>,
)
    requires
        call_ensures(ReconnectingWsClient::request, (client, method, params), r),
    ensures
        params is Ok <==> r is Ok,
        params is Err ==> r->Err_0 == params->Err_0 && final(client).tx@ == old(client).tx@,
        params is Ok ==> {
            let before = old(client).tx@;
            let after = final(client).tx@;
            &&& after.receiver == before.receiver
            &&& after.shares == before.shares
            &&& after.sent.len() == before.sent.len() + 1
            &&& forall|i: int| 0 <= i < before.sent.len() ==> after.sent[i] == before.sent[i]
            &&& after.sent.last().0 matches Op::Call { method: m, params: p, send_back }
            &&& m == method
            &&& p.0 == params->Ok_0
            &&& send_back == r->Ok_0.channel.sender()
            &&& after.sent.last().1 ==> (r->Ok_0.reply matches Ok(rx) && rx == r->Ok_0.channel.receiver())
            &&& !after.sent.last().1 ==> (r->Ok_0.reply matches Err(RpcError::Custom(text)) && text@
                == "Client is dropped"@)
        },
        final(client).reconnect_cnt@ == old(client).reconnect_cnt@,
{
}

/// A subscription whose parameters serialised is submitted with what they
/// serialised to. One whose parameters did not serialise submits nothing, and hands
/// on why.
pub proof fn law_subscribe_submits_its_parameters(
    client: &mut ReconnectingWsClient,
    subscribe_method: String,
    params: Result<Option<Box<RawValue>>, RpcError>,
    unsubscribe_method: String,
    r: Result<Submitted<SubscriptionResult>, RpcError>,
)
    requires
        call_ensures(
            ReconnectingWsClient::subscribe,
            (client, subscribe_method, params, unsubscribe_method),
            r,
        ),
    ensures
        params is Ok <==> r is Ok,
        params is Err ==> r->Err_0 == params->Err_0 && final(client).tx@ == old(client).tx@,
        params is Ok ==> {
            let before = old(client).tx@;
            let after = final(client).tx@;
            &&& after.receiver == before.receiver
            &&& after.shares == before.shares
            &&& after.sent.len() == before.sent.len() + 1
            &&& forall|i: int| 0 <= i < before.sent.len() ==> after.sent[i] == before.sent[i]
            &&& after.sent.last().0 matches Op::Subscription {
                subscribe_method: s,
                params: p,
                unsubscribe_method: u,
                send_back,
            }
            &&& s == subscribe_method
            &&& p.0 == params->Ok_0
            &&& u == unsubscribe_method
            &&& send_back == r->Ok_0.channel.sender()
            &&& after.sent.last().1 ==> (r->Ok_0.reply matches Ok(rx) && rx == r->Ok_0.channel.receiver())
            &&& !after.sent.last().1 ==> (r->Ok_0.reply matches Err(RpcError::Custom(text)) && text@
                == "Client is dropped"@)
        },
        final(client).reconnect_cnt@ == old(client).reconnect_cnt@,
{
}

/// What a client is told is the answer that arrived for it; and where none can
/// arrive any more, that the background task is gone.
pub proof fn law_client_is_told_the_answer<T>(
    received: Result<Result<T, RpcError>, oneshot::error::RecvError>,
    r: Result<T, RpcError>,
)
    requires
        call_ensures(reply::<T>, (received,), r),
    ensures
        received is Ok ==> r == received->Ok_0,
        received is Err ==> (r matches Err(RpcError::Custom(text)) && text@
                == "Client is dropped"@),
{
}

/// A client that was made from another one submits to the same background task
/// and reads the same count, and to make it submits and counts nothing.
pub proof fn law_clients_share_task_and_count(
    client: &mut ReconnectingWsClient,
    other: ReconnectingWsClient,
)
    requires
        call_ensures(ReconnectingWsClient::share, (client,), other),
    ensures
        other.tx@.receiver == old(client).tx@.receiver,
        other.tx@.sent.len() == 0,
        other.tx@.shares == 0,
        final(client).tx@.receiver == old(client).tx@.receiver,
        final(client).tx@.sent == old(client).tx@.sent,
        final(client).tx@.shares == old(client).tx@.shares + 1,
        other.reconnect_cnt@.cell == old(client).reconnect_cnt@.cell,
        other.reconnect_cnt@.counted == 0,
        final(client).reconnect_cnt@.cell == old(client).reconnect_cnt@.cell,
        final(client).reconnect_cnt@.counted == old(client).reconnect_cnt@.counted,
{
}

/// There is a client exactly if there is a first connection. The background task
/// takes what the client submits, works on that connection, and has nothing open;
/// the first operation gets the number zero. The two have one count, which nobody
/// counted.
pub proof fn law_client_starts_connected<C: Clone>(
    url: String,
    ping_config: PingConfig,
    connected: Result<C, RpcError>,
    r: Result<Started<C>, RpcError>,
    connection: &C,
    open: &HashMap<usize, RetrySubscription>,
    op: Op,
    step: Step<C>,
)
    requires
        call_ensures(ReconnectingWsClient::new::<C>, (url, ping_config, connected), r),
        r matches Ok(started) ==> {
            &&& call_ensures(BackgroundTask::<C>::connection, (&started.task,), connection)
            &&& call_ensures(BackgroundTask::<C>::open_subscriptions, (&started.task,), open)
            &&& call_ensures(
                BackgroundTask::<C>::background_task,
                (started.task, Event::Message(Some(op))),
                step,
            )
        },
    ensures
        r is Ok <==> connected is Ok,
        connected is Err ==> r->Err_0 == connected->Err_0,
        r matches Ok(started) ==> {
            &&& started.client.tx@.receiver == started.rx
            &&& started.client.tx@.sent.len() == 0
            &&& started.client.tx@.shares == 0
            &&& *connection == connected->Ok_0
            &&& open@ =~= Map::empty()
            &&& step matches Step::Dispatch(_, transmit)
            &&& match transmit.dispatch {
                Dispatch::Call(call) => call.id == 0,
                Dispatch::Subscription(sub) => sub.id == 0,
            }
            &&& started.client.reconnect_cnt@.cell == started.task@.reconnect_cnt.cell
            &&& started.client.reconnect_cnt@.counted == 0
            &&& started.task@.reconnect_cnt.counted == 0
        },
{
    if let Ok(started) = r {
        assert(started.task@.open == crate::background::open_states(open@));
        assert forall|id: usize| !open@.contains_key(id) by {
            assert(!started.task@.open.contains_key(id));
        }
    }
}

// Counting.

/// A new counter is at zero; every count adds one, to the count that all handles on
/// it share, and to no other; and what is read is recorded as it was read. As long
/// as a counter has one handle, it reads how often that counted, modulo the size of
/// `usize`.
pub proof fn law_counter_counts(
    fresh: ReconnectCounter,
    counter: &mut ReconnectCounter,
    reader: &mut ReconnectCounter,
    r: usize,
    sharer: &mut ReconnectCounter,
    other: ReconnectCounter,
)
    requires
        call_ensures(ReconnectCounter::new, (), fresh),
        call_ensures(ReconnectCounter::inc, (counter,), ()),
        call_ensures(ReconnectCounter::get, (reader,), r),
        call_ensures(ReconnectCounter::share, (sharer,), other),
    ensures
        fresh@.sole,
        fresh@.counted == 0,
        fresh@.reads.len() == 0,
        final(counter)@.cell == old(counter)@.cell,
        final(counter)@.sole == old(counter)@.sole,
        final(counter)@.counted == old(counter)@.counted + 1,
        final(counter)@.reads == old(counter)@.reads,
        final(reader)@.cell == old(reader)@.cell,
        final(reader)@.sole == old(reader)@.sole,
        final(reader)@.counted == old(reader)@.counted,
        final(reader)@.reads == old(reader)@.reads.push(r),
        old(reader)@.sole ==> r as int == old(reader)@.counted as int % (usize::MAX + 1),
        other@.cell == old(sharer)@.cell,
        other@.counted == 0,
        !other@.sole,
        final(sharer)@.cell == old(sharer)@.cell,
        final(sharer)@.counted == old(sharer)@.counted,
        !final(sharer)@.sole,
{
    vstd::arithmetic::div_mod::lemma_mod_bound(old(reader)@.counted as int, usize::MAX + 1);
}

/// What a client gives as the number of reconnects is what it read of the count,
/// and reading submits and counts nothing.
pub proof fn law_retry_count_is_read(client: &mut ReconnectingWsClient, r: usize)
    requires
        call_ensures(ReconnectingWsClient::retry_count, (client,), r),
    ensures
        final(client).reconnect_cnt@.reads == old(client).reconnect_cnt@.reads.push(r),
        final(client).reconnect_cnt@.cell == old(client).reconnect_cnt@.cell,
        final(client).reconnect_cnt@.counted == old(client).reconnect_cnt@.counted,
        final(client).tx@ == old(client).tx@,
{
}

// Connecting.

/// A connection is set up to the url given. It pings at the interval given, if
/// pings are enabled, and else not at all.
pub proof fn law_connection_is_set_up_as_configured(
    url: &str,
    ping_config: PingConfig,
    r: Connect,
)
    requires
        call_ensures(ws_client, (url, ping_config), r),
    ensures
        r.url == url,
        ping_config is Disabled ==> r.ping_interval is None,
        ping_config matches PingConfig::Enabled(interval) ==> r.ping_interval == Some(interval),
{
}

// Dispatching.

/// What goes on the wire for an operation is what the operation asks for, under the
/// number and over the connection given.
pub proof fn law_operation_goes_on_the_wire_as_asked<C: Clone>(
    connection: &C,
    op: Op,
    id: usize,
    transmit: Transmit<C>,
    call: CallRequest,
    sub: SubscribeRequest,
)
    requires
        call_ensures(dispatch_call::<C>, (connection, op, id), transmit),
        transmit.dispatch matches Dispatch::Call(pending) ==> call_ensures(
            PendingCall::request,
            (&pending,),
            call,
        ),
        transmit.dispatch matches Dispatch::Subscription(pending) ==> call_ensures(
            PendingSubscription::request,
            (&pending,),
            sub,
        ),
    ensures
        cloned(*connection, transmit.connection),
        op matches Op::Call { method, params, send_back } ==> {
            &&& transmit.dispatch matches Dispatch::Call(pending)
            &&& pending.id == id
            &&& pending.send_back == send_back
            &&& pending.method == method
            &&& pending.params == params
            &&& call.method@ == method@
            &&& call.params == params
        },
        op matches Op::Subscription { subscribe_method, params, unsubscribe_method, send_back } ==> {
            &&& transmit.dispatch matches Dispatch::Subscription(pending)
            &&& pending.id == id
            &&& pending.send_back == send_back
            &&& pending.subscribe_method == subscribe_method
            &&& pending.params == params
            &&& pending.unsubscribe_method == unsubscribe_method
            &&& sub.subscribe_method@ == subscribe_method@
            &&& sub.params == params
            &&& sub.unsubscribe_method@ == unsubscribe_method@
        },
{
}

/// Parameters come to the wire as they are, also from a clone of them.
pub proof fn law_parameters_are_unchanged(
    params: RpcParams,
    copy: RpcParams,
    raw: Result<Option<Box<RawValue>>, RpcError>,
)
    requires
        call_ensures(RpcParams::clone, (&params,), copy),
        call_ensures(RpcParams::to_rpc_params, (copy,), raw),
    ensures
        copy == params,
        raw matches Ok(json) && json == params.0,
{
}

/// A call is handed back only if its connection was closed. For every other reply,
/// a result or an error, and whatever was asked for, its caller is sent exactly that
/// reply and the call is over.
pub proof fn law_reply_to_a_call_reaches_its_caller(
    call: PendingCall,
    reply: MethodResult,
    settled: SettledCall,
)
    requires
        call_ensures(PendingCall::settle, (call, reply), settled),
    ensures
        !(reply matches Err(RpcError::RestartNeeded(_))) ==> {
            &&& settled.response matches Ok(None)
            &&& settled.answer matches Some(handed)
            &&& handed.channel() == call.send_back
            &&& handed.message() == reply
        },
        reply matches Err(RpcError::RestartNeeded(_)) ==> {
            &&& settled.answer is None
            &&& settled.response matches Err(closed)
            &&& closed.id == call.id
            &&& closed.op matches Op::Call { method, params, send_back }
            &&& method == call.method
            &&& params == call.params
            &&& send_back == call.send_back
        },
{
}

/// A subscription request is handed back only if its connection was closed, and its
/// subscriber is sent every other error. If the server opened the subscription, its
/// subscriber is sent the receiving half of a channel that nothing was sent through;
/// what the server sends goes to a sending half of that channel, and the record with
/// what was asked for has the only other one.
pub proof fn law_reply_to_a_subscription_reaches_its_subscriber<S>(
    sub: PendingSubscription,
    reply: Result<S, RpcError>,
    settled: SettledSubscription<S>,
)
    requires
        call_ensures(PendingSubscription::settle::<S>, (sub, reply), settled),
    ensures
        reply matches Ok(opened) ==> {
            &&& settled.forward matches Some(forward)
            &&& forward.sub == opened
            &&& forward.id == sub.id
            &&& forward.tx@.sent.len() == 0
            &&& forward.tx@.shares == 0
            &&& settled.answer matches Some(handed)
            &&& handed.channel() == sub.send_back
            &&& handed.message() matches Ok(receiver)
            &&& receiver == forward.tx@.receiver
            &&& settled.response matches Ok(Some((id, record)))
            &&& id == sub.id
            &&& record.tx@.receiver == receiver
            &&& record.tx@.sent.len() == 0
            &&& record.tx@.shares == 1
            &&& record.subscribe_method == sub.subscribe_method
            &&& record.params == sub.params
            &&& record.unsubscribe_method == sub.unsubscribe_method
        },
        reply matches Err(err) && !(err is RestartNeeded) ==> {
            &&& settled.forward is None
            &&& settled.response matches Ok(None)
            &&& settled.answer matches Some(handed)
            &&& handed.channel() == sub.send_back
            &&& handed.message() matches Err(told)
            &&& told == reply->Err_0
        },
        reply matches Err(RpcError::RestartNeeded(_)) ==> {
            &&& settled.forward is None
            &&& settled.answer is None
            &&& settled.response matches Err(closed)
            &&& closed.id == sub.id
            &&& closed.op matches Op::Subscription {
                subscribe_method,
                params,
                unsubscribe_method,
                send_back,
            }
            &&& subscribe_method == sub.subscribe_method
            &&& params == sub.params
            &&& unsubscribe_method == sub.unsubscribe_method
            &&& send_back == sub.send_back
        },
{
}

// Forwarding.

/// The reports of all handlers arrive in one place, and to make a handle for a
/// handler reports nothing.
pub proof fn law_reports_arrive_in_one_place(
    made: (Reports, tokio::sync::mpsc::UnboundedReceiver<usize>),
    reports: &mut Reports,
    handle: MessageSender<usize>,
)
    requires
        call_ensures(Reports::new, (), made),
        call_ensures(Reports::share, (reports,), handle),
    ensures
        made.0@.receiver == made.1,
        made.0@.sent.len() == 0,
        made.0@.shares == 0,
        handle@.receiver == old(reports)@.receiver,
        handle@.sent.len() == 0,
        handle@.shares == 0,
        final(reports)@.receiver == old(reports)@.receiver,
        final(reports)@.sent == old(reports)@.sent,
        final(reports)@.shares == old(reports)@.shares + 1,
{
}

/// A handler forwards to the channel, reports to the channel and reports the number
/// that it was given, and starts without having done either.
pub proof fn law_handler_starts_as_told(
    tx: MessageSender<Notification>,
    sub_closed: MessageSender<usize>,
    id: usize,
    handler: SubscriptionHandler,
)
    requires
        call_ensures(SubscriptionHandler::new, (tx, sub_closed, id), handler),
    ensures
        handler.tx@ == tx@,
        handler.sub_closed@ == sub_closed@,
        handler.id == id,
{
}

/// A notification, whatever it says, is forwarded once, behind all that was
/// forwarded before, and the handler goes on exactly if the subscriber took it. The
/// end of the stream is no end on this side; the end of the task, and of the
/// subscriber, is. Nothing is forwarded then, and nothing is reported yet.
pub proof fn law_notification_is_forwarded(
    handler: &mut SubscriptionHandler,
    notified: Notified,
    step: HandlerStep,
)
    requires
        call_ensures(SubscriptionHandler::handle, (handler, notified), step),
    ensures
        final(handler).id == old(handler).id,
        final(handler).sub_closed@ == old(handler).sub_closed@,
        final(handler).tx@.receiver == old(handler).tx@.receiver,
        final(handler).tx@.shares == old(handler).tx@.shares,
        notified matches Notified::Next(Some(notif)) ==> {
            let before = old(handler).tx@.sent;
            let after = final(handler).tx@.sent;
            &&& after.len() == before.len() + 1
            &&& forall|i: int| 0 <= i < before.len() ==> after[i] == before[i]
            &&& after.last().0 == notif
            &&& after.last().1 <==> step is Continue
            &&& !after.last().1 ==> step == (HandlerStep::Done { sub_dropped: true })
        },
        notified matches Notified::Next(None) ==> {
            &&& final(handler).tx@.sent == old(handler).tx@.sent
            &&& step == (HandlerStep::Done { sub_dropped: false })
        },
        notified is TaskGone ==> {
            &&& final(handler).tx@.sent == old(handler).tx@.sent
            &&& step == (HandlerStep::Done { sub_dropped: true })
        },
{
}

/// A stream that ends is kept if its connection was lost and removed if it was not,
/// whatever its number: from the step of the handler to its report. A connection that
/// nobody holds any more is lost, and one that is held is lost exactly if it is not
/// up.
pub proof fn law_end_of_a_stream_is_reported_unless_the_connection_was_lost(
    handler: &mut SubscriptionHandler,
    step: HandlerStep,
    connected: Option<bool>,
    connection_lost: bool,
    removed: bool,
    finished: Finished,
)
    requires
        call_ensures(SubscriptionHandler::handle, (handler, Notified::Next(None)), step),
        call_ensures(SubscriptionHandler::connection_lost, (connected,), connection_lost),
        step matches HandlerStep::Done { sub_dropped } ==> {
            &&& call_ensures(
                SubscriptionHandler::is_removed,
                (sub_dropped, connection_lost),
                removed,
            )
            &&& call_ensures(
                SubscriptionHandler::finish,
                (*final(handler), sub_dropped, connection_lost),
                finished,
            )
        },
    ensures
        step is Done,
        removed <==> connected == Some(true),
        finished.tx@ == old(handler).tx@,
        connected != Some(true) ==> finished.sub_closed@ == old(handler).sub_closed@,
        connected == Some(true) ==> {
            let before = old(handler).sub_closed@;
            let after = finished.sub_closed@;
            &&& after.receiver == before.receiver
            &&& after.shares == before.shares
            &&& after.sent.len() == before.sent.len() + 1
            &&& forall|i: int| 0 <= i < before.sent.len() ==> after.sent[i] == before.sent[i]
            &&& after.sent.last().0 == old(handler).id
        },
{
}

/// A subscription that its subscriber dropped is reported, once, whatever became of
/// its connection: from the notification that was not taken to the report. The same
/// holds where the task is gone.
pub proof fn law_dropped_subscription_is_reported(
    handler: &mut SubscriptionHandler,
    notified: Notified,
    step: HandlerStep,
    connection_lost: bool,
    removed: bool,
    finished: Finished,
)
    requires
        call_ensures(SubscriptionHandler::handle, (handler, notified), step),
        notified is TaskGone || (notified->Next_0 is Some && !final(handler).tx@.sent.last().1),
        step matches HandlerStep::Done { sub_dropped } ==> {
            &&& call_ensures(
                SubscriptionHandler::is_removed,
                (sub_dropped, connection_lost),
                removed,
            )
            &&& call_ensures(
                SubscriptionHandler::finish,
                (*final(handler), sub_dropped, connection_lost),
                finished,
            )
        },
    ensures
        step is Done,
        removed,
        finished.tx@ == final(handler).tx@,
        ({
            let before = old(handler).sub_closed@;
            let after = finished.sub_closed@;
            &&& after.receiver == before.receiver
            &&& after.shares == before.shares
            &&& after.sent.len() == before.sent.len() + 1
            &&& forall|i: int| 0 <= i < before.sent.len() ==> after.sent[i] == before.sent[i]
            &&& after.sent.last().0 == old(handler).id
        }),
{
}

// Taking events.

/// How the task goes on after each event. An operation is dispatched, as it is,
/// under the next number and over the connection of the task. The task reconnects
/// when the connection was terminated or an operation was handed back, and ends when
/// no client, or nobody who reports, is left; in every other case it goes on.
pub proof fn law_task_goes_on<C: Clone>(
    task: BackgroundTask<C>,
    connection: &C,
    event: Event,
    step: Step<C>,
)
    requires
        call_ensures(BackgroundTask::<C>::connection, (&task,), connection),
        call_ensures(BackgroundTask::<C>::background_task, (task, event), step),
    ensures
        event matches Event::Message(Some(op)) ==> {
            &&& step matches Step::Dispatch(_, transmit)
            &&& cloned(*connection, transmit.connection)
            &&& match (op, transmit.dispatch) {
                (Op::Call { method, params, send_back }, Dispatch::Call(call)) => {
                    &&& call.method == method
                    &&& call.params == params
                    &&& call.send_back == send_back
                },
                (
                    Op::Subscription { subscribe_method, params, unsubscribe_method, send_back },
                    Dispatch::Subscription(sub),
                ) => {
                    &&& sub.subscribe_method == subscribe_method
                    &&& sub.params == params
                    &&& sub.unsubscribe_method == unsubscribe_method
                    &&& sub.send_back == send_back
                },
                _ => false,
            }
        },
        event matches Event::Message(None) ==> step is Stop,
        event matches Event::SubscriptionClosed(None) ==> step is Stop,
        event matches Event::SubscriptionClosed(Some(_)) ==> step is Continue,
        event is Disconnected ==> step is Reconnect,
        event matches Event::Response(Some(Err(_))) ==> step is Reconnect,
        event matches Event::Response(Some(Ok(_))) ==> step is Continue,
        event matches Event::Response(None) ==> step is Continue,
{
}

/// The task that an event leaves behind, if it goes on waiting.
pub open spec fn goes_on_with<C>(step: Step<C>, next: BackgroundTask<C>) -> bool {
    match step {
        Step::Continue { task, .. } => task == next,
        Step::Dispatch(task, _) => task == next,
        _ => false,
    }
}

/// Whatever event the task takes, every subscription that was open stays open as it
/// is, but for the one that a report names and the one whose number a newly opened
/// one takes; and none is open that was not, but for the one that was just opened,
/// which is open as it was handed over. What is not open any more is given up as it
/// was. The connection stays, and nothing is counted.
pub proof fn law_event_keeps_the_other_subscriptions<C: Clone>(
    task: BackgroundTask<C>,
    event: Event,
    step: Step<C>,
    next: BackgroundTask<C>,
    before: &HashMap<usize, RetrySubscription>,
    after: &HashMap<usize, RetrySubscription>,
    connection: &C,
    same_connection: &C,
    id: usize,
)
    requires
        call_ensures(BackgroundTask::<C>::background_task, (task, event), step),
        goes_on_with(step, next),
        call_ensures(BackgroundTask::<C>::open_subscriptions, (&task,), before),
        call_ensures(BackgroundTask::<C>::open_subscriptions, (&next,), after),
        call_ensures(BackgroundTask::<C>::connection, (&task,), connection),
        call_ensures(BackgroundTask::<C>::connection, (&next,), same_connection),
    ensures
        *same_connection == *connection,
        next@.reconnect_cnt == task@.reconnect_cnt,
        // A report closes the subscription that it names.
        event matches Event::SubscriptionClosed(Some(closed)) ==> (closed == id
            ==> !after@.contains_key(id)),
        // What was opened is open.
        event matches Event::Response(Some(Ok(Some((opened, record))))) ==> (opened == id ==> {
            &&& after@.contains_key(id)
            &&& after@[id].tx@ == record.tx@
            &&& after@[id].subscribe_method == record.subscribe_method
            &&& after@[id].params == record.params
            &&& after@[id].unsubscribe_method == record.unsubscribe_method
        }),
        // All else stays.
        !(event matches Event::SubscriptionClosed(Some(closed)) && closed == id) && !(
        event matches Event::Response(Some(Ok(Some((opened, _))))) && opened == id) ==> {
            &&& after@.contains_key(id) <==> before@.contains_key(id)
            &&& before@.contains_key(id) ==> {
                &&& after@[id].tx@ == before@[id].tx@
                &&& after@[id].subscribe_method == before@[id].subscribe_method
                &&& after@[id].params == before@[id].params
                &&& after@[id].unsubscribe_method == before@[id].unsubscribe_method
            }
        },
        // What is given up is the record that was there under the number named.
        step matches Step::Continue { dropped, .. } ==> {
            let named = (event matches Event::SubscriptionClosed(Some(closed)) && closed == id) || (
            event matches Event::Response(Some(Ok(Some((opened, _))))) && opened == id);
            &&& named && !before@.contains_key(id) ==> dropped is None
            &&& named && before@.contains_key(id) ==> (dropped matches Some(record) && {
                &&& before@[id].tx@ == record.tx@
                &&& before@[id].subscribe_method == record.subscribe_method
                &&& before@[id].params == record.params
                &&& before@[id].unsubscribe_method == record.unsubscribe_method
            })
            &&& !(event is SubscriptionClosed) && !(event matches Event::Response(
                Some(Ok(Some(_))),
            )) ==> dropped is None
        },
{
    lemma_open(task, before);
    lemma_open(next, after);
}

/// What the open subscriptions of a task have to do with its state.
proof fn lemma_open<C>(task: BackgroundTask<C>, open: &HashMap<usize, RetrySubscription>)
    requires
        call_ensures(BackgroundTask::<C>::open_subscriptions, (&task,), open),
    ensures
        forall|id: usize| #![trigger open@.contains_key(id)]
            #![trigger task@.open.contains_key(id)]
            open@.contains_key(id) <==> task@.open.contains_key(id),
        forall|id: usize| #[trigger] open@.contains_key(id) ==> task@.open[id] == open@[id]@,
{
    assert(crate::background::open_states(open@) == task@.open);
    assert(crate::background::open_states(open@).dom() =~= open@.dom());
}

/// Every event that the task goes on after takes one number, and numbers go round:
/// an operation that is taken next gets the number after the one that it would have
/// got before.
pub proof fn law_every_event_takes_one_number<C: Clone>(
    task: BackgroundTask<C>,
    event: Event,
    step: Step<C>,
    next: BackgroundTask<C>,
    op: Op,
    instead: Step<C>,
    later: Step<C>,
)
    requires
        call_ensures(BackgroundTask::<C>::background_task, (task, event), step),
        goes_on_with(step, next),
        call_ensures(BackgroundTask::<C>::background_task, (task, Event::Message(Some(op))), instead),
        call_ensures(BackgroundTask::<C>::background_task, (next, Event::Message(Some(op))), later),
    ensures
        instead matches Step::Dispatch(_, a) && later matches Step::Dispatch(_, b) && {
            let n = match a.dispatch {
                Dispatch::Call(call) => call.id,
                Dispatch::Subscription(sub) => sub.id,
            };
            let m = match b.dispatch {
                Dispatch::Call(call) => call.id,
                Dispatch::Subscription(sub) => sub.id,
            };
            &&& n < usize::MAX ==> m == n + 1
            &&& n == usize::MAX ==> m == 0
        },
        event matches Event::Message(Some(taken)) ==> {
            &&& step matches Step::Dispatch(_, a)
            &&& instead matches Step::Dispatch(_, b)
            &&& (match a.dispatch {
                Dispatch::Call(call) => call.id,
                Dispatch::Subscription(sub) => sub.id,
            }) == (match b.dispatch {
                Dispatch::Call(call) => call.id,
                Dispatch::Subscription(sub) => sub.id,
            })
        },
{
}

// Reconnecting.

/// A reconnect collects what ends until nothing is left, and only then goes on to the
/// new connection. That is when it is counted, once. The record of a subscription
/// that another one takes the place of is given up as it was, and no other is.
pub proof fn law_reconnect_waits_for_all_that_is_dispatched<C>(
    reconnect: Reconnect<C>,
    ended: Option<Response>,
    drained: Drained<C>,
)
    requires
        call_ensures(Reconnect::<C>::drained, (reconnect, ended), drained),
    ensures
        ended is Some <==> drained is Wait,
        ended is None <==> drained is Restart,
        drained matches Drained::Wait { reconnect: next, .. } ==> next@.task.reconnect_cnt
            == reconnect@.task.reconnect_cnt,
        drained matches Drained::Restart(next) ==> {
            &&& next@.task.reconnect_cnt.cell == reconnect@.task.reconnect_cnt.cell
            &&& next@.task.reconnect_cnt.counted == reconnect@.task.reconnect_cnt.counted + 1
        },
        drained matches Drained::Wait { dropped, .. } ==> match ended {
            Some(Ok(Some((id, _)))) => {
                let open = reconnect@.task.open;
                &&& !open.contains_key(id) ==> dropped is None
                &&& open.contains_key(id) ==> (dropped matches Some(record) && {
                    &&& record.tx@ == open[id].tx
                    &&& record.subscribe_method == open[id].subscribe_method
                    &&& record.params == open[id].params
                    &&& record.unsubscribe_method == open[id].unsubscribe_method
                })
            },
            _ => dropped is None,
        },
{
}

/// The calls of a reconnect that collects what ends: it starts at `states[0]`, takes
/// all of `ended`, then hears that nothing is left, and goes on with `reconnecting`.
pub open spec fn drain_calls<C>(
    states: Seq<Reconnect<C>>,
    ended: Seq<Response>,
    outcomes: Seq<Drained<C>>,
    reconnecting: Reconnecting<C>,
) -> bool {
    &&& states.len() == ended.len() + 1
    &&& outcomes.len() == ended.len()
    &&& forall|i: int|
        0 <= i < ended.len() ==> call_ensures(
            Reconnect::<C>::drained,
            (states[i], Some(ended[i])),
            #[trigger] outcomes[i],
        )
    &&& forall|i: int|
        0 <= i < ended.len() ==> (#[trigger] outcomes[i] matches Drained::Wait { reconnect, .. }
            ==> reconnect == states[i + 1])
    &&& call_ensures(
        Reconnect::<C>::drained,
        (states.last(), None),
        Drained::Restart(reconnecting),
    )
}

proof fn lemma_drained<C>(
    states: Seq<Reconnect<C>>,
    ended: Seq<Response>,
    outcomes: Seq<Drained<C>>,
    reconnecting: Reconnecting<C>,
    n: int,
)
    requires
        drain_calls(states, ended, outcomes, reconnecting),
        0 <= n <= ended.len(),
    ensures
        states[n]@.retry == states[0]@.retry + ended.take(n).filter(
            |r: Response| r is Err,
        ).map_values(|r: Response| (r->Err_0.id, r->Err_0.op)),
        states[n]@.task.connection == states[0]@.task.connection,
        states[n]@.task.url == states[0]@.task.url,
        states[n]@.task.ping_config == states[0]@.task.ping_config,
        states[n]@.task.reconnect_cnt == states[0]@.task.reconnect_cnt,
        states[n]@.task.id == states[0]@.task.id,
    decreases n,
{
    reveal(Seq::filter);
    let pred = |r: Response| r is Err;
    let pick = |r: Response| (r->Err_0.id, r->Err_0.op);
    if n == 0 {
        assert(ended.take(0).filter(pred).map_values(pick) =~= Seq::empty());
        assert(states[0]@.retry =~= states[0]@.retry + Seq::empty());
    } else {
        lemma_drained(states, ended, outcomes, reconnecting, n - 1);
        let out = outcomes[n - 1];
        assert(call_ensures(Reconnect::<C>::drained, (states[n - 1], Some(ended[n - 1])), out));
        assert(out matches Drained::Wait { reconnect, .. } && reconnect == states[n]);
        assert(ended.take(n).drop_last() =~= ended.take(n - 1));
        assert(ended.take(n).last() == ended[n - 1]);
        let before = ended.take(n - 1).filter(pred);
        if ended[n - 1] is Err {
            assert(before.push(ended[n - 1]).map_values(pick) =~= before.map_values(pick).push(
                pick(ended[n - 1]),
            ));
            assert(states[n]@.retry =~= states[n - 1]@.retry.push(pick(ended[n - 1])));
        }
        assert(states[n]@.retry =~= states[0]@.retry + ended.take(n).filter(pred).map_values(pick));
    }
}

/// What is open under a number while a reconnect collects what ends: what was open
/// before, unless an operation that ended opened a subscription under it.
proof fn lemma_drained_keeps<C>(
    states: Seq<Reconnect<C>>,
    ended: Seq<Response>,
    outcomes: Seq<Drained<C>>,
    reconnecting: Reconnecting<C>,
    m: int,
    n: int,
    id: usize,
)
    requires
        drain_calls(states, ended, outcomes, reconnecting),
        0 <= m <= n <= ended.len(),
        forall|i: int|
            m <= i < n ==> (#[trigger] ended[i] matches Ok(Some((opened, _))) ==> opened != id),
    ensures
        states[n]@.task.open.contains_key(id) <==> states[m]@.task.open.contains_key(id),
        states[m]@.task.open.contains_key(id) ==> states[n]@.task.open[id]
            == states[m]@.task.open[id],
    decreases n,
{
    if n > m {
        lemma_drained_keeps(states, ended, outcomes, reconnecting, m, n - 1, id);
        let out = outcomes[n - 1];
        assert(call_ensures(Reconnect::<C>::drained, (states[n - 1], Some(ended[n - 1])), out));
        assert(out matches Drained::Wait { reconnect, .. } && reconnect == states[n]);
        assert(ended[n - 1] matches Ok(Some((opened, _))) ==> opened != id);
    }
}

/// A subscription that an operation opened while the reconnect collected is open.
proof fn lemma_drained_opens<C>(
    states: Seq<Reconnect<C>>,
    ended: Seq<Response>,
    outcomes: Seq<Drained<C>>,
    reconnecting: Reconnecting<C>,
    k: int,
)
    requires
        drain_calls(states, ended, outcomes, reconnecting),
        0 <= k < ended.len(),
        ended[k] matches Ok(Some(_)),
    ensures
        ended[k] matches Ok(Some((id, record))) && states[k + 1]@.task.open.contains_key(id)
            && states[k + 1]@.task.open[id] == record@,
{
    let out = outcomes[k];
    assert(call_ensures(Reconnect::<C>::drained, (states[k], Some(ended[k])), out));
    assert(out matches Drained::Wait { reconnect, .. } && reconnect == states[k + 1]);
}

/// The calls of a reconnect from the event that starts it to the plan for the new
/// connection.
pub open spec fn reconnect_calls<C: Clone>(
    task: BackgroundTask<C>,
    event: Event,
    states: Seq<Reconnect<C>>,
    ended: Seq<Response>,
    outcomes: Seq<Drained<C>>,
    reconnecting: Reconnecting<C>,
    connection: C,
    plan: ReconnectPlan<C>,
) -> bool {
    &&& states.len() > 0
    &&& call_ensures(
        BackgroundTask::<C>::background_task,
        (task, event),
        Step::Reconnect(states[0]),
    )
    &&& drain_calls(states, ended, outcomes, reconnecting)
    &&& call_ensures(
        Reconnecting::<C>::reconnect,
        (reconnecting, Ok(connection)),
        Ok::<ReconnectPlan<C>, ReconnectFailed<C>>(plan),
    )
}

/// A reconnect transmits again what was handed back: first the operation that
/// started it, if one did, then all that were handed back while it collected, in
/// order. Each goes out whole, under its own number and over the new connection, and
/// nothing else goes out.
pub proof fn law_all_that_was_handed_back_is_transmitted_again<C: Clone>(
    task: BackgroundTask<C>,
    event: Event,
    states: Seq<Reconnect<C>>,
    ended: Seq<Response>,
    outcomes: Seq<Drained<C>>,
    reconnecting: Reconnecting<C>,
    connection: C,
    plan: ReconnectPlan<C>,
)
    requires
        reconnect_calls(task, event, states, ended, outcomes, reconnecting, connection, plan),
    ensures
        ({
            let started_by: Seq<(usize, Op)> = match event {
                Event::Response(Some(Err(closed))) => seq![(closed.id, closed.op)],
                _ => Seq::empty(),
            };
            let handed_back = ended.filter(|r: Response| r is Err).map_values(
                |r: Response| (r->Err_0.id, r->Err_0.op),
            );
            plan.dispatch@.map_values(
                |t: Transmit<C>|
                    match t.dispatch {
                        Dispatch::Call(call) => (
                            call.id,
                            Op::Call {
                                method: call.method,
                                params: call.params,
                                send_back: call.send_back,
                            },
                        ),
                        Dispatch::Subscription(sub) => (
                            sub.id,
                            Op::Subscription {
                                subscribe_method: sub.subscribe_method,
                                params: sub.params,
                                unsubscribe_method: sub.unsubscribe_method,
                                send_back: sub.send_back,
                            },
                        ),
                    },
            ) =~= started_by + handed_back
        }),
        forall|i: int|
            0 <= i < plan.dispatch@.len() ==> cloned(
                connection,
                (#[trigger] plan.dispatch@[i]).connection,
            ),
{
    let n = ended.len() as int;
    lemma_drained(states, ended, outcomes, reconnecting, n);
    assert(ended.take(n) =~= ended);
    let retry = reconnecting@.retry;
    assert forall|i: int| 0 <= i < retry.len() implies (#[trigger] plan.dispatch@[i]).transmits(
        retry[i].1,
        retry[i].0,
        connection,
    ) by {}
}

/// The calls that open the subscriptions of a plan again: each is asked for with its
/// request over its connection, the server's side of it is among `replies`, and with
/// the last of them the task is there again.
pub open spec fn resubscribe_calls<C: Clone, S>(
    plan: ReconnectPlan<C>,
    walk: Seq<Resubscribing<C>>,
    subs: Seq<Resubscription<C>>,
    requests: Seq<SubscribeRequest>,
    connections: Seq<&C>,
    replies: Seq<S>,
    opened: Seq<Resubscribed<C, S>>,
    task: BackgroundTask<C>,
) -> bool {
    let n = subs.len();
    &&& walk.len() == n + 1
    &&& requests.len() == n
    &&& connections.len() == n
    &&& replies.len() == n
    &&& opened.len() == n
    &&& walk[0] == plan.resubscribing
    &&& forall|i: int|
        0 <= i < n ==> call_ensures(
            Resubscribing::<C>::next,
            (walk[i],),
            Resubscribe::Subscribe(#[trigger] subs[i]),
        )
    &&& forall|i: int|
        0 <= i < n ==> call_ensures(
            Resubscription::<C>::request,
            (&subs[i],),
            #[trigger] requests[i],
        )
    &&& forall|i: int|
        0 <= i < n ==> call_ensures(
            Resubscription::<C>::connection,
            (&subs[i],),
            #[trigger] connections[i],
        )
    &&& forall|i: int|
        0 <= i < n ==> call_ensures(
            Resubscription::<C>::resubscribed::<S>,
            (subs[i], Ok(replies[i])),
            Ok::<Resubscribed<C, S>, ResubscribeFailed<C>>(#[trigger] opened[i]),
        )
    &&& forall|i: int| 0 <= i < n ==> walk[i + 1] == (#[trigger] opened[i]).resubscribing
    &&& call_ensures(Resubscribing::<C>::next, (walk.last(),), Resubscribe::Done(task))
}

/// Where the calls that open the subscriptions again stand.
proof fn lemma_walk<C: Clone, S>(
    plan: ReconnectPlan<C>,
    walk: Seq<Resubscribing<C>>,
    subs: Seq<Resubscription<C>>,
    requests: Seq<SubscribeRequest>,
    connections: Seq<&C>,
    replies: Seq<S>,
    opened: Seq<Resubscribed<C, S>>,
    task: BackgroundTask<C>,
    n: int,
)
    requires
        resubscribe_calls(plan, walk, subs, requests, connections, replies, opened, task),
        0 <= n <= subs.len(),
        plan.resubscribing@.wf(),
    ensures
        ({
            let first = plan.resubscribing@;
            let now = walk[n]@;
            &&& now.todo.len() == first.todo.len() - n
            &&& now.todo == first.todo.take(now.todo.len() as int)
            &&& now.task.open.dom() == first.task.open.dom()
            &&& forall|id: usize| #[trigger]
                first.task.open.contains_key(id) ==> now.task.open[id].same(first.task.open[id])
            &&& now.task.connection == first.task.connection
            &&& now.task.url == first.task.url
            &&& now.task.ping_config == first.task.ping_config
            &&& now.task.reconnect_cnt == first.task.reconnect_cnt
            &&& now.task.id == first.task.id
        }),
    decreases n,
{
    let first = plan.resubscribing@;
    if n == 0 {
        assert(first.todo.take(first.todo.len() as int) =~= first.todo);
    } else {
        lemma_walk(
            plan,
            walk,
            subs,
            requests,
            connections,
            replies,
            opened,
            task,
            n - 1,
        );
        let before = walk[n - 1]@;
        lemma_walk_step(walk[n - 1], subs[n - 1], replies[n - 1], opened[n - 1]);
        assert(walk[n] == opened[n - 1].resubscribing);
        let id = before.todo[before.todo.len() - 1];
        assert(first.todo[before.todo.len() - 1] == id);
        assert(first.task.open.contains_key(id));
        assert(walk[n]@.todo =~= first.todo.take(walk[n]@.todo.len() as int));
        assert(walk[n]@.task.open.dom() =~= first.task.open.dom());
    }
}

/// One subscription that is opened again.
proof fn lemma_walk_step<C: Clone, S>(
    resubscribing: Resubscribing<C>,
    sub: Resubscription<C>,
    reply: S,
    opened: Resubscribed<C, S>,
)
    requires
        call_ensures(Resubscribing::<C>::next, (resubscribing,), Resubscribe::Subscribe(sub)),
        call_ensures(
            Resubscription::<C>::resubscribed::<S>,
            (sub, Ok(reply)),
            Ok::<Resubscribed<C, S>, ResubscribeFailed<C>>(opened),
        ),
    ensures
        resubscribing@.todo.len() > 0,
        sub@ == resubscribing@,
        opened.resubscribing@ == resubscribing@.resubscribe(),
        opened.forward.id == resubscribing@.todo.last(),
        opened.forward.sub == reply,
        opened.forward.tx@.receiver == resubscribing@.task.open[opened.forward.id].tx.receiver,
        opened.forward.tx@.sent.len() == 0,
        opened.forward.tx@.shares == 0,
{
}

/// What becomes of a subscription that is open when the new connection is there.
proof fn lemma_reopened<C: Clone, S>(
    task: BackgroundTask<C>,
    before: &HashMap<usize, RetrySubscription>,
    event: Event,
    states: Seq<Reconnect<C>>,
    ended: Seq<Response>,
    outcomes: Seq<Drained<C>>,
    reconnecting: Reconnecting<C>,
    connection: C,
    plan: ReconnectPlan<C>,
    walk: Seq<Resubscribing<C>>,
    subs: Seq<Resubscription<C>>,
    requests: Seq<SubscribeRequest>,
    connections: Seq<&C>,
    replies: Seq<S>,
    opened: Seq<Resubscribed<C, S>>,
    next: BackgroundTask<C>,
    after: &HashMap<usize, RetrySubscription>,
    id: usize,
)
    requires
        reconnect_calls(task, event, states, ended, outcomes, reconnecting, connection, plan),
        resubscribe_calls(plan, walk, subs, requests, connections, replies, opened, next),
        call_ensures(BackgroundTask::<C>::open_subscriptions, (&task,), before),
        call_ensures(BackgroundTask::<C>::open_subscriptions, (&next,), after),
        reconnecting@.task.open.contains_key(id),
    ensures
        exists|i: int|
            0 <= i < opened.len() && (#[trigger] opened[i]).forward.id == id
                && opened[i].forward.sub == replies[i] && opened[i].forward.tx@.receiver
                == reconnecting@.task.open[id].tx.receiver && opened[i].forward.tx@.sent.len() == 0
                && opened[i].forward.tx@.shares == 0 && requests[i].subscribe_method@
                == reconnecting@.task.open[id].subscribe_method@ && requests[i].params
                == reconnecting@.task.open[id].params && requests[i].unsubscribe_method@
                == reconnecting@.task.open[id].unsubscribe_method@ && *connections[i] == connection,
        after@.contains_key(id),
        after@[id].tx@.receiver == reconnecting@.task.open[id].tx.receiver,
        after@[id].tx@.sent == reconnecting@.task.open[id].tx.sent,
        after@[id].subscribe_method == reconnecting@.task.open[id].subscribe_method,
        after@[id].params == reconnecting@.task.open[id].params,
        after@[id].unsubscribe_method == reconnecting@.task.open[id].unsubscribe_method,
{
    lemma_plan_wf(reconnecting, connection, plan);
    lemma_open(next, after);
    let first = plan.resubscribing@;
    let n = subs.len() as int;
    lemma_walk(plan, walk, subs, requests, connections, replies, opened, next, n);
    assert(walk[n]@.todo.len() == 0);
    assert(first.todo.to_set().contains(id));
    let p = choose|p: int| 0 <= p < first.todo.len() && first.todo[p] == id;
    let i = first.todo.len() - 1 - p;
    lemma_walk(plan, walk, subs, requests, connections, replies, opened, next, i);
    lemma_walk_step(walk[i], subs[i], replies[i], opened[i]);
    assert(call_ensures(Resubscription::<C>::request, (&subs[i],), requests[i]));
    assert(call_ensures(Resubscription::<C>::connection, (&subs[i],), connections[i]));
    assert(walk[i]@.todo.last() == first.todo[p]);
    assert(opened[i].forward.id == id);
    assert(first.task.open.contains_key(id));
    assert(next@.open.contains_key(id));
}

/// A plan opens what is open.
proof fn lemma_plan_wf<C: Clone>(
    reconnecting: Reconnecting<C>,
    connection: C,
    plan: ReconnectPlan<C>,
)
    requires
        call_ensures(
            Reconnecting::<C>::reconnect,
            (reconnecting, Ok(connection)),
            Ok::<ReconnectPlan<C>, ReconnectFailed<C>>(plan),
        ),
    ensures
        plan.resubscribing@.wf(),
        plan.resubscribing@.todo.to_set() == reconnecting@.task.open.dom(),
        plan.resubscribing@.task.open == reconnecting@.task.open,
{
    let todo = plan.resubscribing@.todo;
    assert forall|i: int| 0 <= i < todo.len() implies plan.resubscribing@.task.open.contains_key(
        #[trigger] todo[i],
    ) by {
        assert(todo.to_set().contains(todo[i]));
    }
}

/// A subscription that is open when the connection is lost is opened again, with
/// what it was asked for with and over the new connection, and its notifications go
/// on to the receiver that its subscriber has; nothing is put into it. The record
/// stays as it was.
pub proof fn law_open_subscription_goes_on_over_the_new_connection<C: Clone, S>(
    task: BackgroundTask<C>,
    before: &HashMap<usize, RetrySubscription>,
    event: Event,
    states: Seq<Reconnect<C>>,
    ended: Seq<Response>,
    outcomes: Seq<Drained<C>>,
    reconnecting: Reconnecting<C>,
    connection: C,
    plan: ReconnectPlan<C>,
    walk: Seq<Resubscribing<C>>,
    subs: Seq<Resubscription<C>>,
    requests: Seq<SubscribeRequest>,
    connections: Seq<&C>,
    replies: Seq<S>,
    opened: Seq<Resubscribed<C, S>>,
    next: BackgroundTask<C>,
    after: &HashMap<usize, RetrySubscription>,
    id: usize,
)
    requires
        reconnect_calls(task, event, states, ended, outcomes, reconnecting, connection, plan),
        resubscribe_calls(plan, walk, subs, requests, connections, replies, opened, next),
        call_ensures(BackgroundTask::<C>::open_subscriptions, (&task,), before),
        call_ensures(BackgroundTask::<C>::open_subscriptions, (&next,), after),
        before@.contains_key(id),
        forall|i: int|
            0 <= i < ended.len() ==> (#[trigger] ended[i] matches Ok(Some((other, _))) ==> other != id),
    ensures
        exists|i: int|
            0 <= i < opened.len() && (#[trigger] opened[i]).forward.id == id
                && opened[i].forward.sub == replies[i] && opened[i].forward.tx@.receiver
                == before@[id].tx@.receiver && opened[i].forward.tx@.sent.len() == 0
                && opened[i].forward.tx@.shares == 0 && requests[i].subscribe_method@
                == before@[id].subscribe_method@ && requests[i].params == before@[id].params
                && requests[i].unsubscribe_method@ == before@[id].unsubscribe_method@
                && *connections[i] == connection,
        after@.contains_key(id),
        after@[id].tx@.receiver == before@[id].tx@.receiver,
        after@[id].tx@.sent == before@[id].tx@.sent,
        after@[id].subscribe_method == before@[id].subscribe_method,
        after@[id].params == before@[id].params,
        after@[id].unsubscribe_method == before@[id].unsubscribe_method,
{
    lemma_open(task, before);
    let n = ended.len() as int;
    lemma_drained_keeps(states, ended, outcomes, reconnecting, 0, n, id);
    lemma_reopened(
        task,
        before,
        event,
        states,
        ended,
        outcomes,
        reconnecting,
        connection,
        plan,
        walk,
        subs,
        requests,
        connections,
        replies,
        opened,
        next,
        after,
        id,
    );
}

/// The same holds of a subscription that the server opened as the connection went
/// down, and that the task hears of only while it reconnects.
pub proof fn law_late_subscription_goes_on_over_the_new_connection<C: Clone, S>(
    task: BackgroundTask<C>,
    before: &HashMap<usize, RetrySubscription>,
    event: Event,
    states: Seq<Reconnect<C>>,
    ended: Seq<Response>,
    outcomes: Seq<Drained<C>>,
    reconnecting: Reconnecting<C>,
    connection: C,
    plan: ReconnectPlan<C>,
    walk: Seq<Resubscribing<C>>,
    subs: Seq<Resubscription<C>>,
    requests: Seq<SubscribeRequest>,
    connections: Seq<&C>,
    replies: Seq<S>,
    opened: Seq<Resubscribed<C, S>>,
    next: BackgroundTask<C>,
    after: &HashMap<usize, RetrySubscription>,
    k: int,
    id: usize,
    record: RetrySubscription,
)
    requires
        reconnect_calls(task, event, states, ended, outcomes, reconnecting, connection, plan),
        resubscribe_calls(plan, walk, subs, requests, connections, replies, opened, next),
        call_ensures(BackgroundTask::<C>::open_subscriptions, (&task,), before),
        call_ensures(BackgroundTask::<C>::open_subscriptions, (&next,), after),
        0 <= k < ended.len(),
        ended[k] == Response::Ok(Some((id, record))),
        forall|i: int|
            k < i < ended.len() ==> (#[trigger] ended[i] matches Ok(Some((other, _))) ==> other != id),
    ensures
        exists|i: int|
            0 <= i < opened.len() && (#[trigger] opened[i]).forward.id == id
                && opened[i].forward.sub == replies[i] && opened[i].forward.tx@.receiver
                == record.tx@.receiver && opened[i].forward.tx@.sent.len() == 0
                && opened[i].forward.tx@.shares == 0 && requests[i].subscribe_method@
                == record.subscribe_method@ && requests[i].params == record.params
                && requests[i].unsubscribe_method@ == record.unsubscribe_method@
                && *connections[i] == connection,
        after@.contains_key(id),
        after@[id].tx@.receiver == record.tx@.receiver,
        after@[id].tx@.sent == record.tx@.sent,
        after@[id].subscribe_method == record.subscribe_method,
        after@[id].params == record.params,
        after@[id].unsubscribe_method == record.unsubscribe_method,
{
    let n = ended.len() as int;
    lemma_drained_opens(states, ended, outcomes, reconnecting, k);
    lemma_drained_keeps(states, ended, outcomes, reconnecting, k + 1, n, id);
    lemma_reopened(
        task,
        before,
        event,
        states,
        ended,
        outcomes,
        reconnecting,
        connection,
        plan,
        walk,
        subs,
        requests,
        connections,
        replies,
        opened,
        next,
        after,
        id,
    );
}

/// A reconnect opens no subscription twice, and none that was not open before or
/// opened as the connection went down; and after it no other is open. The task then
/// works on the new connection, and counted one reconnect.
pub proof fn law_reconnect_opens_nothing_else<C: Clone, S>(
    task: BackgroundTask<C>,
    before: &HashMap<usize, RetrySubscription>,
    event: Event,
    states: Seq<Reconnect<C>>,
    ended: Seq<Response>,
    outcomes: Seq<Drained<C>>,
    reconnecting: Reconnecting<C>,
    connection: C,
    plan: ReconnectPlan<C>,
    walk: Seq<Resubscribing<C>>,
    subs: Seq<Resubscription<C>>,
    requests: Seq<SubscribeRequest>,
    connections: Seq<&C>,
    replies: Seq<S>,
    opened: Seq<Resubscribed<C, S>>,
    next: BackgroundTask<C>,
    after: &HashMap<usize, RetrySubscription>,
    new_connection: &C,
)
    requires
        reconnect_calls(task, event, states, ended, outcomes, reconnecting, connection, plan),
        resubscribe_calls(plan, walk, subs, requests, connections, replies, opened, next),
        call_ensures(BackgroundTask::<C>::open_subscriptions, (&task,), before),
        call_ensures(BackgroundTask::<C>::open_subscriptions, (&next,), after),
        call_ensures(BackgroundTask::<C>::connection, (&next,), new_connection),
    ensures
        *new_connection == connection,
        next@.reconnect_cnt.cell == task@.reconnect_cnt.cell,
        next@.reconnect_cnt.counted == task@.reconnect_cnt.counted + 1,
        forall|i: int, j: int|
            0 <= i < j < opened.len() ==> (#[trigger] opened[i]).forward.id != (
            #[trigger] opened[j]).forward.id,
        forall|i: int|
            0 <= i < opened.len() ==> after@.contains_key((#[trigger] opened[i]).forward.id),
        forall|id: usize| #[trigger]
            after@.contains_key(id) ==> {
                ||| before@.contains_key(id)
                ||| exists|k: int|
                    0 <= k < ended.len() && (#[trigger] ended[k] matches Ok(Some((other, _))) && other == id)
            },
{
    lemma_open(task, before);
    lemma_open(next, after);
    lemma_plan_wf(reconnecting, connection, plan);
    let first = plan.resubscribing@;
    let n = subs.len() as int;
    lemma_walk(plan, walk, subs, requests, connections, replies, opened, next, n);
    lemma_drained(states, ended, outcomes, reconnecting, ended.len() as int);
    assert forall|i: int| 0 <= i < opened.len() implies {
        &&& 0 <= first.todo.len() - 1 - i < first.todo.len()
        &&& (#[trigger] opened[i]).forward.id == first.todo[first.todo.len() - 1 - i]
    } by {
        lemma_walk(plan, walk, subs, requests, connections, replies, opened, next, i);
        lemma_walk_step(walk[i], subs[i], replies[i], opened[i]);
    }
    assert forall|i: int| 0 <= i < opened.len() implies after@.contains_key(
        (#[trigger] opened[i]).forward.id,
    ) by {
        let id = opened[i].forward.id;
        assert(first.task.open.contains_key(first.todo[first.todo.len() - 1 - i]));
        assert(next@.open.contains_key(id));
    }
    assert forall|id: usize| #[trigger] after@.contains_key(id) implies {
        ||| before@.contains_key(id)
        ||| exists|k: int|
            0 <= k < ended.len() && (#[trigger] ended[k] matches Ok(Some((other, _))) && other == id)
    } by {
        assert(next@.open.contains_key(id));
        assert(walk[n]@.task.open.dom().contains(id));
        if forall|k: int|
            0 <= k < ended.len() ==> !(#[trigger] ended[k] matches Ok(Some((other, _))) && other == id) {
            lemma_drained_keeps(
                states,
                ended,
                outcomes,
                reconnecting,
                0,
                ended.len() as int,
                id,
            );
        }
    }
}

/// A connection that cannot be set up, and a subscription that cannot be opened
/// again, end the task, and it says why; and it ends for no other reason. What waited
/// for the connection goes with the task, all of it and in order.
pub proof fn law_reconnect_fails_for_the_reason_given<C: Clone, S>(
    reconnecting: Reconnecting<C>,
    connected: Result<C, RpcError>,
    r: Result<ReconnectPlan<C>, ReconnectFailed<C>>,
    states: Seq<Reconnect<C>>,
    ended: Seq<Response>,
    outcomes: Seq<Drained<C>>,
    task: BackgroundTask<C>,
    event: Event,
    sub: Resubscription<C>,
    reply: Result<S, RpcError>,
    reopened: Result<Resubscribed<C, S>, ResubscribeFailed<C>>,
)
    requires
        states.len() > 0,
        call_ensures(
            BackgroundTask::<C>::background_task,
            (task, event),
            Step::Reconnect(states[0]),
        ),
        drain_calls(states, ended, outcomes, reconnecting),
        call_ensures(Reconnecting::<C>::reconnect, (reconnecting, connected), r),
        call_ensures(Resubscription::<C>::resubscribed::<S>, (sub, reply), reopened),
    ensures
        r is Ok <==> connected is Ok,
        r matches Err(failed) ==> {
            &&& failed.err == connected->Err_0
            &&& failed.retry@ =~= (match event {
                Event::Response(Some(Err(closed))) => seq![(closed.id, closed.op)],
                _ => Seq::empty(),
            }) + ended.filter(|r: Response| r is Err).map_values(
                |r: Response| (r->Err_0.id, r->Err_0.op),
            )
        },
        reopened is Ok <==> reply is Ok,
        reopened matches Err(failed) ==> failed.err == reply->Err_0,
{
    let n = ended.len() as int;
    lemma_drained(states, ended, outcomes, reconnecting, n);
    assert(ended.take(n) =~= ended);
}

/// Every connection of a session leads to the same place and pings alike: that of a
/// reconnect is set up as the first one was configured, and so is that of the next
/// reconnect, whatever the task does in between.
pub proof fn law_reconnects_lead_to_the_same_place<C: Clone>(
    url: String,
    ping_config: PingConfig,
    connected: Result<C, RpcError>,
    started: Started<C>,
    task: BackgroundTask<C>,
    event: Event,
    step: Step<C>,
    next: BackgroundTask<C>,
    first: (Step<C>, Drained<C>, Connect),
    one: (Step<C>, Drained<C>, Connect),
    two: (Step<C>, Drained<C>, Connect),
)
    requires
        call_ensures(
            ReconnectingWsClient::new::<C>,
            (url, ping_config, connected),
            Ok::<Started<C>, RpcError>(started),
        ),
        connects(started.task, first),
        call_ensures(BackgroundTask::<C>::background_task, (task, event), step),
        goes_on_with(step, next),
        connects(task, one),
        connects(next, two),
    ensures
        first.2.url@ == url@,
        ping_config is Disabled ==> first.2.ping_interval is None,
        ping_config matches PingConfig::Enabled(interval) ==> first.2.ping_interval
            == Some(interval),
        two.2.url@ == one.2.url@,
        two.2.ping_interval == one.2.ping_interval,
{
}

/// The calls of a reconnect with nothing to wait for, up to the connection that it
/// asks for.
pub open spec fn connects<C: Clone>(
    task: BackgroundTask<C>,
    calls: (Step<C>, Drained<C>, Connect),
) -> bool {
    &&& call_ensures(
        BackgroundTask::<C>::background_task,
        (task, Event::Disconnected),
        calls.0,
    )
    &&& calls.0 matches Step::Reconnect(reconnect)
    &&& call_ensures(Reconnect::<C>::drained, (reconnect, None), calls.1)
    &&& calls.1 matches Drained::Restart(reconnecting)
    &&& call_ensures(Reconnecting::<C>::connect, (&reconnecting,), calls.2)
}

/// The same holds over a whole reconnect, which takes one number as well: an
/// operation that is taken after it gets the number after the one that it would have
/// got before.
pub proof fn law_reconnect_takes_one_number<C: Clone, S>(
    task: BackgroundTask<C>,
    before: &HashMap<usize, RetrySubscription>,
    event: Event,
    states: Seq<Reconnect<C>>,
    ended: Seq<Response>,
    outcomes: Seq<Drained<C>>,
    reconnecting: Reconnecting<C>,
    connection: C,
    plan: ReconnectPlan<C>,
    walk: Seq<Resubscribing<C>>,
    subs: Seq<Resubscription<C>>,
    requests: Seq<SubscribeRequest>,
    connections: Seq<&C>,
    replies: Seq<S>,
    opened: Seq<Resubscribed<C, S>>,
    next: BackgroundTask<C>,
    after: &HashMap<usize, RetrySubscription>,
    one: (Step<C>, Drained<C>, Connect),
    two: (Step<C>, Drained<C>, Connect),
    op: Op,
    instead: Step<C>,
    later: Step<C>,
)
    requires
        reconnect_calls(task, event, states, ended, outcomes, reconnecting, connection, plan),
        resubscribe_calls(plan, walk, subs, requests, connections, replies, opened, next),
        call_ensures(BackgroundTask::<C>::open_subscriptions, (&task,), before),
        call_ensures(BackgroundTask::<C>::open_subscriptions, (&next,), after),
        connects(task, one),
        connects(next, two),
        call_ensures(BackgroundTask::<C>::background_task, (task, Event::Message(Some(op))), instead),
        call_ensures(BackgroundTask::<C>::background_task, (next, Event::Message(Some(op))), later),
    ensures
        two.2.url@ == one.2.url@,
        two.2.ping_interval == one.2.ping_interval,
        instead matches Step::Dispatch(_, a) && later matches Step::Dispatch(_, b) && {
            let n = match a.dispatch {
                Dispatch::Call(call) => call.id,
                Dispatch::Subscription(sub) => sub.id,
            };
            let m = match b.dispatch {
                Dispatch::Call(call) => call.id,
                Dispatch::Subscription(sub) => sub.id,
            };
            &&& n < usize::MAX ==> m == n + 1
            &&& n == usize::MAX ==> m == 0
        },
{
    lemma_plan_wf(reconnecting, connection, plan);
    lemma_walk(
        plan,
        walk,
        subs,
        requests,
        connections,
        replies,
        opened,
        next,
        subs.len() as int,
    );
    lemma_drained(states, ended, outcomes, reconnecting, ended.len() as int);
}

/// A subscription that is opened again is asked for over the wire as its record has
/// it.
pub proof fn law_record_is_asked_for_as_it_is(record: RetrySubscription, request: SubscribeRequest)
    requires
        call_ensures(RetrySubscription::request, (&record,), request),
    ensures
        request.subscribe_method@ == record.subscribe_method@,
        request.params == record.params,
        request.unsubscribe_method@ == record.unsubscribe_method@,
{
}

/// The number that a subscription says that it is opened again under is the number
/// under which its notifications are forwarded.
pub proof fn law_subscription_is_opened_again_under_its_number<C: Clone, S>(
    sub: Resubscription<C>,
    id: usize,
    reply: S,
    opened: Resubscribed<C, S>,
)
    requires
        call_ensures(Resubscription::<C>::id, (&sub,), id),
        call_ensures(
            Resubscription::<C>::resubscribed::<S>,
            (sub, Ok(reply)),
            Ok::<Resubscribed<C, S>, ResubscribeFailed<C>>(opened),
        ),
    ensures
        opened.forward.id == id,
        opened.forward.sub == reply,
{
}

} // verus!
