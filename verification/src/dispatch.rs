//! Dispatching one operation: what goes out, and what comes of the reply.

use crate::channel::{answer, message_channel, Handed, MessageSender, SenderState};
use crate::types::{
    CallRequest, Closed, MethodResult, Notification, Op, Response, RetrySubscription, RpcError, RpcParams,
    SubscribeRequest, SubscriptionResult, SubscriptionState,
};
use tokio::sync::oneshot;
use vstd::prelude::*;

verus! {

/// A call to transmit. Its reply is for `settle`.
#[derive(Debug)]
pub struct PendingCall {
    pub id: usize,
    pub method: String,
    pub params: RpcParams,
    pub send_back: oneshot::Sender<MethodResult>,
}

/// A subscription request to transmit. Its reply is for `settle`.
#[derive(Debug)]
pub struct PendingSubscription {
    pub id: usize,
    pub subscribe_method: String,
    pub params: RpcParams,
    pub unsubscribe_method: String,
    pub send_back: oneshot::Sender<SubscriptionResult>,
}

/// A request to transmit.
#[derive(Debug)]
pub enum Dispatch {
    Call(PendingCall),
    Subscription(PendingSubscription),
}

/// A request with the connection to transmit it over.
pub struct Transmit<C> {
    pub connection: C,
    pub dispatch: Dispatch,
}

/// The notifications of `sub`, the server's side of the subscription `id`, are to
/// be forwarded to `tx`.
pub struct Forward<S> {
    pub sub: S,
    pub tx: MessageSender<Notification>,
    pub id: usize,
}

/// What came of a call.
pub struct SettledCall {
    pub response: Response,
    /// What the caller was sent, if anything.
    pub answer: Option<Handed<oneshot::Sender<MethodResult>, MethodResult>>,
}

/// What came of a subscription request.
pub struct SettledSubscription<S> {
    pub response: Response,
    /// What the caller was sent, if anything.
    pub answer: Option<Handed<oneshot::Sender<SubscriptionResult>, SubscriptionResult>>,
    /// Where the notifications go, if the subscription was opened.
    pub forward: Option<Forward<S>>,
}

impl PendingCall {
    /// The operation that this request carries out.
    pub open spec fn op(self) -> Op {
        Op::Call { method: self.method, params: self.params, send_back: self.send_back }
    }

    /// `r` is what comes of the call with this reply: the caller is sent the
    /// reply, unless the connection was closed.
    pub open spec fn settles(self, reply: MethodResult, r: SettledCall) -> bool {
        match reply {
            Err(RpcError::RestartNeeded(_)) => r.handed_back(self),
            _ => r.answered(self, reply),
        }
    }
}

impl PendingSubscription {
    /// `r` is what comes of the request with this reply: the subscription is
    /// open, or the subscriber is sent the error, unless the connection was
    /// closed.
    pub open spec fn settles<S>(
        self,
        reply: Result<S, RpcError>,
        r: SettledSubscription<S>,
    ) -> bool {
        match reply {
            Ok(opened) => r.opened(self, opened),
            Err(RpcError::RestartNeeded(_)) => r.handed_back(self),
            Err(err) => r.refused(self, err),
        }
    }

    /// The operation that this request carries out.
    pub open spec fn op(self) -> Op {
        Op::Subscription {
            subscribe_method: self.subscribe_method,
            params: self.params,
            unsubscribe_method: self.unsubscribe_method,
            send_back: self.send_back,
        }
    }

    /// The subscription to open again after a reconnect, with its notifications
    /// going to `tx`.
    pub open spec fn retry(self, tx: SenderState<Notification>) -> SubscriptionState {
        SubscriptionState {
            tx,
            subscribe_method: self.subscribe_method,
            params: self.params,
            unsubscribe_method: self.unsubscribe_method,
        }
    }
}

impl Dispatch {
    /// The operation that this request carries out.
    pub open spec fn op(self) -> Op {
        match self {
            Dispatch::Call(call) => call.op(),
            Dispatch::Subscription(sub) => sub.op(),
        }
    }

    /// The number that the operation was dispatched under.
    pub open spec fn id(self) -> usize {
        match self {
            Dispatch::Call(call) => call.id,
            Dispatch::Subscription(sub) => sub.id,
        }
    }
}

impl<C: Clone> Transmit<C> {
    /// The request carries out `op` under the number `id`, over a clone of
    /// `connection`.
    pub open spec fn transmits(self, op: Op, id: usize, connection: C) -> bool {
        &&& self.dispatch.op() == op
        &&& self.dispatch.id() == id
        &&& cloned(connection, self.connection)
    }
}

impl SettledCall {
    /// The call is over and its caller was sent `value`.
    pub open spec fn answered(self, call: PendingCall, value: MethodResult) -> bool {
        &&& self.response matches Ok(None)
        &&& self.answer matches Some(handed)
        &&& handed.is(call.send_back, value)
    }

    /// The call was not carried out: it is handed back whole and its caller was
    /// sent nothing.
    pub open spec fn handed_back(self, call: PendingCall) -> bool {
        &&& self.response == Response::Err(Closed { op: call.op(), id: call.id })
        &&& self.answer is None
    }
}

impl<S> SettledSubscription<S> {
    /// The subscription is open, with a new channel that nothing was sent
    /// through: the notifications of `opened` go to one handle on its sending
    /// half, the record keeps the other, and the subscriber was sent the
    /// receiving half.
    pub open spec fn opened(self, sub: PendingSubscription, opened: S) -> bool {
        &&& self.forward matches Some(forward)
        &&& forward.sub == opened
        &&& forward.id == sub.id
        &&& forward.tx@ == SenderState::fresh(forward.tx@.receiver)
        &&& self.response matches Ok(Some((id, record)))
        &&& id == sub.id
        &&& record@ == sub.retry(SenderState::fresh(forward.tx@.receiver).share())
        &&& self.answer matches Some(handed)
        &&& handed.is(sub.send_back, Ok(forward.tx@.receiver))
    }

    /// The request failed and its subscriber was sent `err`.
    pub open spec fn refused(self, sub: PendingSubscription, err: RpcError) -> bool {
        &&& self.response matches Ok(None)
        &&& self.answer matches Some(handed)
        &&& handed.is(sub.send_back, Err(err))
        &&& self.forward is None
    }

    /// The request was not carried out: it is handed back whole and its
    /// subscriber was sent nothing.
    pub open spec fn handed_back(self, sub: PendingSubscription) -> bool {
        &&& self.response == Response::Err(Closed { op: sub.op(), id: sub.id })
        &&& self.answer is None
        &&& self.forward is None
    }
}

/// Dispatches `op` under the number `id`: the request to transmit, over
/// `connection`.
pub fn dispatch_call<C: Clone>(connection: &C, op: Op, id: usize) -> (r: Transmit<C>)
    ensures
        r.transmits(op, id, *connection),
{
    let dispatch = match op {
        Op::Call { method, params, send_back } => Dispatch::Call(
            PendingCall { id, method, params, send_back },
        ),
        Op::Subscription { subscribe_method, params, unsubscribe_method, send_back } => {
            Dispatch::Subscription(
                PendingSubscription { id, subscribe_method, params, unsubscribe_method, send_back },
            )
        },
    };
    Transmit { connection: connection.clone(), dispatch }
}

impl PendingCall {
    /// What to put on the wire.
    pub fn request(&self) -> (r: CallRequest<'_>)
        ensures
            r.method@ == self.method@,
            r.params == self.params,
    {
        CallRequest { method: self.method.as_str(), params: self.params.clone() }
    }

    /// Takes the reply to the call. The caller is sent the reply, unless the
    /// connection was closed: then the call is handed back for another try.
    pub fn settle(self, reply: MethodResult) -> (r: SettledCall)
        ensures
            self.settles(reply, r),
    {
        match reply {
            Err(RpcError::RestartNeeded(_)) => SettledCall {
                response: Err(
                    Closed {
                        op: Op::Call {
                            method: self.method,
                            params: self.params,
                            send_back: self.send_back,
                        },
                        id: self.id,
                    },
                ),
                answer: None,
            },
            reply => SettledCall { response: Ok(None), answer: Some(answer(self.send_back, reply)) },
        }
    }
}

impl PendingSubscription {
    /// What to put on the wire.
    pub fn request(&self) -> (r: SubscribeRequest<'_>)
        ensures
            r.subscribe_method@ == self.subscribe_method@,
            r.params == self.params,
            r.unsubscribe_method@ == self.unsubscribe_method@,
    {
        SubscribeRequest {
            subscribe_method: self.subscribe_method.as_str(),
            params: self.params.clone(),
            unsubscribe_method: self.unsubscribe_method.as_str(),
        }
    }

    /// Takes the reply to the request. Where the server opened the subscription
    /// the subscriber is sent the receiving half of a new channel; where the
    /// connection was closed the request is handed back for another try; any
    /// other error goes to the subscriber.
    pub fn settle<S>(self, reply: Result<S, RpcError>) -> (r: SettledSubscription<S>)
        ensures
            self.settles(reply, r),
    {
        match reply {
            Ok(opened) => {
                let (mut tx, rx) = message_channel();
                let forward = Forward { sub: opened, tx: tx.share(), id: self.id };
                let sub = RetrySubscription {
                    tx,
                    subscribe_method: self.subscribe_method,
                    params: self.params,
                    unsubscribe_method: self.unsubscribe_method,
                };
                SettledSubscription {
                    response: Ok(Some((self.id, sub))),
                    answer: Some(answer(self.send_back, Ok(rx))),
                    forward: Some(forward),
                }
            },
            Err(RpcError::RestartNeeded(_)) => SettledSubscription {
                response: Err(
                    Closed {
                        op: Op::Subscription {
                            subscribe_method: self.subscribe_method,
                            params: self.params,
                            unsubscribe_method: self.unsubscribe_method,
                            send_back: self.send_back,
                        },
                        id: self.id,
                    },
                ),
                answer: None,
                forward: None,
            },
            Err(err) => SettledSubscription {
                response: Ok(None),
                answer: Some(answer(self.send_back, Err(err))),
                forward: None,
            },
        }
    }
}

/// A call is either answered or handed back, and never both.
pub proof fn law_call_is_answered_or_handed_back(
    call: PendingCall,
    reply: MethodResult,
    settled: SettledCall,
)
    requires
        call.settles(reply, settled),
    ensures
        settled.answer is Some <==> settled.response is Ok,
        settled.handed_back(call) <==> !(settled.answer is Some),
{
}

/// A subscription request is either answered or handed back, and never both.
pub proof fn law_subscription_is_answered_or_handed_back<S>(
    sub: PendingSubscription,
    reply: Result<S, RpcError>,
    settled: SettledSubscription<S>,
)
    requires
        sub.settles(reply, settled),
    ensures
        settled.answer is Some <==> settled.response is Ok,
        settled.handed_back(sub) <==> !(settled.answer is Some),
{
}

/// No caller is ever told that the connection was closed.
pub proof fn law_caller_never_sees_a_closed_connection(
    call: PendingCall,
    reply: MethodResult,
    settled: SettledCall,
)
    requires
        call.settles(reply, settled),
    ensures
        settled.answer matches Some(handed) ==> !(handed.message() matches Err(
            RpcError::RestartNeeded(_),
        )),
{
}

/// No subscriber is ever told that the connection was closed.
pub proof fn law_subscriber_never_sees_a_closed_connection<S>(
    sub: PendingSubscription,
    reply: Result<S, RpcError>,
    settled: SettledSubscription<S>,
)
    requires
        sub.settles(reply, settled),
    ensures
        settled.answer matches Some(handed) ==> !(handed.message() matches Err(
            RpcError::RestartNeeded(_),
        )),
{
}

/// A call that is dispatched and handed back is the operation that it was, under
/// the same number, and can be dispatched again as if for the first time.
pub proof fn law_handing_back_a_call_undoes_dispatching(
    op: Op,
    id: usize,
    call: PendingCall,
    reason: String,
    settled: SettledCall,
)
    requires
        Dispatch::Call(call).op() == op,
        Dispatch::Call(call).id() == id,
        call.settles(Err(RpcError::RestartNeeded(reason)), settled),
    ensures
        settled.response == Response::Err(Closed { op, id }),
{
}

/// A subscription request that is dispatched and handed back is the operation
/// that it was, under the same number, and can be dispatched again as if for the
/// first time.
pub proof fn law_handing_back_a_subscription_undoes_dispatching<S>(
    op: Op,
    id: usize,
    sub: PendingSubscription,
    reason: String,
    settled: SettledSubscription<S>,
)
    requires
        Dispatch::Subscription(sub).op() == op,
        Dispatch::Subscription(sub).id() == id,
        sub.settles(Err(RpcError::RestartNeeded(reason)), settled),
    ensures
        settled.response == Response::Err(Closed { op, id }),
{
}

/// An operation that is dispatched again under its number is the request that it
/// was the first time.
pub proof fn law_same_operation_is_the_same_request(first: Dispatch, again: Dispatch)
    requires
        first.op() == again.op(),
        first.id() == again.id(),
    ensures
        first == again,
{
}

} // verus!
