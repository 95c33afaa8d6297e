//! The client's side: handing operations to the background task.

use crate::background::BackgroundTask;
use crate::channel::{answer_channel, message_channel, Halves, MessageSender, SenderState};
use crate::connect::PingConfig;
use crate::counter::{CounterState, ReconnectCounter};
use crate::types::{MethodResult, Op, RpcError, RpcParams, SubscriptionResult};
use serde_json::value::RawValue;
use tokio::sync::mpsc::UnboundedReceiver;
use tokio::sync::oneshot;
use vstd::prelude::*;

verus! {

/// JSON-RPC client that reconnects automatically and may lose subscription
/// notifications when it reconnects.
pub struct ReconnectingWsClient {
    /// Where the background task takes operations from.
    pub tx: MessageSender<Op>,
    /// The count of reconnects, which the background task counts.
    pub reconnect_cnt: ReconnectCounter,
}

/// A new client and what its background task needs.
pub struct Started<C> {
    pub client: ReconnectingWsClient,
    /// The background task, with the first connection.
    pub task: BackgroundTask<C>,
    /// Where the client's operations arrive.
    pub rx: UnboundedReceiver<Op>,
}

/// An operation that was handed to the background task.
#[verifier::reject_recursive_types(T)]
pub struct Submitted<T> {
    /// The channel for the answer.
    pub channel: Halves<oneshot::Sender<T>, oneshot::Receiver<T>>,
    /// Where the answer arrives, unless the background task is gone.
    pub reply: Result<oneshot::Receiver<T>, RpcError>,
}

impl RpcError {
    /// The error that the background task is gone.
    pub open spec fn is_client_dropped(self) -> bool {
        self matches RpcError::Custom(text) && text@ == "Client is dropped"@
    }
}

/// The error that the background task is gone.
fn client_dropped() -> (r: RpcError)
    ensures
        r.is_client_dropped(),
{
    RpcError::Custom("Client is dropped".to_string())
}

impl<T> Submitted<T> {
    /// `op`, once, and nothing else went through the client's handle `tx`, which
    /// then is `next`; and there is an answer to wait for exactly if it was taken.
    pub open spec fn submits(self, tx: SenderState<Op>, next: SenderState<Op>, op: Op) -> bool {
        &&& tx.sends(op, next)
        &&& if next.last_taken() {
            self.reply == Ok::<oneshot::Receiver<T>, RpcError>(self.channel.receiver())
        } else {
            self.reply matches Err(err) && err.is_client_dropped()
        }
    }
}

impl Submitted<MethodResult> {
    /// A call that answers through the channel was submitted, once, and nothing
    /// else.
    pub open spec fn submits_call(
        self,
        tx: SenderState<Op>,
        next: SenderState<Op>,
        method: String,
        params: RpcParams,
    ) -> bool {
        self.submits(tx, next, Op::Call { method, params, send_back: self.channel.sender() })
    }
}

impl Submitted<SubscriptionResult> {
    /// A subscription that answers through the channel was submitted, once, and
    /// nothing else.
    pub open spec fn submits_subscription(
        self,
        tx: SenderState<Op>,
        next: SenderState<Op>,
        subscribe_method: String,
        params: RpcParams,
        unsubscribe_method: String,
    ) -> bool {
        self.submits(
            tx,
            next,
            Op::Subscription {
                subscribe_method,
                params,
                unsubscribe_method,
                send_back: self.channel.sender(),
            },
        )
    }
}

/// Takes what the client waited for: the answer, or the news that the background
/// task is gone and will not answer.
pub fn reply<T>(
    received: Result<Result<T, RpcError>, oneshot::error::RecvError>,
) -> (r: Result<T, RpcError>)
    ensures
        match received {
            Ok(answer) => r == answer,
            Err(_) => r matches Err(err) && err.is_client_dropped(),
        },
{
    match received {
        Ok(answer) => answer,
        Err(_) => Err(client_dropped()),
    }
}

impl ReconnectingWsClient {
    /// Takes whether the first connection, to `url` and with these pings, was set
    /// up. If it was, there is a client with a channel to its background task; the
    /// two share the count of reconnects, and there was none yet.
    pub fn new<C>(
        url: String,
        ping_config: PingConfig,
        connected: Result<C, RpcError>,
    ) -> (r: Result<Started<C>, RpcError>)
        ensures
            match connected {
                Ok(connection) => {
                    &&& r matches Ok(started)
                    &&& started.client.tx@ == SenderState::fresh(started.rx)
                    &&& started.task@.is_new()
                    &&& started.task@.connection == connection
                    &&& started.task@.url == url@
                    &&& started.task@.ping_config == ping_config
                    &&& started.task@.reconnect_cnt == CounterState::fresh(
                        started.task@.reconnect_cnt.cell,
                    ).share()
                    &&& started.client.reconnect_cnt@ == CounterState::other(
                        started.task@.reconnect_cnt.cell,
                    )
                },
                Err(err) => r == Err::<Started<C>, RpcError>(err),
            },
    {
        let (tx, rx) = message_channel();
        match connected {
            Ok(connection) => {
                let mut reconnect_cnt = ReconnectCounter::new();
                let client = ReconnectingWsClient { tx, reconnect_cnt: reconnect_cnt.share() };
                let task = BackgroundTask::new(connection, url, ping_config, reconnect_cnt);
                Ok(Started { client, task, rx })
            },
            Err(err) => Err(err),
        }
    }

    /// One more client of the same background task, with the same count.
    pub fn share(&mut self) -> (r: ReconnectingWsClient)
        ensures
            final(self).tx@ == old(self).tx@.share(),
            final(self).reconnect_cnt@ == old(self).reconnect_cnt@.share(),
            r.tx@ == SenderState::fresh(old(self).tx@.receiver),
            r.reconnect_cnt@ == CounterState::other(old(self).reconnect_cnt@.cell),
    {
        ReconnectingWsClient { tx: self.tx.share(), reconnect_cnt: self.reconnect_cnt.share() }
    }

    /// Asks for a call of `method`, where `params` is what the parameters
    /// serialised to.
    pub fn request(
        &mut self,
        method: String,
        params: Result<Option<Box<RawValue>>, RpcError>,
    ) -> (r: Result<Submitted<MethodResult>, RpcError>)
        ensures
            match params {
                Ok(raw) => {
                    &&& r matches Ok(s)
                    &&& s.submits_call(old(self).tx@, final(self).tx@, method, RpcParams(raw))
                },
                Err(err) => {
                    &&& r == Err::<Submitted<MethodResult>, RpcError>(err)
                    &&& final(self).tx@ == old(self).tx@
                },
            },
            final(self).reconnect_cnt@ == old(self).reconnect_cnt@,
    {
        match params {
            Ok(raw) => Ok(self.inner_request(method, RpcParams(raw))),
            Err(err) => Err(err),
        }
    }

    /// Asks for a call of `method`.
    pub fn inner_request(&mut self, method: String, params: RpcParams) -> (r: Submitted<MethodResult>)
        ensures
            r.submits_call(old(self).tx@, final(self).tx@, method, params),
            final(self).reconnect_cnt@ == old(self).reconnect_cnt@,
    {
        let (tx, rx, channel) = answer_channel();
        let taken = self.tx.send(Op::Call { method, params, send_back: tx });
        let reply = if taken {
            Ok(rx)
        } else {
            Err(client_dropped())
        };
        Submitted { channel, reply }
    }

    /// Asks for a subscription, where `params` is what the parameters serialised
    /// to.
    pub fn subscribe(
        &mut self,
        subscribe_method: String,
        params: Result<Option<Box<RawValue>>, RpcError>,
        unsubscribe_method: String,
    ) -> (r: Result<Submitted<SubscriptionResult>, RpcError>)
        ensures
            match params {
                Ok(raw) => {
                    &&& r matches Ok(s)
                    &&& s.submits_subscription(
                        old(self).tx@,
                        final(self).tx@,
                        subscribe_method,
                        RpcParams(raw),
                        unsubscribe_method,
                    )
                },
                Err(err) => {
                    &&& r == Err::<Submitted<SubscriptionResult>, RpcError>(err)
                    &&& final(self).tx@ == old(self).tx@
                },
            },
            final(self).reconnect_cnt@ == old(self).reconnect_cnt@,
    {
        match params {
            Ok(raw) => Ok(
                self.inner_subscribe(subscribe_method, RpcParams(raw), unsubscribe_method),
            ),
            Err(err) => Err(err),
        }
    }

    /// Asks for a subscription.
    pub fn inner_subscribe(
        &mut self,
        subscribe_method: String,
        params: RpcParams,
        unsubscribe_method: String,
    ) -> (r: Submitted<SubscriptionResult>)
        ensures
            r.submits_subscription(
                old(self).tx@,
                final(self).tx@,
                subscribe_method,
                params,
                unsubscribe_method,
            ),
            final(self).reconnect_cnt@ == old(self).reconnect_cnt@,
    {
        let (tx, rx, channel) = answer_channel();
        let op = Op::Subscription { subscribe_method, params, unsubscribe_method, send_back: tx };
        let taken = self.tx.send(op);
        let reply = if taken {
            Ok(rx)
        } else {
            Err(client_dropped())
        };
        Submitted { channel, reply }
    }

    /// How often the connection was set up anew: the count as it is now.
    pub fn retry_count(&mut self) -> (r: usize)
        ensures
            final(self).reconnect_cnt@ == old(self).reconnect_cnt@.read(r),
            old(self).reconnect_cnt@.sole ==> r == old(self).reconnect_cnt@.count(),
            final(self).tx@ == old(self).tx@,
    {
        self.reconnect_cnt.get()
    }
}

/// Every operation that is submitted reaches the channel of the background task
/// once, behind those that were submitted before it through the same client, and
/// there is an answer to wait for exactly if the background task takes it.
pub proof fn law_operation_is_submitted_once<T>(
    submitted: Submitted<T>,
    tx: SenderState<Op>,
    next: SenderState<Op>,
    op: Op,
)
    requires
        submitted.submits(tx, next, op),
    ensures
        next.messages() == tx.messages().push(op),
        next.receiver == tx.receiver,
        next.shares == tx.shares,
        submitted.reply is Ok <==> next.last_taken(),
        submitted.reply matches Ok(rx) ==> rx == submitted.channel.receiver(),
{
    assert(next.messages() =~= tx.messages().push(op));
}

} // verus!
