//! What travels between a client and its background task.

use crate::channel::{clone_raw, MessageSender, SenderState};
use serde_json::value::RawValue;
use tokio::sync::mpsc::UnboundedReceiver;
use tokio::sync::oneshot;
use vstd::prelude::*;

verus! {

/// What can go wrong with a call or a subscription.
#[derive(Debug)]
pub enum RpcError {
    /// The connection was closed, for the reason given, and a new one is needed.
    RestartNeeded(String),
    /// An error of this crate or of its user, in words.
    Custom(String),
    /// Any other error of the JSON-RPC client.
    Other(jsonrpsee::core::Error),
}

/// The outcome of a call: the raw JSON of the result, or an error.
pub type MethodResult = Result<Box<RawValue>, RpcError>;

/// What a subscription yields: the raw JSON of a notification, or an error.
pub type Notification = Result<Box<RawValue>, jsonrpsee::core::Error>;

/// The outcome of a subscription: where its notifications arrive, or an error.
pub type SubscriptionResult = Result<UnboundedReceiver<Notification>, RpcError>;

/// The parameters of a call, as raw JSON.
#[derive(Debug)]
pub struct RpcParams(pub Option<Box<RawValue>>);

impl Clone for RpcParams {
    fn clone(&self) -> (r: Self)
        ensures
            r == *self,
    {
        match &self.0 {
            Some(raw) => RpcParams(Some(clone_raw(raw))),
            None => RpcParams(None),
        }
    }
}

impl RpcParams {
    /// The raw JSON to put on the wire.
    pub fn to_rpc_params(self) -> (r: Result<Option<Box<RawValue>>, RpcError>)
        ensures
            r == Ok::<Option<Box<RawValue>>, RpcError>(self.0),
    {
        Ok(self.0)
    }
}

/// What a client asks its background task to do.
#[allow(inconsistent_fields)]
#[derive(Debug)]
pub enum Op {
    /// Make a call and send the outcome back.
    Call {
        method: String,
        params: RpcParams,
        send_back: oneshot::Sender<MethodResult>,
    },
    /// Open a subscription and send back where its notifications arrive.
    Subscription {
        subscribe_method: String,
        params: RpcParams,
        unsubscribe_method: String,
        send_back: oneshot::Sender<SubscriptionResult>,
    },
}

/// What it takes to open a subscription again after a reconnect.
pub struct RetrySubscription {
    /// Where the notifications go.
    pub tx: MessageSender<Notification>,
    pub subscribe_method: String,
    pub params: RpcParams,
    pub unsubscribe_method: String,
}

/// A subscription as its record has it.
#[verifier::ext_equal]
pub struct SubscriptionState {
    pub tx: SenderState<Notification>,
    pub subscribe_method: String,
    pub params: RpcParams,
    pub unsubscribe_method: String,
}

impl View for RetrySubscription {
    type V = SubscriptionState;

    open spec fn view(&self) -> SubscriptionState {
        SubscriptionState {
            tx: self.tx@,
            subscribe_method: self.subscribe_method,
            params: self.params,
            unsubscribe_method: self.unsubscribe_method,
        }
    }
}

impl SubscriptionState {
    /// The record after one more handle was made from its sender.
    pub open spec fn share(self) -> Self {
        SubscriptionState { tx: self.tx.share(), ..self }
    }

    /// The two are one subscription: with the same requests, and with
    /// notifications that arrive at the same receiver. Nothing was sent through
    /// the one record that was not sent through the other.
    pub open spec fn same(self, other: Self) -> bool {
        &&& self.tx.receiver == other.tx.receiver
        &&& self.tx.sent == other.tx.sent
        &&& self.subscribe_method == other.subscribe_method
        &&& self.params == other.params
        &&& self.unsubscribe_method == other.unsubscribe_method
    }
}

/// A record that may be missing, as it stands.
pub open spec fn record_state(record: Option<RetrySubscription>) -> Option<SubscriptionState> {
    match record {
        Some(record) => Some(record@),
        None => None,
    }
}

/// A call to put on the wire.
#[derive(Debug)]
pub struct CallRequest<'a> {
    pub method: &'a str,
    pub params: RpcParams,
}

/// A subscription request to put on the wire.
#[derive(Debug)]
pub struct SubscribeRequest<'a> {
    pub subscribe_method: &'a str,
    pub params: RpcParams,
    pub unsubscribe_method: &'a str,
}

impl RetrySubscription {
    /// What to put on the wire to open the subscription again.
    pub fn request(&self) -> (r: SubscribeRequest<'_>)
        ensures
            r.subscribe_method@ == self.subscribe_method@,
            r.params == self.params,
            r.unsubscribe_method@ == self.unsubscribe_method@,
    {
        SubscribeRequest {
            subscribe_method: self.subscribe_method.as_str(),
            params: self.params.clone(),
            unsubscribe_method: self.unsubscribe_method.as_str(),
        }
    }
}

/// An operation that was not carried out because the connection was closed.
#[derive(Debug)]
pub struct Closed {
    pub op: Op,
    pub id: usize,
}

/// How a dispatched operation ended: carried out, with the subscription that it
/// opened where it did, or handed back for another try.
pub type Response = Result<Option<(usize, RetrySubscription)>, Closed>;

} // verus!
