//! JSON-RPC WebSocket client that reconnects under the hood: calls that were
//! pending when the connection went down are transmitted again, and open
//! subscriptions are established again.
//!
//! Notifications that the server sends while the connection is down are lost,
//! and it is not possible to know which ones.
//!
//! This crate holds the logic of the client: what is submitted, dispatched,
//! answered, retried, forwarded and opened again, and in what order. It performs
//! no input or output and never waits. Who drives it connects, transmits, waits and
//! retries according to a policy of its own, and hands the outcome in.

pub mod background;
pub mod channel;
pub mod client;
pub mod connect;
pub mod counter;
pub mod dispatch;
pub mod laws;
pub mod reconnect;
pub mod session;
pub mod subscription;
pub mod types;

pub use client::ReconnectingWsClient;
pub use connect::PingConfig;
pub use counter::ReconnectCounter;
pub use types::{
    Closed, MethodResult, Notification, Op, Response, RetrySubscription, RpcError, RpcParams, SubscriptionResult,
};
