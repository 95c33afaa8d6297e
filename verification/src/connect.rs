//! How a connection is set up.

use std::time::Duration;
use vstd::prelude::*;

verus! {

/// Websocket ping/pong configuration.
#[derive(Debug, Clone, Copy)]
pub enum PingConfig {
    /// Disabled.
    Disabled,
    /// Pings are sent out at the specified interval.
    Enabled(Duration),
}

impl PingConfig {
    /// The time between two pings, if any are sent.
    pub open spec fn interval(self) -> Option<Duration> {
        match self {
            PingConfig::Disabled => None,
            PingConfig::Enabled(dur) => Some(dur),
        }
    }
}

/// A connection to set up.
#[derive(Debug)]
pub struct Connect<'a> {
    pub url: &'a str,
    /// The time between two pings. Without one the transport does not ping.
    pub ping_interval: Option<Duration>,
}

/// The connection to set up to `url`.
pub fn ws_client(url: &str, ping_config: PingConfig) -> (r: Connect<'_>)
    ensures
        r.url == url,
        r.ping_interval == ping_config.interval(),
{
    if let PingConfig::Enabled(dur) = ping_config {
        Connect { url, ping_interval: Some(dur) }
    } else {
        Connect { url, ping_interval: None }
    }
}

} // verus!
