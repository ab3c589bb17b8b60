//! Minimal transport configuration: plaintext connections with the SDK's own
//! reconnect settings.

use vstd::prelude::*;
use vstd::string::*;

use crate::solace::config::broker_url;
use crate::solace::config::write_url;

verus! {

/// Transport configuration for the Solace input connector.
#[derive(Debug, Clone)]
pub struct SolaceInputConfig {
    /// Broker hostname (no scheme, no port).
    pub host: String,
    /// SMF port (default: 55555).
    pub port: u16,
    /// Solace message VPN name.
    pub vpn: String,
    /// Client username.
    pub username: String,
    /// Client password.
    pub password: String,
    /// Durable queue name to bind to.
    pub queue: String,
    /// Flow window size: how many unacknowledged messages the broker buffers
    /// client-side.
    pub window_size: u32,
    /// Topic decomposition pattern with `{name}` placeholders.
    pub topic_pattern: Option<String>,
}

impl SolaceInputConfig {
    /// Full SMF URL passed to the Solace C SDK, e.g. `tcp://localhost:55555`.
    pub fn smf_url(&self) -> (url: String)
        ensures
            url@ == broker_url(false, self.host@, self.port),
    {
        write_url(false, self.host.as_str(), self.port)
    }
}

/// Transport configuration for the Solace output connector.
#[derive(Debug, Clone)]
pub struct SolaceOutputConfig {
    /// Broker hostname (no scheme, no port).
    pub host: String,
    /// SMF port (default: 55555).
    pub port: u16,
    /// Solace message VPN name.
    pub vpn: String,
    /// Client username.
    pub username: String,
    /// Client password.
    pub password: String,
    /// Destination topic template. Static topics are used as-is; `{field}`
    /// placeholders derive the topic from the serialized record.
    pub topic: String,
    /// Delivery mode (default: direct).
    pub delivery_mode: OutputDeliveryMode,
}

/// Delivery mode of the output connector.
#[derive(Debug, Clone, Copy, PartialEq, Eq, Structural)]
pub enum OutputDeliveryMode {
    Direct,
    Persistent,
}

impl Default for OutputDeliveryMode {
    fn default() -> (mode: Self)
        ensures
            mode == OutputDeliveryMode::Direct,
    {
        OutputDeliveryMode::Direct
    }
}

impl SolaceOutputConfig {
    /// Full SMF URL passed to the Solace C SDK, e.g. `tcp://localhost:55555`.
    pub fn smf_url(&self) -> (url: String)
        ensures
            url@ == broker_url(false, self.host@, self.port),
    {
        write_url(false, self.host.as_str(), self.port)
    }
}

} // verus!
