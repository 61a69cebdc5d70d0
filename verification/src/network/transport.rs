//! Transport settings.

use vstd::prelude::*;

verus! {

/// Which transports to use, and how long to wait for a connection.
#[derive(Debug, Clone)]
pub struct TransportConfig {
    /// Enable QUIC
    pub enable_quic: bool,
    /// Enable TCP
    pub enable_tcp: bool,
    /// Connection timeout in seconds
    pub connection_timeout: u64,
}

impl Default for TransportConfig {
    /// QUIC and TCP, 30 s timeout.
    fn default() -> (r: Self)
        ensures
            r.enable_quic,
            r.enable_tcp,
            r.connection_timeout == 30,
    {
        TransportConfig { enable_quic: true, enable_tcp: true, connection_timeout: 30 }
    }
}

} // verus!
