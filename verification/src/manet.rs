//! MANET sync over a Reticulum mesh (not yet able to send), and the choice
//! of transport from configuration.
use vstd::prelude::*;
use crate::error::Error;
use crate::text::str_eq;

verus! {

/// MANET transport via a Reticulum mesh network (not yet able to send).
pub struct ManetSyncTransport {
    /// Reticulum destination hash of the hub node
    pub hub_destination: String,
    /// Path to Reticulum config directory
    pub reticulum_config: String,
}

impl ManetSyncTransport {
    pub fn new(hub_destination: &str, reticulum_config: &str) -> (t: Self)
        ensures
            t.hub_destination@ == hub_destination@,
            t.reticulum_config@ == reticulum_config@,
    {
        ManetSyncTransport { hub_destination: hub_destination.to_owned(), reticulum_config: reticulum_config.to_owned() }
    }

    /// What a push or a pull answers: the transport cannot send yet.
    pub fn unavailable(&self) -> (e: Error)
        ensures
            e matches Error::Other(m) && m@
                == "MANET transport not yet implemented — use HttpSyncTransport over VPN"@,
    {
        Error::Other("MANET transport not yet implemented — use HttpSyncTransport over VPN".to_owned())
    }
}

/// The transport a configuration string selects.
#[derive(Debug, Clone, Copy, PartialEq, Eq, Structural)]
pub enum TransportKind {
    /// No-op transport.
    Null,
    /// HTTP to the hub.
    Http,
}

/// "null" selects the no-op transport; "http", "manet" (whose transport
/// cannot send yet) and anything else select HTTP.
pub fn transport_kind(transport_type: &str) -> (k: TransportKind)
    ensures
        k == (if transport_type@ == "null"@ {
            TransportKind::Null
        } else {
            TransportKind::Http
        }),
{
    if str_eq(transport_type, "null") {
        TransportKind::Null
    } else {
        TransportKind::Http
    }
}

} // verus!
