//! SIGINT collection and aggregation for a tactical operations center:
//! parsing of sensor output (hackrf_sweep, CoreWLAN, dump1090), the
//! Meshtastic serial framing, the hub's HTTP routing and record checks,
//! per-node rate limiting, Ed25519 signing of tile batches, and the
//! desktop application's decisions around them, with their contracts.
use vstd::prelude::*;

pub mod error;
pub mod text;
pub mod tile;
pub mod wifi;
pub mod ring;
pub mod ratelimit;
pub mod sync;
pub mod manet;
pub mod hub;
pub mod dimension;
pub mod messaging;
pub mod nodes;
pub mod crypto;
pub mod meshtastic;
pub mod rf;
pub mod sweeper;
pub mod location;
pub mod gps;
pub mod cctv;
pub mod privacy;
pub mod adsb;
pub mod sanitize;
pub mod collector;
pub mod sidecar;
pub mod wifi_ui;
pub mod merge;
