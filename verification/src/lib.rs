//! Policy sidecar logic for a Lightning Network node: a per-peer whitelist,
//! the pure channel-acceptance decision engine, the zero-conf query/reply
//! protocol carried over custom peer messages, and the retry state machine
//! that supervises the long-lived RPC streams.

use vstd::prelude::*;

pub mod config;
pub mod decision;
pub mod peer;
pub mod session;
pub mod supervisor;
pub mod text;
pub mod whitelist;
pub mod zeroconf;

pub use config::{
    ChannelAcceptanceParams, Config, LndConfig, default_confs, default_empty_string,
    default_lnd_cert_location, default_lnd_host, default_lnd_macaroon_location, default_lnd_port,
};

verus! {

/// Confirmation policy applied to peers that have no whitelist entry.
pub const DEFAULT_UNKNOWN_CONFS: i8 = 6;

} // verus!
