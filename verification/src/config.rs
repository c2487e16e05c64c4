//! Configuration surface of the sidecar: node connection parameters and the
//! ordered list of per-peer channel-acceptance entries, with the default
//! values used when no configuration is supplied.

use vstd::prelude::*;

verus! {

/// Connection parameters for the node RPC endpoint.
#[derive(Clone)]
pub struct LndConfig {
    pub macaroon_location: String,
    pub cert_location: String,
    pub host: String,
    pub port: u16,
}

/// One configured whitelist entry: a hex-encoded peer public key and the
/// signed confirmation policy for channels opened by that peer
/// (negative: deny, zero: zero-conf, positive: required confirmation depth).
#[derive(Clone)]
pub struct ChannelAcceptanceParams {
    pub pubkey: String,
    pub confs: i8,
}

/// Full parsed configuration: node connection parameters and the ordered
/// whitelist entries.
#[derive(Clone)]
pub struct Config {
    pub lnd: LndConfig,
    pub channel_acceptance: Vec<ChannelAcceptanceParams>,
}

pub fn default_lnd_macaroon_location() -> (s: String)
    ensures
        s@ == "~/.lnd/data/chain/bitcoin/mainnet/admin.macaroon"@,
{
    String::from_str("~/.lnd/data/chain/bitcoin/mainnet/admin.macaroon")
}

pub fn default_lnd_cert_location() -> (s: String)
    ensures
        s@ == "~/.lnd/tls.cert"@,
{
    String::from_str("~/.lnd/tls.cert")
}

pub fn default_lnd_host() -> (s: String)
    ensures
        s@ == "127.0.0.1"@,
{
    String::from_str("127.0.0.1")
}

pub fn default_lnd_port() -> (p: u16)
    ensures
        p == 9735,
{
    9735
}

pub fn default_empty_string() -> (s: String)
    ensures
        s@ == ""@,
{
    proof {
        reveal_strlit("");
        assert(Seq::<char>::empty() =~= ""@);
    }
    String::new()
}

pub fn default_confs() -> (c: i8)
    ensures
        c == 0,
{
    0
}

impl Default for Config {
    /// The configuration used when no configuration file is present: default
    /// connection parameters and an empty whitelist.
    fn default() -> (cfg: Config)
        ensures
            cfg.lnd.macaroon_location@ == "~/.lnd/data/chain/bitcoin/mainnet/admin.macaroon"@,
            cfg.lnd.cert_location@ == "~/.lnd/tls.cert"@,
            cfg.lnd.host@ == "127.0.0.1"@,
            cfg.lnd.port == 9735,
            cfg.channel_acceptance@.len() == 0,
    {
        Config {
            lnd: LndConfig {
                macaroon_location: default_lnd_macaroon_location(),
                cert_location: default_lnd_cert_location(),
                host: default_lnd_host(),
                port: default_lnd_port(),
            },
            channel_acceptance: Vec::new(),
        }
    }
}

} // verus!
