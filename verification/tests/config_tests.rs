use channel_acceptor::config::{
    Config, default_confs, default_empty_string, default_lnd_cert_location, default_lnd_host,
    default_lnd_macaroon_location, default_lnd_port,
};

#[test]
fn default_values_match_the_documented_locations() {
    assert_eq!(
        default_lnd_macaroon_location(),
        "~/.lnd/data/chain/bitcoin/mainnet/admin.macaroon"
    );
    assert_eq!(default_lnd_cert_location(), "~/.lnd/tls.cert");
    assert_eq!(default_lnd_host(), "127.0.0.1");
    assert_eq!(default_lnd_port(), 9735);
    assert_eq!(default_empty_string(), "");
    assert_eq!(default_confs(), 0);
}

#[test]
fn default_config_has_empty_whitelist() {
    let cfg = Config::default();
    assert_eq!(cfg.lnd.host, "127.0.0.1");
    assert_eq!(cfg.lnd.port, 9735);
    assert_eq!(
        cfg.lnd.macaroon_location,
        "~/.lnd/data/chain/bitcoin/mainnet/admin.macaroon"
    );
    assert_eq!(cfg.lnd.cert_location, "~/.lnd/tls.cert");
    assert!(cfg.channel_acceptance.is_empty());
}
