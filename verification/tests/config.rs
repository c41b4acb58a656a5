use lightning_goats::config::{
    AppConfig, ConfigError, DatabaseConfig, FeederConfig, IpAddress, LightningAddressConfig,
    LightningConfig, ListenAddress, LnurlConfig, NostrConfig, OpenHabConfig, RuntimeMode,
    ServiceConfig, StrikeConfig,
};

const USERS: [&str; 6] = ["herd", "dexter", "rowan", "cosmo", "newton", "nova"];

fn phase1_addresses() -> Vec<LightningAddressConfig> {
    USERS
        .into_iter()
        .map(|user| LightningAddressConfig {
            user: user.to_owned(),
            display_name: if user == "herd" {
                "Lightning Goats".to_owned()
            } else {
                let mut chars = user.chars();
                let first = chars.next().unwrap().to_ascii_uppercase();
                format!("{first}{}", chars.as_str())
            },
            description: format!("Feed the Lightning Goats via {user}"),
            credit_pool: "herd".to_owned(),
            min_sendable_msat: 1_000,
            max_sendable_msat: 1_000_000_000,
        })
        .collect()
}

fn listen(a: u8, b: u8, c: u8, d: u8) -> ListenAddress {
    ListenAddress { ip: IpAddress::V4(a, b, c, d), port: 8787 }
}

fn valid_config() -> AppConfig {
    AppConfig {
        service: ServiceConfig { listen: listen(127, 0, 0, 1), mode: RuntimeMode::Shadow },
        database: DatabaseConfig {
            url: "sqlite:///var/lib/lightning-goats/lightning-goats.db".to_owned(),
        },
        lightning: LightningConfig {
            clnrest_url: "https://127.0.0.1:3010".to_owned(),
            clnrest_ca_certificate: Some("/etc/lightning-goats/clnrest-ca.pem".to_owned()),
            herd_user: "herd".to_owned(),
        },
        strike: Some(StrikeConfig { api_url: "https://api.strike.me/".to_owned() }),
        lnurl: Some(LnurlConfig {
            public_base_url: "https://lightning-goats.com/".to_owned(),
            invoice_expiry_seconds: 300,
        }),
        lightning_address: phase1_addresses(),
        feeder: FeederConfig { threshold_sats: 1_000, inter_feed_delay_seconds: 30 },
        openhab: OpenHabConfig {
            url: "http://127.0.0.1:8080".to_owned(),
            feeder_rule_id: "88bd9ec4de".to_owned(),
            override_item: "FeederOverride".to_owned(),
            temperature_item: Some("AmbientTemperature".to_owned()),
        },
        nostr: NostrConfig {
            nak_path: "/usr/local/bin/nak".to_owned(),
            nak_config_path: "/run/lightning-goats/nak".to_owned(),
            bunker_pubkey: "00".repeat(32),
            relays: vec!["wss://relay.example".to_owned()],
        },
    }
}

#[test]
fn accepts_valid_config() {
    valid_config().validate().unwrap();
}

#[test]
fn canary_actuates_without_enabling_nostr() {
    assert!(RuntimeMode::Canary.feeder_enabled());
    assert!(!RuntimeMode::Canary.nostr_enabled());
}

#[test]
fn rejects_public_listener() {
    let mut config = valid_config();
    config.service.listen = listen(0, 0, 0, 0);
    assert!(config.validate().is_err());
}

#[test]
fn rejects_noncanonical_herd_user() {
    let mut config = valid_config();
    config.lightning.herd_user = "Herd".to_owned();
    assert!(config.validate().is_err());
}

#[test]
fn rejects_insecure_strike_api_url() {
    let mut config = valid_config();
    config.strike.as_mut().unwrap().api_url = "http://api.strike.me/".to_owned();
    assert!(config.validate().is_err());
}

#[test]
fn rejects_missing_required_goat_address() {
    let mut config = valid_config();
    config.lightning_address.retain(|address| address.user != "nova");
    assert!(config.validate().is_err());
}

#[test]
fn rejects_duplicate_goat_address() {
    let mut config = valid_config();
    config.lightning_address.push(config.lightning_address[0].clone());
    assert!(config.validate().is_err());
}

#[test]
fn rejects_non_herd_credit_pool_in_phase1() {
    let mut config = valid_config();
    config.lightning_address[1].credit_pool = "dexter".to_owned();
    assert!(config.validate().is_err());
}

#[test]
fn rejects_zero_threshold() {
    let mut config = valid_config();
    config.feeder.threshold_sats = 0;
    assert!(config.validate().is_err());
}

#[test]
fn rejects_non_file_sqlite_database() {
    let mut config = valid_config();
    config.database.url = "sqlite::memory:".to_owned();
    assert!(config.validate().is_err());
}

#[test]
fn rejects_insecure_nostr_relay() {
    let mut config = valid_config();
    config.nostr.relays = vec!["ws://relay.example".to_owned()];
    assert!(config.validate().is_err());
}

#[test]
fn runtime_modes_gate_actuation_and_publication() {
    assert!(!RuntimeMode::Shadow.feeder_enabled());
    assert!(!RuntimeMode::Shadow.nostr_enabled());
    assert!(RuntimeMode::Active.feeder_enabled());
    assert!(RuntimeMode::Active.nostr_enabled());
    assert_eq!(RuntimeMode::Canary.as_str(), "canary");
}

#[test]
fn ipv6_loopback_listener_is_accepted() {
    let mut config = valid_config();
    config.service.listen = ListenAddress { ip: IpAddress::V6(0, 0, 0, 0, 0, 0, 0, 1), port: 1 };
    assert!(config.validate().is_ok());
    assert!(!IpAddress::V4(10, 0, 0, 1).is_loopback());
    assert!(IpAddress::V4(127, 9, 9, 9).is_loopback());
}

#[test]
fn invalid_lnurl_expiry_and_sendable_range_are_rejected() {
    let mut config = valid_config();
    config.lnurl.as_mut().unwrap().invoice_expiry_seconds = 0;
    assert!(config.validate().is_err());
    let mut config = valid_config();
    config.lightning_address[2].min_sendable_msat = 0;
    assert!(config.validate().is_err());
    let mut config = valid_config();
    config.lightning_address[2].max_sendable_msat = 999;
    assert!(config.validate().is_err());
}

#[test]
fn config_error_is_reported_for_public_listener() {
    let mut config = valid_config();
    config.service.listen = listen(8, 8, 8, 8);
    let err: ConfigError = config.validate().unwrap_err();
    let _ = format!("{err:?}");
}
