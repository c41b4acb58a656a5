use lightning_goats::config::NostrConfig;
use lightning_goats::nostr::{
    build_bunker_uri, check_nak_input, check_nak_output, check_published_echo, nak_settings,
    validate_hex, validate_signed_event, NostrError, SignedNostrEvent, MAX_NAK_INPUT,
};

fn config() -> NostrConfig {
    NostrConfig {
        nak_path: "/usr/local/bin/nak".to_owned(),
        nak_config_path: "/run/lightning-goats/nak".to_owned(),
        bunker_pubkey: "ab".repeat(32),
        relays: vec!["wss://relay-one.example".to_owned(), "wss://relay-two.example".to_owned()],
    }
}

fn event() -> SignedNostrEvent {
    SignedNostrEvent {
        id: "01".repeat(32),
        pubkey: "ab".repeat(32),
        created_at: 1,
        kind: 1,
        tags: vec![],
        content: "hello".to_owned(),
        sig: "02".repeat(64),
    }
}

#[test]
fn bunker_uri_contains_each_relay_without_signer_secret() {
    let uri = build_bunker_uri(&config().bunker_pubkey, &config().relays).unwrap();
    let parsed = reqwest::Url::parse(&uri).unwrap();
    assert_eq!(parsed.scheme(), "bunker");
    assert_eq!(parsed.host_str(), Some(config().bunker_pubkey.as_str()));
    let relays: Vec<_> = parsed
        .query_pairs()
        .filter(|(key, _)| key == "relay")
        .map(|(_, value)| value.into_owned())
        .collect();
    assert_eq!(relays, config().relays);
    assert!(!uri.contains("secret="));
}

#[test]
fn validation_requires_expected_project_identity() {
    let event = event();
    validate_signed_event(&event, &"ab".repeat(32)).unwrap();
    assert!(validate_signed_event(&event, &"cd".repeat(32)).is_err());
}

#[test]
fn signed_event_refusals_are_named() {
    let key = "ab".repeat(32);
    assert_eq!(validate_signed_event(&event(), &"cd".repeat(32)), Err(NostrError::PubkeyMismatch));
    let mut e = event();
    e.sig = "zz".repeat(64);
    assert_eq!(validate_signed_event(&e, &key), Err(NostrError::InvalidHex));
    let mut e = event();
    e.created_at = 0;
    assert_eq!(validate_signed_event(&e, &key), Err(NostrError::ZeroCreatedAt));
    let mut e = event();
    e.kind = 4;
    assert_eq!(validate_signed_event(&e, &key), Err(NostrError::UnexpectedKind));
}

#[test]
fn hex_lengths_and_echoes() {
    assert!(validate_hex(&"aB".repeat(2), 4).is_ok());
    assert_eq!(validate_hex("abc", 4), Err(NostrError::InvalidHex));
    let e = event();
    assert_eq!(check_published_echo(&e, &e), Ok(()));
    let mut changed = event();
    changed.content = "other".to_owned();
    assert_eq!(check_published_echo(&changed, &e), Err(NostrError::EchoMismatch));
}

#[test]
fn nak_limits_accept_exact_boundary() {
    assert!(check_nak_input(&"x".repeat(MAX_NAK_INPUT)).is_ok());
    assert_eq!(check_nak_input(&"x".repeat(MAX_NAK_INPUT + 1)), Err(NostrError::InputTooLarge));
    assert!(check_nak_output(10, 10).is_ok());
    assert_eq!(check_nak_output(11, 10), Err(NostrError::OutputTooLarge));
}

#[test]
fn nak_settings_need_a_client_key_and_lowercase_the_project_key() {
    assert_eq!(nak_settings(&config(), " ").err(), Some(NostrError::EmptyClientKey));
    let mut c = config();
    c.bunker_pubkey = "AB".repeat(32);
    let s = nak_settings(&c, "client").unwrap();
    assert_eq!(s.project_pubkey, "ab".repeat(32));
    assert!(s.bunker_uri.starts_with("bunker://"));
}
