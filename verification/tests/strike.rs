use hmac::{Hmac, Mac};
use lightning_goats::config::IpAddress;
use lightning_goats::strike::{
    btc_balance, btc_decimal_to_msat, check_client_config, lowercase_hex, msat_to_btc_decimal,
    retry_delay, validate_hex32, work_retry, StrikeCompletedReceiveEvent, StrikeError,
    StrikeWebhookVerifier, WebhookEvent, COMPLETED_RECEIVE_EVENT,
};
use sha2::Sha256;

fn signed_body(secret: &str, body: &[u8]) -> String {
    let mut mac = Hmac::<Sha256>::new_from_slice(secret.as_bytes()).unwrap();
    mac.update(body);
    hex::encode(mac.finalize().into_bytes())
}

#[test]
fn btc_amount_conversion_is_exact() {
    assert_eq!(msat_to_btc_decimal(2_340_000), "0.00002340000");
    assert_eq!(btc_decimal_to_msat("0.00002340").unwrap(), 2_340_000);
    assert_eq!(btc_decimal_to_msat("1").unwrap(), 100_000_000_000);
    assert!(btc_decimal_to_msat("1.000000000001").is_err());
    assert!(btc_decimal_to_msat("1e-8").is_err());
}

#[test]
fn btc_text_round_trips() {
    for msat in [0u64, 1, 999, 1_000, 2_340_000, 100_000_000_000, 123_456_789_012_345, u64::MAX] {
        assert_eq!(btc_decimal_to_msat(&msat_to_btc_decimal(msat)), Ok(msat));
    }
    assert_eq!(msat_to_btc_decimal(100_000_000_000), "1.00000000000");
    assert_eq!(btc_decimal_to_msat("0.5"), Ok(50_000_000_000));
    assert_eq!(btc_decimal_to_msat(""), Err(StrikeError::BtcAmount));
}

#[test]
fn verifies_webhook_hmac_and_rejects_changes() {
    let verifier = StrikeWebhookVerifier::new("secret".to_owned()).unwrap();
    let body = br#"{"eventType":"receive-request.receive-completed"}"#;
    let signature = signed_body("secret", body);
    verifier.verify_signature(body, &signature).unwrap();
    assert!(verifier.verify_signature(b"different", &signature).is_err());
}

#[test]
fn webhook_signature_refusals_are_named() {
    assert_eq!(StrikeWebhookVerifier::new(String::new()).err(), Some(StrikeError::EmptyWebhookSecret));
    let verifier = StrikeWebhookVerifier::new("secret".to_owned()).unwrap();
    let body = b"{}";
    let signature = signed_body("secret", body);
    assert_eq!(verifier.verify_signature(body, &format!("  {}  ", signature.to_uppercase())), Ok(()));
    assert_eq!(verifier.verify_signature(body, "xyz"), Err(StrikeError::SignatureHex));
    assert_eq!(verifier.verify_signature(body, "abcd"), Err(StrikeError::SignatureLength));
    assert_eq!(
        verifier.verify_signature(body, &signed_body("other", body)),
        Err(StrikeError::SignatureMismatch)
    );
}

#[test]
fn only_v1_completed_receive_events_are_accepted() {
    let verifier = StrikeWebhookVerifier::new("secret".to_owned()).unwrap();
    let mut event = WebhookEvent {
        id: 1,
        event_type: COMPLETED_RECEIVE_EVENT.to_owned(),
        webhook_version: "v1".to_owned(),
        entity_id: 2,
        receive_id: 3,
    };
    assert_eq!(
        verifier.parse_completed_event(&event),
        Ok(StrikeCompletedReceiveEvent { event_id: 1, receive_request_id: 2, receive_id: 3 })
    );
    event.webhook_version = "v2".to_owned();
    assert_eq!(verifier.parse_completed_event(&event), Err(StrikeError::UnsupportedWebhookVersion));
    event.event_type = "invoice.updated".to_owned();
    assert_eq!(verifier.parse_completed_event(&event), Err(StrikeError::UnsupportedEvent));
}

#[test]
fn strike_client_urls_must_be_https_or_loopback() {
    assert_eq!(check_client_config("key", "https://api.strike.me/", None), Ok(false));
    assert_eq!(check_client_config("key", "https://api.strike.me/v1", None), Ok(true));
    assert_eq!(check_client_config(" ", "https://api.strike.me/", None), Err(StrikeError::EmptyApiKey));
    assert_eq!(
        check_client_config("key", "http://api.strike.me/", Some(IpAddress::V4(1, 2, 3, 4))),
        Err(StrikeError::ApiUrlInsecure)
    );
    assert_eq!(
        check_client_config("key", "http://127.0.0.1:8080/", Some(IpAddress::V4(127, 0, 0, 1))),
        Ok(false)
    );
    assert_eq!(
        check_client_config("key", "https://u:p@api.strike.me/", None),
        Err(StrikeError::ApiUrlCredentials)
    );
    assert_eq!(
        check_client_config("key", "https://api.strike.me/?x=1", None),
        Err(StrikeError::ApiUrlExtras)
    );
}

#[test]
fn balance_needs_one_sat_aligned_btc_row() {
    let row = |c: &str, v: Option<&str>| (c.to_owned(), v.map(str::to_owned));
    let b = btc_balance(vec![row("USD", Some("5")), row("BTC", Some("0.00001"))]).unwrap();
    assert_eq!(b.current_sats(), 1_000);
    assert_eq!(btc_balance(vec![row("USD", Some("5"))]).err().map(|_| ()), Some(()));
    assert!(matches!(btc_balance(vec![]), Err(StrikeError::BalanceAbsent)));
    assert!(matches!(
        btc_balance(vec![row("BTC", Some("1")), row("BTC", Some("1"))]),
        Err(StrikeError::BalanceAmbiguous)
    ));
    assert!(matches!(btc_balance(vec![row("BTC", Some(" 1"))]), Err(StrikeError::BalanceInvalid)));
    assert!(matches!(
        btc_balance(vec![row("BTC", Some("0.00000000001"))]),
        Err(StrikeError::BalanceNotSatAligned)
    ));
}

#[test]
fn hex_helpers_and_backoff() {
    assert_eq!(validate_hex32(&"aB".repeat(32)), Ok(()));
    assert_eq!(validate_hex32("ab"), Err(StrikeError::Hex32));
    assert_eq!(lowercase_hex("ABcd"), "abcd");
    assert_eq!(retry_delay(0), 1);
    assert_eq!(retry_delay(3), 8);
    assert_eq!(retry_delay(20), 256);
    assert_eq!(work_retry(6), (false, 64));
    assert_eq!(work_retry(7), (true, 3600));
}
