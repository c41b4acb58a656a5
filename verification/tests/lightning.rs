use lightning_goats::cln::{check_client_settings, retry_delay, ClnError, MsatValue};
use lightning_goats::config::IpAddress;
use lightning_goats::messaging::publish_retry_delay;
use lightning_goats::migrate::{exact_sats, validate_loopback_url, MigrateError};

const V4_LOOPBACK: IpAddress = IpAddress::V4(127, 0, 0, 1);
const V6_LOOPBACK: IpAddress = IpAddress::V6(0, 0, 0, 0, 0, 0, 0, 1);

#[test]
fn rejects_non_loopback_lnbits_url() {
    assert!(validate_loopback_url("https://lnbits.example.com/", None).is_err());
    assert!(validate_loopback_url("http://127.0.0.1:5000/", Some(V4_LOOPBACK)).is_ok());
    assert!(validate_loopback_url("http://[::1]:5000/", Some(V6_LOOPBACK)).is_ok());
}

#[test]
fn exact_sats_rejects_subsat_state() {
    assert_eq!(exact_sats(2_000, "amount").unwrap(), 2);
    assert!(exact_sats(2_001, "amount").is_err());
    assert!(exact_sats(-1, "amount").is_err());
}

#[test]
fn lnbits_url_errors_name_the_fault() {
    assert_eq!(
        validate_loopback_url("ftp://127.0.0.1/", Some(V4_LOOPBACK)),
        Err(MigrateError::UnsupportedScheme)
    );
    assert_eq!(
        validate_loopback_url("http://user:pw@127.0.0.1/", Some(V4_LOOPBACK)),
        Err(MigrateError::EmbeddedCredentials)
    );
    assert_eq!(
        validate_loopback_url("http://127.0.0.1/?x=1", Some(V4_LOOPBACK)),
        Err(MigrateError::QueryOrFragment)
    );
    assert_eq!(
        validate_loopback_url("http://10.0.0.1/", Some(IpAddress::V4(10, 0, 0, 1))),
        Err(MigrateError::NotLoopback)
    );
    assert_eq!(validate_loopback_url("not a url", None), Err(MigrateError::InvalidUrl));
    assert_eq!(validate_loopback_url("http://LocalHost:5000", None), Ok(false));
    assert_eq!(validate_loopback_url("http://127.0.0.1:5000/api", Some(V4_LOOPBACK)), Ok(true));
}

#[test]
fn exact_sats_reports_field_and_amount() {
    assert_eq!(
        exact_sats(1_500, "balance"),
        Err(MigrateError::Amount { field: "balance".to_owned(), msat: 1_500 })
    );
    assert_eq!(exact_sats(0, "balance"), Ok(0));
}

#[test]
fn refuses_non_loopback_clnrest() {
    assert!(check_client_settings("rune", "https://example.com:3010", None).is_err());
}

#[test]
fn clnrest_settings_distinguish_each_refusal() {
    assert_eq!(
        check_client_settings("  ", "https://127.0.0.1:3010", Some(V4_LOOPBACK)),
        Err(ClnError::EmptyRune)
    );
    assert_eq!(
        check_client_settings("rune", "::", Some(V4_LOOPBACK)),
        Err(ClnError::InvalidUrl)
    );
    assert_eq!(
        check_client_settings("rune", "ftp://127.0.0.1:3010", Some(V4_LOOPBACK)),
        Err(ClnError::UnsupportedScheme)
    );
    assert_eq!(
        check_client_settings("rune", "https://192.168.1.2:3010", Some(IpAddress::V4(192, 168, 1, 2))),
        Err(ClnError::NotLoopback)
    );
    assert_eq!(
        check_client_settings("rune", "https://localhost:3010/", None),
        Ok(false)
    );
    assert_eq!(
        check_client_settings("rune", "https://127.0.0.1:3010/base", Some(V4_LOOPBACK)),
        Ok(true)
    );
}

#[test]
fn parses_common_msat_representations() {
    assert_eq!(MsatValue::Integer(1000).into_msat().unwrap(), 1000);
    assert_eq!(MsatValue::Text("1000msat".to_owned()).into_msat().unwrap(), 1000);
    assert_eq!(MsatValue::Object { msat: 1000 }.into_msat().unwrap(), 1000);
}

#[test]
fn malformed_msat_text_is_refused() {
    assert_eq!(MsatValue::Text("msat".to_owned()).into_msat(), Err(ClnError::InvalidMsat));
    assert_eq!(MsatValue::Text("12x".to_owned()).into_msat(), Err(ClnError::InvalidMsat));
    assert_eq!(MsatValue::Text("42".to_owned()).into_msat(), Ok(42));
}

#[test]
fn retry_backoff_is_bounded() {
    assert_eq!(retry_delay(1), 1);
    assert_eq!(retry_delay(2), 2);
    assert_eq!(retry_delay(6), 30);
    assert_eq!(retry_delay(100), 30);
}

#[test]
fn retry_delay_is_bounded() {
    assert_eq!(publish_retry_delay(0), 1);
    assert_eq!(publish_retry_delay(1), 2);
    assert_eq!(publish_retry_delay(5), 30);
    assert_eq!(publish_retry_delay(100), 30);
}
