use lightning_goats::config::LightningAddressConfig;
use lightning_goats::lnurl::{
    check_callback_amount, AddressBook, AddressBookError, LnurlServiceError, PAY_REQUEST_TAG,
};
use lightning_goats::service::{
    advertised_length_ok, callback_amount, credential_value, feed_split, is_lnurl_path,
    bounded_body, lnurl_error_status, valid_credential_name, webhook_precheck, BoundedBody,
    MAX_STRIKE_WEBHOOK_BODY,
};
use lightning_goats::storage::{
    check_filename, connection_durable, main_database_is_file, sqlite_url_rest,
    storage_options_ok, text_begins_with, StorageError,
};
use sha2::{Digest, Sha256};

const USERS: [&str; 6] = ["herd", "dexter", "rowan", "cosmo", "newton", "nova"];

fn addresses() -> Vec<LightningAddressConfig> {
    USERS
        .iter()
        .map(|user| LightningAddressConfig {
            user: (*user).to_owned(),
            display_name: user.to_uppercase(),
            description: format!("Feed the Lightning Goats via {user}"),
            credit_pool: "herd".to_owned(),
            min_sendable_msat: 1_000,
            max_sendable_msat: 1_000_000_000,
        })
        .collect()
}

fn book() -> AddressBook {
    AddressBook::new("https://lightning-goats.com/", &addresses()).unwrap()
}

#[test]
fn discovery_supports_all_phase1_addresses() {
    let book = book();
    for user in USERS {
        let discovery = book.discovery(user).unwrap();
        assert_eq!(discovery.tag, "payRequest");
        assert_eq!(discovery.tag, PAY_REQUEST_TAG);
        assert_eq!(discovery.callback, format!("https://lightning-goats.com/lnurlp/{user}/callback"));
        assert!(discovery.metadata.contains(&format!("{user}@lightning-goats.com")));
        assert_eq!((discovery.min_sendable, discovery.max_sendable), (1_000, 1_000_000_000));
    }
    assert_eq!(book.configured_users(), USERS.iter().map(|u| u.to_string()).collect::<Vec<_>>());
}

#[test]
fn metadata_hash_is_exact_sha256_of_returned_raw_string() {
    let book = book();
    let discovery = book.discovery("dexter").unwrap();
    let expected = hex::encode(Sha256::digest(discovery.metadata.as_bytes()));
    assert_eq!(book.address("dexter").unwrap().description_hash, expected);
    assert_eq!(
        discovery.metadata,
        r#"[["text/plain","Feed the Lightning Goats via dexter"],["text/identifier","dexter@lightning-goats.com"]]"#
    );
}

#[test]
fn unknown_user_is_rejected_before_provider_access() {
    assert!(matches!(book().address("attacker"), Err(LnurlServiceError::UnknownUser)));
    assert!(matches!(book().discovery("Herd"), Err(LnurlServiceError::UnknownUser)));
    assert_eq!(book().display_name("nova"), Some("NOVA"));
    assert_eq!(book().display_name("attacker"), None);
}

#[test]
fn non_sat_aligned_amount_is_rejected_before_provider_access() {
    let book = book();
    let herd = book.address("herd").unwrap();
    assert!(matches!(check_callback_amount(herd, 1_001), Err(LnurlServiceError::InvalidAmount(_))));
    assert!(matches!(check_callback_amount(herd, 999), Err(LnurlServiceError::InvalidAmount(_))));
    assert!(matches!(
        check_callback_amount(herd, 1_000_001_000),
        Err(LnurlServiceError::InvalidAmount(_))
    ));
    assert!(check_callback_amount(herd, 21_000).is_ok());
}

#[test]
fn address_books_refuse_bad_registries() {
    let mut dup = addresses();
    dup.push(dup[0].clone());
    assert_eq!(AddressBook::new("https://lightning-goats.com/", &dup).err(), Some(AddressBookError::DuplicateUser));
    let mut pool = addresses();
    pool[1].credit_pool = "dexter".to_owned();
    assert_eq!(AddressBook::new("https://lightning-goats.com/", &pool).err(), Some(AddressBookError::NotHerdPool));
    assert_eq!(AddressBook::new("not a url", &addresses()).err(), Some(AddressBookError::InvalidBaseUrl));
}

#[test]
fn lnurl_errors_have_public_reasons_and_statuses() {
    let e = LnurlServiceError::Provider("upstream 500".to_owned());
    assert_eq!(e.public_reason(), "Unable to create Lightning invoice");
    assert_eq!(e.internal_error().map(String::as_str), Some("upstream 500"));
    assert_eq!(lnurl_error_status(&e), 502);
    assert_eq!(lnurl_error_status(&LnurlServiceError::UnknownUser), 404);
    assert_eq!(lnurl_error_status(&LnurlServiceError::Busy), 429);
    assert_eq!(lnurl_error_status(&LnurlServiceError::InvalidAmount("x")), 200);
    assert!(LnurlServiceError::UnknownUser.is_unknown_user());
}

#[test]
fn webhook_prechecks_answer_in_order() {
    let max = MAX_STRIKE_WEBHOOK_BODY;
    assert_eq!(webhook_precheck(Some("text/plain"), 10, Some("sig")), Err(415));
    assert_eq!(webhook_precheck(None, 10, Some("sig")), Err(415));
    assert_eq!(webhook_precheck(Some("Application/JSON; charset=utf-8"), max + 1, Some("sig")), Err(413));
    assert_eq!(webhook_precheck(Some("application/json"), max, None), Err(401));
    assert_eq!(webhook_precheck(Some(" application/json "), max, Some("sig")), Ok(()));
}

#[test]
fn request_helpers() {
    assert_eq!(callback_amount(Some("21000")), Ok(21_000));
    assert_eq!(callback_amount(Some("-1")), Err("Invalid amount"));
    assert_eq!(callback_amount(None), Err("Missing amount"));
    assert!(is_lnurl_path("/.well-known/lnurlp/herd"));
    assert!(is_lnurl_path("/lnurlp/herd/callback"));
    assert!(!is_lnurl_path("/status"));
    assert_eq!(feed_split(2_340, 1_000), (2, 340));
    assert!(advertised_length_ok(None, 10));
    assert!(advertised_length_ok(Some(10), 10));
    assert!(!advertised_length_ok(Some(11), 10));
    let mut body = BoundedBody::new(10);
    assert!(body.take(6));
    assert!(body.take(4));
    assert!(!body.take(1));
    assert!(valid_credential_name("strike-api_key"));
    assert!(!valid_credential_name("../x"));
    assert!(!valid_credential_name(""));
    assert_eq!(credential_value("  secret\n"), Some("secret".to_owned()));
    assert_eq!(credential_value(" \n"), None);
}

#[test]
fn only_durable_file_databases_are_accepted() {
    assert_eq!(sqlite_url_rest("sqlite:///var/lib/x.db"), Ok("/var/lib/x.db".to_owned()));
    assert_eq!(sqlite_url_rest("postgres://x"), Err(StorageError::NotFileUrl));
    assert_eq!(sqlite_url_rest("sqlite://sqlite::memory:"), Err(StorageError::RepeatedScheme));
    assert!(check_filename("/var/lib/x.db"));
    assert!(!check_filename(":memory:"));
    assert!(!check_filename("file:x.db"));
    assert!(!check_filename(""));
    assert!(storage_options_ok(&vec![("mode".to_owned(), "rwc".to_owned())]));
    assert!(!storage_options_ok(&vec![("mode".to_owned(), "ro".to_owned())]));
    assert!(!storage_options_ok(&vec![("immutable".to_owned(), "1".to_owned())]));
    let rows = vec![("main".to_owned(), "/var/lib/x.db".to_owned())];
    assert!(main_database_is_file(&rows));
    assert!(!main_database_is_file(&vec![("main".to_owned(), String::new())]));
    assert_eq!(connection_durable(&rows, "wal", 2, 1), Ok(()));
    assert_eq!(connection_durable(&rows, "delete", 2, 1), Err(StorageError::NotDurable));
    assert_eq!(connection_durable(&rows, "wal", 1, 1), Err(StorageError::NotDurable));
    assert!(text_begins_with("sqlite://x", "sqlite://"));
}

#[test]
fn chunked_response_is_bounded_at_exact_limit_without_content_length() {
    for size in [15usize, 16, 17] {
        let chunks = vec![vec![b'x'; 8], vec![b'y'; size - 8]];
        let body = bounded_body(None, &chunks, 16);
        if size <= 16 {
            assert_eq!(body.unwrap().len(), size);
        } else {
            assert!(body.is_none());
        }
    }
}

#[test]
fn advertised_oversize_is_refused_unread_and_chunks_keep_their_order() {
    let chunks = vec![b"ab".to_vec(), Vec::new(), b"cde".to_vec()];
    assert_eq!(bounded_body(Some(5), &chunks, 5), Some(b"abcde".to_vec()));
    assert_eq!(bounded_body(Some(6), &chunks, 5), None);
    assert_eq!(bounded_body(Some(6), &Vec::new(), 5), None);
    assert_eq!(bounded_body(None, &chunks, 4), None);
    assert_eq!(bounded_body(None, &Vec::new(), 0), Some(Vec::new()));
}
