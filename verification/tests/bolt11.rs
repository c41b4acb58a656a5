use std::str::FromStr;
use std::time::Duration;

use bitcoin::hashes::sha256;
use bitcoin::secp256k1::{PublicKey, Secp256k1, SecretKey};
use lightning_goats::bolt11::{verify, verify_expiry_at, Bolt11Error};
use lightning_invoice::{
    Currency, InvoiceBuilder, PaymentSecret, RawBolt11Invoice, SignedRawBolt11Invoice,
};
use sha2::{Digest, Sha256};

/// A mainnet invoice for `amount_msat`, paying hash `22..22`, committed to
/// `description_hash`, expiring after 300 seconds, naming and signed with
/// key `42..42`.
fn test_invoice(amount_msat: u64, description_hash: &str) -> String {
    let key = SecretKey::from_slice(&[42; 32]).unwrap();
    let payee = PublicKey::from_secret_key(&Secp256k1::new(), &key);
    InvoiceBuilder::new(Currency::Bitcoin)
        .payee_pub_key(payee)
        .description_hash(sha256::Hash::from_str(description_hash).unwrap())
        .payment_hash(sha256::Hash::from_str(&"22".repeat(32)).unwrap())
        .payment_secret(PaymentSecret([0x33; 32]))
        .duration_since_epoch(Duration::from_secs(1_700_000_000))
        .min_final_cltv_expiry_delta(144)
        .amount_milli_satoshis(amount_msat)
        .expiry_time(Duration::from_secs(300))
        .build_signed(|hash| Secp256k1::new().sign_ecdsa_recoverable(hash, &key))
        .unwrap()
        .to_string()
}

fn sign(raw: RawBolt11Invoice, key: u8) -> String {
    raw.sign(|hash| {
        Ok::<_, std::convert::Infallible>(
            Secp256k1::new().sign_ecdsa_recoverable(hash, &SecretKey::from_slice(&[key; 32]).unwrap()),
        )
    })
    .unwrap()
    .to_string()
}

fn raw_of(encoded: &str) -> RawBolt11Invoice {
    let parsed: SignedRawBolt11Invoice = encoded.parse().unwrap();
    parsed.into_parts().0
}

#[test]
fn rejects_bad_checksum_signature_network_amount_and_hashes() {
    let encoded = test_invoice(2_340_000, &"11".repeat(32));
    verify(&encoded, 2_340_000, &"22".repeat(32), &"11".repeat(32)).unwrap();
    let raw = raw_of(&encoded);
    let invalid_signature = sign(raw.clone(), 43);
    let parsed: SignedRawBolt11Invoice = invalid_signature.parse().unwrap();
    assert!(!parsed.check_signature()); // A valid checksum does not establish a valid signature.
    assert!(verify(&invalid_signature, 2_340_000, &"22".repeat(32), &"11".repeat(32)).is_err());
    let mut wrong_network = raw.clone();
    wrong_network.hrp.currency = Currency::BitcoinTestnet;
    assert!(verify(&sign(wrong_network, 42), 2_340_000, &"22".repeat(32), &"11".repeat(32)).is_err());
    let mut no_amount = raw;
    no_amount.hrp.raw_amount = None;
    no_amount.hrp.si_prefix = None;
    assert!(verify(&sign(no_amount, 42), 2_340_000, &"22".repeat(32), &"11".repeat(32)).is_err());
    assert!(verify(&encoded, 2_341_000, &"22".repeat(32), &"11".repeat(32)).is_err());
    assert!(verify(&encoded, 2_340_000, &"33".repeat(32), &"11".repeat(32)).is_err());
    assert!(verify(&encoded, 2_340_000, &"22".repeat(32), &"33".repeat(32)).is_err());
    let mut bad_checksum = encoded.into_bytes();
    let last = bad_checksum.last_mut().unwrap();
    *last = if *last == b'q' { b'p' } else { b'q' };
    assert!(verify(std::str::from_utf8(&bad_checksum).unwrap(), 2_340_000, &"22".repeat(32), &"11".repeat(32)).is_err());
}

#[test]
fn issuance_checks_expiry_and_clock_but_late_settlement_can_verify_expired_invoice() {
    let encoded = test_invoice(1_000, &"11".repeat(32));
    let invoice = verify(&encoded, 1_000, &"22".repeat(32), &"11".repeat(32)).unwrap();
    let created = invoice.timestamp_secs;
    verify_expiry_at(&invoice, 300, created).unwrap();
    assert!(verify_expiry_at(&invoice, 301, created).is_err());
    assert!(verify_expiry_at(&invoice, 300, created - 31).is_err());
    assert!(verify_expiry_at(&invoice, 300, created + 300).is_err());
    // Recovery uses verify(), not issuance-only expiry checks.
    verify(&encoded, 1_000, &"22".repeat(32), &"11".repeat(32)).unwrap();
}

#[test]
fn each_refusal_of_a_signed_invoice_is_named() {
    let encoded = test_invoice(2_340_000, &"11".repeat(32));
    let raw = raw_of(&encoded);
    let ok = |e: &str| verify(e, 2_340_000, &"22".repeat(32), &"11".repeat(32)).err();
    // The decoder refuses an invoice whose signature does not match its payee.
    assert_eq!(ok(&sign(raw.clone(), 43)), Some(Bolt11Error::Invalid));
    let mut testnet = raw.clone();
    testnet.hrp.currency = Currency::BitcoinTestnet;
    assert_eq!(ok(&sign(testnet, 42)), Some(Bolt11Error::Network));
    let mut no_amount = raw;
    no_amount.hrp.raw_amount = None;
    no_amount.hrp.si_prefix = None;
    assert_eq!(ok(&sign(no_amount, 42)), Some(Bolt11Error::Amount));
    assert_eq!(verify(&encoded, 0, &"22".repeat(32), &"11".repeat(32)).err(), Some(Bolt11Error::Amount));
}

// A signed mainnet invoice from the BOLT11 test vectors: 20 mBTC, committed
// to the hash of a description, created at 1496314658 with the default
// one-hour expiry.
const INVOICE: &str = "lnbc20m1pvjluezsp5zyg3zyg3zyg3zyg3zyg3zyg3zyg3zyg3zyg3zyg3zyg3zyg3zygspp5qqqsyqcyq5rqwzqfqqqsyqcyq5rqwzqfqqqsyqcyq5rqwzqfqypqhp58yjmdan79s6qqdhdzgynm4zwqd5d7xmw5fk98klysy043l2ahrqs9qrsgq7ea976txfraylvgzuxs8kgcw23ezlrszfnh8r6qtfpr6cxga50aj6txm9rxrydzd06dfeawfk6swupvz4erwnyutnjq7x39ymw6j38gp7ynn44";
const PAYMENT_HASH: &str = "0001020304050607080900010203040506070809000102030405060708090102";
const CREATED: u64 = 1_496_314_658;

fn description_hash() -> String {
    hex::encode(Sha256::digest(
        b"One piece of chocolate cake, one icecream cone, one pickle, one slice of swiss cheese, one slice of salami, one lollypop, one piece of cherry pie, one sausage, one cupcake, and one slice of watermelon",
    ))
}

#[test]
fn signed_invoice_with_expected_terms_is_accepted() {
    let facts = verify(INVOICE, 2_000_000_000, PAYMENT_HASH, &description_hash()).unwrap();
    assert_eq!(facts.amount_msat, Some(2_000_000_000));
    assert_eq!(facts.payment_hash, PAYMENT_HASH);
    assert_eq!(facts.timestamp_secs, CREATED);
    assert_eq!(facts.expiry_secs, 3_600);
    let upper = verify(INVOICE, 2_000_000_000, &PAYMENT_HASH.to_uppercase(), &description_hash().to_uppercase());
    assert!(upper.is_ok());
}

#[test]
fn rejects_bad_encoding_amount_and_hashes() {
    assert_eq!(verify("lnbc1garbage", 1, PAYMENT_HASH, &description_hash()).err(), Some(Bolt11Error::Invalid));
    let mut tampered = INVOICE.to_owned();
    tampered.replace_range(20..21, "q");
    assert!(verify(&tampered, 2_000_000_000, PAYMENT_HASH, &description_hash()).is_err());
    assert_eq!(
        verify(INVOICE, 1_000, PAYMENT_HASH, &description_hash()).err(),
        Some(Bolt11Error::Amount)
    );
    assert_eq!(
        verify(INVOICE, 2_000_000_000, &"ab".repeat(32), &description_hash()).err(),
        Some(Bolt11Error::PaymentHash)
    );
    assert_eq!(
        verify(INVOICE, 2_000_000_000, PAYMENT_HASH, &"ab".repeat(32)).err(),
        Some(Bolt11Error::DescriptionHash)
    );
}

#[test]
fn issuance_expiry_of_a_published_vector() {
    let facts = verify(INVOICE, 2_000_000_000, PAYMENT_HASH, &description_hash()).unwrap();
    assert_eq!(verify_expiry_at(&facts, 3_600, CREATED + 10), Ok(()));
    assert_eq!(verify_expiry_at(&facts, 300, CREATED + 10), Err(Bolt11Error::Expiry));
    assert_eq!(verify_expiry_at(&facts, 0, CREATED + 10), Err(Bolt11Error::Expiry));
    assert_eq!(verify_expiry_at(&facts, 3_600, CREATED - 31), Err(Bolt11Error::FromFuture));
    assert_eq!(verify_expiry_at(&facts, 3_600, CREATED - 30), Ok(()));
    assert_eq!(verify_expiry_at(&facts, 3_600, CREATED + 3_600), Err(Bolt11Error::Expired));
}
