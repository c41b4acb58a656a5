use lightning_goats::domain::credit::{Asset, AssetAmount, CreditError, XmrBtcRate};
use lightning_goats::ledger::credit::{
    allocation_from_row, decide_receipt, register_intent, valuation_for_intent, CreditAllocation,
    CreditReceiptOutcome, GrantTotals, StoredReceipt, XmrNetwork, XmrReceiptObservation,
};
use lightning_goats::ledger::quotes::{
    admission_since, bind_decision, check_clock, complete_decision, request_status,
    reserve_decision, stored_result, xmr_valuation_id, QuoteAdmissionCounts, QuoteBinding,
    QuoteRequestStatus, QuoteReservation, RateWatermark, StoredQuoteRequest, WatermarkWrite,
    RESERVATION_SECONDS,
};
use lightning_goats::ledger::LedgerError;
use lightning_goats::quotes::oracle::KRAKEN_SOURCE;
use lightning_goats::quotes::{
    format_xmr, issue_document, validate_rate, QuoteContext, QuoteError, QuoteIdentity,
    QuotePolicy, QuoteRequest, RateEvidence, StoredXmrQuote,
};
use sha2::{Digest, Sha256};

fn policy() -> QuotePolicy {
    QuotePolicy {
        min_target_sats: 100,
        max_target_sats: 100_000,
        max_credit_sats: 1_000_000,
        max_piconero: 1_000_000_000_000_000,
        lifetime_seconds: 900,
        max_rate_age_seconds: 300,
        min_sats_per_xmr: 1_000,
        max_sats_per_xmr: 10_000_000,
        admission_window_seconds: 3_600,
        max_requests_per_window: 100,
        max_requests_per_client_window: 10,
        max_pending_requests: 20,
        max_retained_requests: 1_000,
    }
}

const RAW: &str = r#"{"error":[],"result":{}}"#;

fn evidence(fetched_at: i64) -> RateEvidence {
    let rate = XmrBtcRate::new(250_000, 1, KRAKEN_SOURCE, 900).unwrap();
    RateEvidence::new(rate, fetched_at, RAW.to_owned()).unwrap()
}

fn identity() -> QuoteIdentity {
    let request = QuoteRequest {
        id: 0x42,
        client_bucket: "0f".repeat(32),
        address_user: "nova".to_owned(),
        target_sats: 1_000,
    };
    let context = QuoteContext {
        provider: "monero-wallet-rpc".to_owned(),
        account_scope: "account:0".to_owned(),
        network: XmrNetwork::Mainnet,
    };
    QuoteIdentity::new(&request, &context).unwrap()
}

#[test]
fn policies_and_rates_are_bounded() {
    assert!(policy().validate().is_ok());
    let mut p = policy();
    p.max_pending_requests = 101;
    assert_eq!(p.validate(), Err(QuoteError::InvalidPolicy));
    let rate = XmrBtcRate::new(250_000, 1, KRAKEN_SOURCE, 900).unwrap();
    assert_eq!(validate_rate(&rate, &policy()), Ok(()));
    let cheap = XmrBtcRate::new(999, 1, KRAKEN_SOURCE, 900).unwrap();
    assert_eq!(validate_rate(&cheap, &policy()), Err(QuoteError::RateOutOfBounds));
}

#[test]
fn identities_refuse_malformed_requests() {
    let id = identity();
    assert_eq!(id.network, "mainnet");
    let mut request = QuoteRequest {
        id: 0x42,
        client_bucket: "0F".repeat(32),
        address_user: "nova".to_owned(),
        target_sats: 1_000,
    };
    let context = QuoteContext {
        provider: "monero-wallet-rpc".to_owned(),
        account_scope: "account:0".to_owned(),
        network: XmrNetwork::Stagenet,
    };
    assert_eq!(QuoteIdentity::new(&request, &context).err(), Some(QuoteError::InvalidRequest));
    request.client_bucket = "0f".repeat(32);
    request.address_user = "mallory".to_owned();
    assert_eq!(QuoteIdentity::new(&request, &context).err(), Some(QuoteError::InvalidRequest));
}

#[test]
fn evidence_must_be_json_and_not_precede_its_rate() {
    let rate = XmrBtcRate::new(250_000, 1, KRAKEN_SOURCE, 900).unwrap();
    assert!(RateEvidence::new(rate.clone(), 899, RAW.to_owned()).is_err());
    assert!(RateEvidence::new(rate.clone(), 900, "not json".to_owned()).is_err());
    let e = RateEvidence::new(rate, 950, RAW.to_owned()).unwrap();
    assert_eq!((e.fetched_at(), e.raw_json()), (950, RAW));
}

#[test]
fn issued_documents_lock_terms_and_hash_evidence() {
    let doc = issue_document("{\"id\":66}", &policy(), 1_000, &evidence(950), KRAKEN_SOURCE, 940, 1_000)
        .unwrap();
    assert_eq!(doc.version, 1);
    assert_eq!((doc.numerator.as_str(), doc.denominator.as_str()), ("250000", "1"));
    assert_eq!(doc.expected_atomic, 4_000_000_000);
    assert_eq!((doc.issued_at, doc.expires_at), (1_000, 1_900));
    assert_eq!(doc.evidence, RAW);
    assert_eq!(doc.evidence_sha256, hex::encode(Sha256::digest(RAW.as_bytes())));
    assert_eq!(
        issue_document("{}", &policy(), 1_000, &evidence(950), "other-source", 940, 1_000).err(),
        Some(QuoteError::SourceMismatch)
    );
    assert_eq!(
        issue_document("{}", &policy(), 1_000, &evidence(950), KRAKEN_SOURCE, 960, 1_000).err(),
        Some(QuoteError::SourceMismatch)
    );
    let mut tight = policy();
    tight.max_piconero = 1_000;
    assert_eq!(
        issue_document("{}", &tight, 1_000, &evidence(950), KRAKEN_SOURCE, 940, 1_000).err(),
        Some(QuoteError::AmountLimit)
    );
}

#[test]
fn issued_document_decodes_back_to_the_same_quote() {
    let identity_json = "{\"id\":66}";
    let doc = issue_document(identity_json, &policy(), 1_000, &evidence(950), KRAKEN_SOURCE, 940, 1_000)
        .unwrap();
    let stored = StoredXmrQuote::decode(
        "{\"version\":1}".to_owned(),
        identity_json,
        Some(doc.clone()),
        Some(identity()),
    )
    .unwrap();
    assert_eq!(stored.id(), 0x42);
    assert_eq!(stored.quote().terms().expected_atomic(), 4_000_000_000);
    assert!(!stored.expired_at(1_899));
    assert!(stored.expired_at(1_900));
    assert_eq!(
        stored.terms_json(),
        "{\"amount\":\"0.004\",\"amount_atomic\":\"4000000000\",\"asset\":\"XMR\",\"expires_at\":1900,\"issued_at\":1000,\"quote_id\":\"00000000-0000-0000-0000-000000000042\",\"target_credit_sats\":1000,\"version\":1}"
    );
    let intent = stored.credit_intent("subaddress:1").unwrap();
    assert_eq!(intent.id, 0x42);
    assert!(StoredXmrQuote::decode("{}".to_owned(), "{\"id\":67}", Some(doc.clone()), Some(identity())).is_err());
    let mut changed = doc;
    changed.expected_atomic += 1;
    assert!(StoredXmrQuote::decode("{}".to_owned(), identity_json, Some(changed), Some(identity())).is_err());
}

#[test]
fn xmr_amounts_render_without_trailing_zeros() {
    assert_eq!(format_xmr(0), "0");
    assert_eq!(format_xmr(1_000_000_000_000), "1");
    assert_eq!(format_xmr(4_000_000_000), "0.004");
    assert_eq!(format_xmr(1), "0.000000000001");
    assert_eq!(format_xmr(12_345_000_000_000), "12.345");
}

fn stored_quote() -> StoredXmrQuote {
    let identity_json = "{\"id\":66}";
    let doc = issue_document(identity_json, &policy(), 1_000, &evidence(950), KRAKEN_SOURCE, 940, 1_000)
        .unwrap();
    StoredXmrQuote::decode("{}".to_owned(), identity_json, Some(doc), Some(identity())).unwrap()
}

fn observation(amount: u64, first_seen_at: i64, unlocked: bool) -> XmrReceiptObservation {
    XmrReceiptObservation {
        provider: "monero-wallet-rpc".to_owned(),
        network: XmrNetwork::Mainnet,
        account_scope: "account:0".to_owned(),
        receive_scope: "subaddress:1".to_owned(),
        receipt_key: "tx-1".to_owned(),
        amount: AssetAmount::new(Asset::Xmr, amount).unwrap(),
        first_seen_at,
        unlocked,
        double_spend_seen: false,
    }
}

fn fresh_allocation() -> CreditAllocation {
    CreditAllocation { eligible_atomic: 0, credited_sats: 0, hold_reason: None }
}

#[test]
fn exact_unlocked_payment_in_time_grants_the_target_once() {
    let intent = stored_quote().credit_intent("subaddress:1").unwrap();
    let row = valuation_for_intent(&intent).unwrap();
    assert!(matches!(register_intent(&intent, None), Ok(Some(_))));
    assert!(matches!(register_intent(&intent, Some(row.clone())), Ok(None)));
    let totals = GrantTotals { atomic: 0, sats: 0 };
    let plan = decide_receipt(
        &observation(4_000_000_000, 1_100, true),
        Some(row.clone()),
        &fresh_allocation(),
        None,
        totals,
        40,
    )
    .unwrap();
    assert_eq!(plan.outcome, CreditReceiptOutcome::Recorded { delta_sats: 1_000, feed_credit_sats: 1_040 });
    assert_eq!(plan.insert_receipt, Some(true));
    let granted = StoredReceipt { amount_atomic: 4_000_000_000, first_seen_at: Some(1_100), unlocked: true, granted: true };
    let after = CreditAllocation { eligible_atomic: 4_000_000_000, credited_sats: 1_000, hold_reason: None };
    let replay = decide_receipt(
        &observation(4_000_000_000, 1_100, true),
        Some(row.clone()),
        &after,
        Some(granted),
        GrantTotals { atomic: 4_000_000_000, sats: 1_000 },
        1_040,
    )
    .unwrap();
    assert_eq!(replay.outcome, CreditReceiptOutcome::Duplicate);
    let pending =
        decide_receipt(&observation(4_000_000_000, 1_100, false), Some(row.clone()), &fresh_allocation(), None, totals, 0)
            .unwrap();
    assert_eq!(pending.outcome, CreditReceiptOutcome::Pending);
    let late =
        decide_receipt(&observation(4_000_000_000, 1_900, true), Some(row.clone()), &fresh_allocation(), None, totals, 0)
            .unwrap();
    assert_eq!(late.outcome, CreditReceiptOutcome::Held);
    assert_eq!(late.grant, None);
    assert_eq!(
        decide_receipt(&observation(1, 1_100, true), None, &fresh_allocation(), None, totals, 0),
        Err(LedgerError::UnknownIntent)
    );
    let mut elsewhere = observation(1, 1_100, true);
    elsewhere.receive_scope = "subaddress:2".to_owned();
    assert_eq!(
        decide_receipt(&elsewhere, Some(row), &fresh_allocation(), None, totals, 0),
        Err(LedgerError::BindingMismatch)
    );
}

#[test]
fn stored_allocations_must_not_be_negative() {
    assert_eq!(allocation_from_row(-1, 0, None), Err(LedgerError::IntegerRange));
    assert_eq!(allocation_from_row(5, 1, None).map(|a| a.credited_sats), Ok(1));
}

fn request() -> QuoteRequest {
    QuoteRequest { id: 0x42, client_bucket: "0f".repeat(32), address_user: "nova".to_owned(), target_sats: 1_000 }
}

fn counts() -> QuoteAdmissionCounts {
    QuoteAdmissionCounts { total: 0, recent: 0, client: 0, pending: 0 }
}

fn row(status: QuoteRequestStatus, document: Option<&str>) -> StoredQuoteRequest {
    StoredQuoteRequest {
        identity_json: "{\"id\":66}".to_owned(),
        requested_at: 990,
        reservation_until: 1_020,
        status,
        document_json: document.map(str::to_owned),
    }
}

#[test]
fn reservations_are_bounded_and_replays_answer_the_stored_document() {
    let p = policy();
    assert_eq!(
        reserve_decision(&request(), "{\"id\":66}", &p, 900, 1_000, None, counts()),
        Ok(QuoteReservation::Reserve { until: 1_000 + RESERVATION_SECONDS })
    );
    assert_eq!(
        reserve_decision(&request(), "{\"id\":66}", &p, 1_001, 1_000, None, counts()),
        Err(LedgerError::QuoteClockRegressed)
    );
    let full = QuoteAdmissionCounts { client: 10, ..counts() };
    assert_eq!(
        reserve_decision(&request(), "{\"id\":66}", &p, 900, 1_000, None, full),
        Err(LedgerError::QuoteCapacity)
    );
    let mut small = request();
    small.target_sats = 99;
    assert_eq!(
        reserve_decision(&small, "{\"id\":66}", &p, 900, 1_000, None, counts()),
        Err(LedgerError::QuoteTargetBounds)
    );
    let ready = row(QuoteRequestStatus::Ready, Some("{\"doc\":1}"));
    assert_eq!(
        reserve_decision(&request(), "{\"id\":66}", &p, 900, 1_000, Some(ready.clone()), full),
        Ok(QuoteReservation::Existing("{\"doc\":1}".to_owned()))
    );
    assert_eq!(stored_result(&ready, "{\"id\":67}", 1_000), Err(LedgerError::QuoteIdentityMismatch));
    assert_eq!(
        stored_result(&row(QuoteRequestStatus::Reserved, None), "{\"id\":66}", 1_000),
        Err(LedgerError::QuoteInProgress)
    );
    assert_eq!(
        stored_result(&row(QuoteRequestStatus::Reserved, None), "{\"id\":66}", 1_020),
        Err(LedgerError::QuoteUnavailable)
    );
    assert_eq!(request_status("ready"), QuoteRequestStatus::Ready);
    assert_eq!(request_status("whatever"), QuoteRequestStatus::Failed);
    assert_eq!(check_clock(5, 4), Err(LedgerError::QuoteClockRegressed));
    assert_eq!(admission_since(1_000, 3_600), -2_600);
    assert_eq!(admission_since(i64::MIN, 10), i64::MIN);
}

#[test]
fn completion_keeps_the_rate_watermark_monotone() {
    let q = stored_quote();
    let reserved = row(QuoteRequestStatus::Reserved, None);
    let id = "{\"id\":66}";
    assert_eq!(complete_decision(&reserved, id, 0x42, &q, 990, 1_000, None), Ok(WatermarkWrite::Insert));
    let mark = |t: i64, n: &str| RateWatermark { observed_at: t, numerator: n.to_owned(), denominator: "1".to_owned() };
    assert_eq!(complete_decision(&reserved, id, 0x42, &q, 990, 1_000, Some(mark(800, "1"))), Ok(WatermarkWrite::Update));
    assert_eq!(complete_decision(&reserved, id, 0x42, &q, 990, 1_000, Some(mark(900, "250000"))), Ok(WatermarkWrite::Keep));
    assert_eq!(
        complete_decision(&reserved, id, 0x42, &q, 990, 1_000, Some(mark(900, "250001"))),
        Err(LedgerError::RateRegressed)
    );
    assert_eq!(
        complete_decision(&reserved, id, 0x42, &q, 990, 1_000, Some(mark(901, "250000"))),
        Err(LedgerError::RateRegressed)
    );
    assert_eq!(
        complete_decision(&reserved, id, 0x42, &q, 990, 1_000, Some(mark(800, "x"))),
        Err(LedgerError::WatermarkText)
    );
    assert_eq!(
        complete_decision(&reserved, id, 0x43, &q, 990, 1_000, None),
        Err(LedgerError::ReservationInvalid)
    );
}

#[test]
fn binding_is_idempotent_and_needs_a_live_quote() {
    let q = stored_quote();
    let intent = q.credit_intent("subaddress:1").unwrap();
    let doc = q.document_json().to_owned();
    assert_eq!(xmr_valuation_id(0x42), "xmr:00000000-0000-0000-0000-000000000042");
    assert_eq!(bind_decision(&q, &intent, 990, 1_000, Some(doc.clone()), None), Ok(true));
    assert_eq!(bind_decision(&q, &intent, 990, 1_900, Some(doc.clone()), None), Err(LedgerError::QuoteNotBindable));
    let same = QuoteBinding { receive_scope: "subaddress:1".to_owned(), valuation_id: xmr_valuation_id(0x42) };
    assert_eq!(bind_decision(&q, &intent, 990, 5_000, Some(doc.clone()), Some(same)), Ok(false));
    let other = QuoteBinding { receive_scope: "subaddress:2".to_owned(), valuation_id: xmr_valuation_id(0x42) };
    assert_eq!(bind_decision(&q, &intent, 990, 1_000, Some(doc.clone()), Some(other)), Err(LedgerError::BindingConflict));
    assert_eq!(bind_decision(&q, &intent, 990, 1_000, None, None), Err(LedgerError::QuoteNotReady));
    assert_eq!(bind_decision(&q, &intent, 990, 1_000, Some("{\"other\":1}".to_owned()), None), Err(LedgerError::QuoteChanged));
}

#[test]
fn documents_are_issued_whenever_every_check_passes() {
    let mut exact = policy();
    exact.max_piconero = 4_000_000_000;
    let doc = issue_document("{}", &exact, 1_000, &evidence(950), KRAKEN_SOURCE, 940, 1_000).unwrap();
    assert_eq!(doc.expected_atomic, 4_000_000_000);
    exact.max_piconero = 3_999_999_999;
    assert_eq!(
        issue_document("{}", &exact, 1_000, &evidence(950), KRAKEN_SOURCE, 940, 1_000).err(),
        Some(QuoteError::AmountLimit)
    );
    let mut narrow = policy();
    narrow.max_sats_per_xmr = 249_999;
    assert_eq!(
        issue_document("{}", &narrow, 1_000, &evidence(950), KRAKEN_SOURCE, 940, 1_000).err(),
        Some(QuoteError::RateOutOfBounds)
    );
    assert_eq!(
        issue_document("{}", &policy(), 1_000, &evidence(950), KRAKEN_SOURCE, 940, 1_201).err(),
        Some(QuoteError::Credit(CreditError::StaleRate))
    );
    assert_eq!(
        issue_document("{}", &policy(), 1_000, &evidence(950), KRAKEN_SOURCE, 940, i64::MAX - 10).err(),
        Some(QuoteError::ExpiryOverflow)
    );
}

#[test]
fn partial_receipts_grant_the_cumulative_valuation_less_what_was_granted() {
    let intent = stored_quote().credit_intent("subaddress:1").unwrap();
    let row = valuation_for_intent(&intent).unwrap();
    let first = decide_receipt(
        &observation(1_999_999_999, 1_100, true),
        Some(row.clone()),
        &fresh_allocation(),
        None,
        GrantTotals { atomic: 0, sats: 0 },
        3,
    )
    .unwrap();
    let grant = first.grant.unwrap();
    assert_eq!((grant.cumulative_atomic, grant.cumulative_sats, grant.delta_sats, grant.feed_credit_sats), (1_999_999_999, 499, 499, 502));
    let after = CreditAllocation { eligible_atomic: 1_999_999_999, credited_sats: 499, hold_reason: None };
    let mut second_observation = observation(2_000_000_001, 1_150, true);
    second_observation.receipt_key = "tx-2".to_owned();
    let second = decide_receipt(
        &second_observation,
        Some(row),
        &after,
        None,
        GrantTotals { atomic: 1_999_999_999, sats: 499 },
        502,
    )
    .unwrap();
    let grant = second.grant.unwrap();
    assert_eq!((grant.cumulative_atomic, grant.cumulative_sats, grant.delta_sats, grant.feed_credit_sats), (4_000_000_000, 1_000, 501, 1_003));
    assert_eq!(second.outcome, CreditReceiptOutcome::Recorded { delta_sats: 501, feed_credit_sats: 1_003 });
}
