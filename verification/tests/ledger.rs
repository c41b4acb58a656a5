use lightning_goats::domain::payment::SettledPayment;
use lightning_goats::ledger::feed::{
    begin_attempt, feed_debit_key, resolve_as_fed, single_attempt_change, truncate_error,
    unresolved_attempt, StoredFeedAttempt, StoredFeedAttemptStatus,
};
use lightning_goats::ledger::log::{
    admit_invoice, cursor_advance, enqueue_message, event_from_row, events_limit,
    outbox_change, outbox_entry_from_row, overlay_window_admissible, overlay_window_complete,
    MAX_EVENTS_PER_READ,
};
use lightning_goats::ledger::strike::{enqueue_decision, record_receive_request, INBOX_CAPACITY};
use lightning_goats::ledger::{
    check_payment, feed_credit_total, settle_payment, to_i64, to_u64, validate_source,
    DurableEvent, LedgerError, SettlementOutcome, StoredSettlement,
};
use lightning_goats::strike::{StoredStrikeReceiveRequest, StrikeCompletedReceiveEvent};

fn payment() -> SettledPayment {
    SettledPayment {
        source: "cln".to_owned(),
        source_id: "pay-index-41".to_owned(),
        payment_hash: Some("ab".repeat(32)),
        address_user: "herd".to_owned(),
        credit_pool: "herd".to_owned(),
        amount_msat: 250_000,
        settled_at: Some(1_700_000_000),
        context_json: Some(r#"{"label":"x"}"#.to_owned()),
    }
}

fn stored(p: &SettledPayment) -> StoredSettlement {
    StoredSettlement {
        payment_hash: p.payment_hash.clone(),
        address_user: p.address_user.clone(),
        credit_pool: p.credit_pool.clone(),
        amount_msat: p.amount_msat as i64,
        settled_at: p.settled_at,
    }
}

#[test]
fn provider_neutral_settlement_credits_whole_sats_once() {
    let p = payment();
    assert_eq!(
        settle_payment(&p, None, None),
        Ok(SettlementOutcome::Credited {
            sats: 250,
            address_user: "herd".to_owned(),
            credit_pool: "herd".to_owned()
        })
    );
    assert_eq!(settle_payment(&p, Some(stored(&p)), None), Ok(SettlementOutcome::Duplicate));
}

#[test]
fn conflicting_duplicates_and_hash_collisions_fail_closed() {
    let p = payment();
    let mut other = stored(&p);
    other.amount_msat = 1_000;
    assert_eq!(settle_payment(&p, Some(other), None), Err(LedgerError::ConflictingSettlement));
    let owner = Some(("strike".to_owned(), "rr-1".to_owned()));
    assert_eq!(settle_payment(&p, None, owner.clone()), Err(LedgerError::PaymentHashCollision));
    let mut unhashed = payment();
    unhashed.payment_hash = None;
    assert!(settle_payment(&unhashed, None, owner).is_ok());
}

#[test]
fn payment_checks_run_in_order() {
    let mut p = payment();
    p.amount_msat = 250_500;
    assert_eq!(check_payment(&p), Err(LedgerError::NotSatAligned));
    p.amount_msat = 0;
    assert_eq!(check_payment(&p), Err(LedgerError::ZeroAmount));
    let mut p = payment();
    p.source = "CLN".to_owned();
    assert_eq!(check_payment(&p), Err(LedgerError::SourceCharacters));
    let mut p = payment();
    p.address_user = "Herd".to_owned();
    assert_eq!(check_payment(&p), Err(LedgerError::InvalidUser));
    let mut p = payment();
    p.payment_hash = Some("xy".to_owned());
    assert_eq!(check_payment(&p), Err(LedgerError::PaymentHash));
    let mut p = payment();
    p.settled_at = Some(-1);
    assert_eq!(check_payment(&p), Err(LedgerError::NegativeSettledAt));
    let mut p = payment();
    p.context_json = Some("{".to_owned());
    assert_eq!(check_payment(&p), Err(LedgerError::ContextNotJson));
    p.context_json = Some("[1]".to_owned());
    assert_eq!(check_payment(&p), Err(LedgerError::ContextNotObject));
    assert_eq!(check_payment(&payment()), Ok(250));
    assert_eq!(validate_source(""), Err(LedgerError::SourceLength));
}

#[test]
fn integer_conversions_are_checked() {
    assert_eq!(to_i64(5), Ok(5));
    assert_eq!(to_i64(u64::MAX), Err(LedgerError::IntegerRange));
    assert_eq!(to_u64(-1), Err(LedgerError::IntegerRange));
    assert_eq!(feed_credit_total(-5), Err(LedgerError::NegativeFeedCredit));
    assert_eq!(feed_credit_total(2_340), Ok(2_340));
}

#[test]
fn feed_attempts_need_credit_and_no_unresolved_attempt() {
    assert_eq!(begin_attempt(0, false, 5_000), Err(LedgerError::ZeroThreshold));
    assert_eq!(begin_attempt(1_000, true, 5_000), Err(LedgerError::UnresolvedFeedAttempt));
    assert_eq!(begin_attempt(1_000, false, -1), Err(LedgerError::NegativeFeedCredit));
    assert_eq!(begin_attempt(1_000, false, 999), Ok(false));
    assert_eq!(begin_attempt(1_000, false, 2_340), Ok(true));
    assert_eq!(resolve_as_fed(Some(1_000), 1_340), Ok(-1_000));
    assert_eq!(resolve_as_fed(Some(1_000), 999), Err(LedgerError::InsufficientFeedCredit));
    assert_eq!(resolve_as_fed(None, 1_340), Err(LedgerError::FeedAttemptState));
    assert_eq!(single_attempt_change(1), Ok(()));
    assert_eq!(single_attempt_change(0), Err(LedgerError::FeedAttemptState));
}

#[test]
fn stored_feed_attempts_are_read_back() {
    let id: u128 = 0x0123_4567_89ab_4cde_8f01_23456789abcd;
    let text = uuid::Uuid::from_u128(id).to_string();
    assert_eq!(
        unresolved_attempt(&text, "unknown", 1_000),
        Ok(StoredFeedAttempt { id, status: StoredFeedAttemptStatus::Unknown, threshold_sats: 1_000 })
    );
    assert_eq!(
        unresolved_attempt(&text, "intent_committed", 1_000).map(|a| a.status),
        Ok(StoredFeedAttemptStatus::IntentCommitted)
    );
    assert_eq!(unresolved_attempt(&text, "confirmed", 1_000), Err(LedgerError::UnexpectedFeedStatus));
    assert_eq!(unresolved_attempt("nope", "unknown", 1_000), Err(LedgerError::InvalidUuid));
    assert_eq!(unresolved_attempt(&text, "unknown", -1), Err(LedgerError::IntegerRange));
    assert_eq!(feed_debit_key(id), format!("feed:{text}"));
    assert_eq!(truncate_error("short"), "short");
    assert!(truncate_error(&"e".repeat(10_000)).len() < 10_000);
}

#[test]
fn message_cursor_never_moves_back() {
    assert_eq!(cursor_advance(5, 7), Ok(true));
    assert_eq!(cursor_advance(5, 5), Ok(false));
    assert_eq!(cursor_advance(5, 4), Err(LedgerError::CursorBackward));
    assert_eq!(cursor_advance(5, u64::MAX), Err(LedgerError::IntegerRange));
    assert_eq!(enqueue_message(5, 6), Ok(6));
    assert_eq!(enqueue_message(5, 5), Err(LedgerError::NotAheadOfCursor));
}

#[test]
fn event_log_rows_and_limits() {
    assert_eq!(events_limit(0), 1);
    assert_eq!(events_limit(50), 50);
    assert_eq!(events_limit(u32::MAX), MAX_EVENTS_PER_READ as i64);
    assert_eq!(
        event_from_row(3, "interface_info".to_owned(), "{}".to_owned()),
        Ok(DurableEvent { seq: 3, event_type: "interface_info".to_owned(), payload_json: "{}".to_owned() })
    );
    assert_eq!(event_from_row(-3, String::new(), String::new()), Err(LedgerError::IntegerRange));
    let entry = outbox_entry_from_row("id".to_owned(), "{}".to_owned(), 9, 2).unwrap();
    assert_eq!((entry.source_event_seq, entry.attempts), (9, 2));
    assert!(outbox_entry_from_row("id".to_owned(), "{}".to_owned(), 9, -2).is_err());
    assert_eq!(outbox_change(1), Ok(()));
    assert_eq!(outbox_change(2), Err(LedgerError::OutboxNotPending));
}

#[test]
fn overlay_windows_are_bounded() {
    assert!(overlay_window_admissible(0, 1_000));
    assert!(!overlay_window_admissible(0, 1_001));
    assert!(!overlay_window_admissible(5, 4));
    assert!(overlay_window_complete(0, 10, 10, 100));
    assert!(!overlay_window_complete(0, 10, 9, 100));
    assert!(!overlay_window_complete(0, 10, 10, 524_289));
}

#[test]
fn invoice_admission_has_bounds() {
    assert!(admit_invoice(29, 3, 9_996));
    assert!(!admit_invoice(30, 0, 0));
    assert!(!admit_invoice(0, 4, 0));
    assert!(!admit_invoice(0, 3, 9_997));
    assert!(!admit_invoice(i64::MAX, i64::MAX, i64::MAX));
}

fn receive_request() -> StoredStrikeReceiveRequest {
    StoredStrikeReceiveRequest {
        receive_request_id: 77,
        address_user: "nova".to_owned(),
        credit_pool: "herd".to_owned(),
        amount_msat: 21_000,
        description_hash: "AB".repeat(32),
        payment_hash: "cd".repeat(32),
        invoice: "lnbc210n1example".to_owned(),
        created_provider: None,
    }
}

#[test]
fn receive_requests_are_stored_once_with_lowercase_hashes() {
    let r = receive_request();
    let row = record_receive_request(&r, None).unwrap().unwrap();
    assert_eq!(row.description_hash, "ab".repeat(32));
    assert_eq!(row.payment_hash, "cd".repeat(32));
    assert_eq!(record_receive_request(&r, Some(r.clone())), Ok(None));
    let mut changed = r.clone();
    changed.amount_msat = 22_000;
    assert_eq!(record_receive_request(&r, Some(changed)), Err(LedgerError::ConflictingReceiveRequest));
    let mut bad = r.clone();
    bad.payment_hash = "zz".to_owned();
    assert_eq!(record_receive_request(&bad, None), Err(LedgerError::StrikeHash));
    let mut zero = r;
    zero.amount_msat = 0;
    assert_eq!(record_receive_request(&zero, None), Err(LedgerError::ZeroAmount));
}

#[test]
fn webhook_inbox_is_idempotent_and_bounded() {
    let e = StrikeCompletedReceiveEvent { event_id: 1, receive_request_id: 2, receive_id: 3 };
    assert_eq!(enqueue_decision(&e, Some((2, 3)), 0), Ok(false));
    assert_eq!(enqueue_decision(&e, Some((2, 4)), 0), Err(LedgerError::ConflictingInboxIdentity));
    assert_eq!(enqueue_decision(&e, None, INBOX_CAPACITY - 1), Ok(true));
    assert_eq!(enqueue_decision(&e, None, INBOX_CAPACITY), Err(LedgerError::InboxFull));
}
