use lightning_goats::ledger::{settle_payment, SettlementOutcome};
use lightning_goats::strike::{
    check_receive_request_inputs, created_receive_request, reconcile_completed_receive,
    scan_after_failure, scan_after_page, select_receive, strike_settlement,
    validate_receive_request_response, validate_scan_page, validate_stored_request,
    Bolt11ReceiveRequest, LightningReceive, ProviderAmount, ReceiveRequestResponse,
    StoredStrikeReceiveRequest, StrikeCompletedReceiveEvent, StrikeError, StrikeReceive,
    STRIKE_SOURCE,
};

const REQUEST_ID: u128 = 0x1111_2222_3333_4444_5555_6666_7777_8888;
const RECEIVE_ID: u128 = 0x9999_aaaa_bbbb_cccc_dddd_eeee_ffff_0000;

fn desc() -> String {
    "ab".repeat(32)
}

fn response() -> ReceiveRequestResponse {
    ReceiveRequestResponse {
        receive_request_id: REQUEST_ID,
        created: Some("2026-09-07T17:00:00Z".to_owned()),
        target_currency: Some("BTC".to_owned()),
        bolt11: Some(Bolt11ReceiveRequest {
            invoice: "lnbc210n1example".to_owned(),
            requested_amount: Some(ProviderAmount { amount: "0.00000021".to_owned(), currency: "BTC".to_owned() }),
            btc_amount: Some("0.00000021".to_owned()),
            description_hash: Some(desc().to_uppercase()),
            payment_hash: "CD".repeat(32),
        }),
    }
}

fn stored() -> StoredStrikeReceiveRequest {
    StoredStrikeReceiveRequest {
        receive_request_id: REQUEST_ID,
        address_user: "dexter".to_owned(),
        credit_pool: "herd".to_owned(),
        amount_msat: 21_000,
        description_hash: desc(),
        payment_hash: "cd".repeat(32),
        invoice: "lnbc210n1example".to_owned(),
        created_provider: Some("2026-09-07T17:00:00Z".to_owned()),
    }
}

fn receive(receive_id: u128, state: &str, kind: &str) -> StrikeReceive {
    StrikeReceive {
        receive_id,
        receive_request_id: REQUEST_ID,
        receive_type: kind.to_owned(),
        state: state.to_owned(),
        amount_received: ProviderAmount { amount: "0.00000021".to_owned(), currency: "BTC".to_owned() },
        completed: Some("2026-09-07T17:01:00Z".to_owned()),
        lightning: if kind == "LIGHTNING" {
            Some(LightningReceive {
                invoice: "lnbc210n1example".to_owned(),
                description_hash: Some(desc()),
                payment_hash: "CD".repeat(32),
            })
        } else {
            None
        },
    }
}

#[test]
fn created_requests_are_checked_and_normalized() {
    assert_eq!(check_receive_request_inputs(21_000, &desc(), 300), Ok(()));
    assert_eq!(check_receive_request_inputs(0, &desc(), 300), Err(StrikeError::ZeroAmount));
    assert_eq!(check_receive_request_inputs(21_000, "xy", 300), Err(StrikeError::Hex32));
    assert_eq!(check_receive_request_inputs(21_000, &desc(), 0), Err(StrikeError::ZeroExpiry));
    let created = created_receive_request(response(), 21_000, &desc()).unwrap();
    assert_eq!(created.payment_hash, "cd".repeat(32));
    assert_eq!(created.description_hash, desc().to_uppercase());
    assert_eq!(created.created_provider.as_deref(), Some("2026-09-07T17:00:00Z"));
    assert_eq!(validate_receive_request_response(&response(), 22_000, &desc()), Err(StrikeError::RequestedAmountMismatch));
    assert_eq!(validate_receive_request_response(&response(), 21_000, &"ef".repeat(32)), Err(StrikeError::DescriptionHashMismatch));
    let mut usd = response();
    usd.target_currency = Some("USD".to_owned());
    assert_eq!(validate_receive_request_response(&usd, 21_000, &desc()), Err(StrikeError::TargetCurrency));
    let mut none = response();
    none.bolt11 = None;
    assert_eq!(validate_receive_request_response(&none, 21_000, &desc()), Err(StrikeError::MissingBolt11));
}

#[test]
fn stored_requests_must_match_the_provider() {
    assert_eq!(validate_stored_request(&response(), &stored()), Ok(()));
    let mut other = stored();
    other.receive_request_id = 1;
    assert_eq!(validate_stored_request(&response(), &other), Err(StrikeError::WrongRequestId));
    let mut invoice = stored();
    invoice.invoice = "lnbc1other".to_owned();
    assert_eq!(validate_stored_request(&response(), &invoice), Err(StrikeError::InvoiceMismatch));
    let mut hash = stored();
    hash.payment_hash = "ee".repeat(32);
    assert_eq!(validate_stored_request(&response(), &hash), Err(StrikeError::PaymentHashMismatch));
}

#[test]
fn completed_lightning_receive_is_credited_once() {
    let page = vec![receive(7, "PENDING", "LIGHTNING"), receive(RECEIVE_ID, "COMPLETED", "LIGHTNING")];
    let reconciled = reconcile_completed_receive(&stored(), &response(), page, RECEIVE_ID).unwrap();
    assert_eq!(reconciled.amount_msat, 21_000);
    assert_eq!(reconciled.payment_hash.as_deref(), Some("cd".repeat(32).as_str()));
    let payment = strike_settlement(&stored(), &reconciled);
    assert_eq!(payment.source, STRIKE_SOURCE);
    assert_eq!(payment.source_id, uuid::Uuid::from_u128(RECEIVE_ID).to_string());
    assert_eq!(payment.address_user, "dexter");
    let context: serde_json::Value = serde_json::from_str(payment.context_json.as_deref().unwrap()).unwrap();
    assert_eq!(context["receive_type"], "LIGHTNING");
    assert_eq!(context["receive_request_id"], uuid::Uuid::from_u128(REQUEST_ID).to_string());
    assert_eq!(context["completed_provider"], "2026-09-07T17:01:00Z");
    match settle_payment(&payment, None, None).unwrap() {
        SettlementOutcome::Credited { sats, .. } => assert_eq!(sats, 21),
        other => panic!("unexpected {other:?}"),
    }
}

#[test]
fn accepts_strike_optimized_p2p_receive_without_fake_payment_hash() {
    let page = vec![receive(RECEIVE_ID, "COMPLETED", "P2P")];
    let reconciled = reconcile_completed_receive(&stored(), &response(), page, RECEIVE_ID).unwrap();
    assert_eq!(reconciled.payment_hash, None);
    let payment = strike_settlement(&stored(), &reconciled);
    assert_eq!(payment.payment_hash, None);
}

#[test]
fn incomplete_or_mismatched_receives_fail_closed() {
    let r = |state: &str| vec![receive(RECEIVE_ID, state, "LIGHTNING")];
    assert_eq!(
        reconcile_completed_receive(&stored(), &response(), r("PENDING"), RECEIVE_ID).err(),
        Some(StrikeError::NotCompleted)
    );
    assert_eq!(
        reconcile_completed_receive(&stored(), &response(), vec![], RECEIVE_ID).err(),
        Some(StrikeError::ReceiveNotFound)
    );
    let dup = vec![receive(RECEIVE_ID, "COMPLETED", "P2P"), receive(RECEIVE_ID, "COMPLETED", "P2P")];
    assert_eq!(
        reconcile_completed_receive(&stored(), &response(), dup, RECEIVE_ID).err(),
        Some(StrikeError::DuplicateReceive)
    );
    let mut short = receive(RECEIVE_ID, "COMPLETED", "P2P");
    short.amount_received.amount = "0.0000002".to_owned();
    assert_eq!(
        reconcile_completed_receive(&stored(), &response(), vec![short], RECEIVE_ID).err(),
        Some(StrikeError::ReceivedAmountMismatch)
    );
    let mut other_kind = receive(RECEIVE_ID, "COMPLETED", "ONCHAIN");
    other_kind.lightning = None;
    assert_eq!(
        reconcile_completed_receive(&stored(), &response(), vec![other_kind], RECEIVE_ID).err(),
        Some(StrikeError::UnexpectedReceiveType)
    );
    let mut no_ln = receive(RECEIVE_ID, "COMPLETED", "LIGHTNING");
    no_ln.lightning = None;
    assert_eq!(
        reconcile_completed_receive(&stored(), &response(), vec![no_ln], RECEIVE_ID).err(),
        Some(StrikeError::MissingLightning)
    );
    assert!(matches!(select_receive(vec![receive(1, "COMPLETED", "P2P")], 1), Ok(_)));
}

#[test]
fn recovery_scan_paginates_and_enqueues_completions() {
    let mut page: Vec<StrikeReceive> = (0..100).map(|i| receive(i, "PENDING", "P2P")).collect();
    page[3].state = "COMPLETED".to_owned();
    assert_eq!(validate_scan_page(&page, REQUEST_ID), Ok(()));
    let plan = scan_after_page(&page, REQUEST_ID, 0);
    assert_eq!(plan.next_offset, 100);
    assert_eq!(plan.delay_seconds, 1);
    assert_eq!(
        plan.events,
        vec![StrikeCompletedReceiveEvent { event_id: 3, receive_request_id: REQUEST_ID, receive_id: 3 }]
    );
    let last = scan_after_page(&page[..10].to_vec(), REQUEST_ID, 100);
    assert_eq!((last.next_offset, last.delay_seconds), (0, 300));
    let failed = scan_after_failure(100, 2);
    assert_eq!((failed.next_offset, failed.attempts, failed.delay_seconds), (100, 3, 4));
    let mut foreign = page.clone();
    foreign[0].receive_request_id = 1;
    assert_eq!(validate_scan_page(&foreign, REQUEST_ID), Err(StrikeError::InvalidScanPage));
}
