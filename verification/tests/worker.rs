use lightning_goats::config::{IpAddress, RuntimeMode};
use lightning_goats::feeder::{
    apply_outcome, outcome_step, plan_after_credit, plan_after_safety, worker_delay, FeedPlan,
    FeedWorkerStep, FeederError, OutcomeAction,
};
use lightning_goats::gateway::{
    check_feed_answer, FeedOutcome, FeedRefusal, FeedRequestStatus, FeederSafety, GatewayError,
    RefusalReason,
};
use lightning_goats::informational::{current_cycle, stable_draw_bits, InformationalError};
use lightning_goats::ledger::feed::StoredFeedAttemptStatus;
use lightning_goats::private_alert::{
    check_canonical_path, check_policy, check_runtime, check_state, delivery_outcome,
    next_attempts, observe_decision, open_decision, AlertError, AlertPolicy, Delivery,
    Observation, Schedule, MAX_PENDING,
};
use sha2::{Digest, Sha256};

#[test]
fn feeding_needs_credit_mode_and_safety() {
    assert_eq!(plan_after_credit(0, 5_000, RuntimeMode::Active), Err(FeederError::ZeroThreshold));
    assert_eq!(plan_after_credit(1_000, 999, RuntimeMode::Active), Ok(FeedPlan::Done(FeedWorkerStep::Idle)));
    assert_eq!(
        plan_after_credit(1_000, 2_340, RuntimeMode::Shadow),
        Ok(FeedPlan::Done(FeedWorkerStep::ShadowBlocked { feeds_due: 2 }))
    );
    assert_eq!(plan_after_credit(1_000, 2_340, RuntimeMode::Canary), Ok(FeedPlan::CheckSafety { feeds_due: 2 }));
    assert_eq!(plan_after_safety(2, None), FeedPlan::Done(FeedWorkerStep::SafetyUnavailable { feeds_due: 2 }));
    let on = FeederSafety { override_enabled: true, remote_enabled: true };
    assert_eq!(plan_after_safety(2, Some(on)), FeedPlan::Done(FeedWorkerStep::OverrideBlocked { feeds_due: 2 }));
    let off = FeederSafety { override_enabled: false, remote_enabled: false };
    assert_eq!(plan_after_safety(2, Some(off)), FeedPlan::Done(FeedWorkerStep::RemoteDisabled { feeds_due: 2 }));
    let ok = FeederSafety { override_enabled: false, remote_enabled: true };
    assert!(ok.allows_remote_feed());
    assert_eq!(plan_after_safety(2, Some(ok)), FeedPlan::Begin);
}

fn answer(id: u128, status: FeedOutcome, refusal: Option<FeedRefusal>) -> FeedRequestStatus {
    FeedRequestStatus { request_id: id, status, refusal }
}

#[test]
fn only_confirmation_debits() {
    let id = 9;
    let committed = StoredFeedAttemptStatus::IntentCommitted;
    let unknown = StoredFeedAttemptStatus::Unknown;
    assert_eq!(apply_outcome(id, committed, &answer(id, FeedOutcome::Confirmed, None)), Ok(OutcomeAction::ConfirmIntent));
    assert_eq!(apply_outcome(id, unknown, &answer(id, FeedOutcome::Confirmed, None)), Ok(OutcomeAction::ReconcileFed));
    assert_eq!(apply_outcome(id, committed, &answer(id, FeedOutcome::Pending, None)), Ok(OutcomeAction::MarkUnknown));
    assert_eq!(apply_outcome(id, unknown, &answer(id, FeedOutcome::Ambiguous, None)), Ok(OutcomeAction::KeepUnknown));
    let refusal = FeedRefusal { reason: RefusalReason::Capacity, retry_after_seconds: 30 };
    assert_eq!(
        apply_outcome(id, committed, &answer(id, FeedOutcome::NotDispatched, Some(refusal))),
        Ok(OutcomeAction::ResolveNotDispatched { retry_after_seconds: 30 })
    );
    assert_eq!(
        apply_outcome(id, committed, &answer(id + 1, FeedOutcome::Confirmed, None)),
        Err(FeederError::Gateway(GatewayError::UuidMismatch))
    );
    assert_eq!(
        apply_outcome(id, committed, &answer(id, FeedOutcome::Confirmed, Some(refusal))),
        Err(FeederError::Gateway(GatewayError::ContradictoryOutcome))
    );
    assert_eq!(outcome_step(id, OutcomeAction::ConfirmIntent, 340), FeedWorkerStep::Fed { attempt_id: id, remaining_sats: 340 });
    assert_eq!(outcome_step(id, OutcomeAction::MarkUnknown, 340), FeedWorkerStep::UnknownFeedBlocked { attempt_id: id });
    assert_eq!(worker_delay(Some(FeedWorkerStep::Fed { attempt_id: id, remaining_sats: 0 }), 30), 30);
    assert_eq!(worker_delay(None, 30), 5);
    assert_eq!(worker_delay(Some(FeedWorkerStep::Idle), 30), 2);
}

#[test]
fn feed_answers_must_match_their_status_codes() {
    let id = 3;
    assert_eq!(check_feed_answer(200, &answer(id, FeedOutcome::Confirmed, None), id), Ok(()));
    assert_eq!(check_feed_answer(500, &answer(id, FeedOutcome::Confirmed, None), id), Err(GatewayError::UnexpectedHttpStatus));
    assert_eq!(
        check_feed_answer(202, &answer(id, FeedOutcome::Confirmed, None), id),
        Err(GatewayError::ConfirmationStatusMismatch)
    );
    let refusal = FeedRefusal { reason: RefusalReason::Capacity, retry_after_seconds: 0 };
    assert_eq!(
        check_feed_answer(429, &answer(id, FeedOutcome::NotDispatched, Some(refusal)), id),
        Err(GatewayError::ContradictoryOutcome)
    );
}

#[test]
fn cycles_and_draws_are_stable() {
    assert_eq!(current_cycle(125, 60), Ok(2));
    assert_eq!(current_cycle(125, 0), Err(InformationalError::ZeroInterval));
    let mut message = b"lightning-goats-info-v1".to_vec();
    message.extend_from_slice(&7u64.to_be_bytes());
    message.extend_from_slice(b"weather");
    let digest = Sha256::digest(&message);
    let expected = u64::from_be_bytes(digest[..8].try_into().unwrap());
    assert_eq!(stable_draw_bits(7, "weather"), expected);
    assert_eq!(stable_draw_bits(7, "weather"), stable_draw_bits(7, "weather"));
    assert_ne!(stable_draw_bits(7, "weather"), stable_draw_bits(7, "interface-info"));
}

#[test]
fn one_alert_per_episode_and_rearm_below_threshold() {
    assert_eq!(observe_decision(1, 500, 1_000, 0), Ok((Observation::BelowThreshold, true)));
    assert_eq!(observe_decision(1, 1_000, 1_000, 0), Ok((Observation::Queued, false)));
    assert_eq!(observe_decision(0, 5_000, 1_000, 0), Ok((Observation::AlreadyAlerted, false)));
    assert_eq!(observe_decision(0, 999, 1_000, 0), Ok((Observation::BelowThreshold, true)));
    assert_eq!(observe_decision(1, 1_000, 1_000, MAX_PENDING), Err(AlertError::CapacityExhausted));
    assert_eq!(observe_decision(2, 1_000, 1_000, 0), Err(AlertError::InvalidState));
}

fn relays() -> Vec<(String, Option<IpAddress>)> {
    vec![("wss://relay.example".to_owned(), None)]
}

#[test]
fn alert_policy_binding_is_a_digest_of_its_terms() {
    let recipient = "ab".repeat(32);
    let policy = AlertPolicy::new(1_000, recipient.clone(), relays(), "acct").unwrap();
    let tuple = serde_json::to_vec(&(1_000u64, recipient.as_str(), vec!["wss://relay.example".to_owned()], "acct")).unwrap();
    assert_eq!(policy.binding(), hex::encode(Sha256::digest(&tuple)));
    assert_eq!(policy.threshold_sats(), 1_000);
    assert_eq!(policy.relays(), &vec!["wss://relay.example".to_owned()]);
    assert_eq!(check_policy(policy.binding(), &policy), Ok(()));
    assert_eq!(check_policy("other", &policy), Err(AlertError::PolicyChanged));
    assert_eq!(AlertPolicy::new(0, recipient.clone(), relays(), "acct").err(), Some(AlertError::InvalidPolicy));
    assert_eq!(AlertPolicy::new(1, "AB".repeat(32), relays(), "acct").err(), Some(AlertError::InvalidPolicy));
    assert_eq!(AlertPolicy::new(1, recipient.clone(), vec![], "acct").err(), Some(AlertError::InvalidRelays));
    let mut bound = AlertPolicy::new(1_000, recipient, relays(), "acct").unwrap();
    let before = bound.binding().to_owned();
    bound.bind_runtime("https://api.strike.me", &"cd".repeat(32), &vec!["wss://signer.example".to_owned()]);
    assert_ne!(bound.binding(), before);
    assert_eq!(bound.threshold_sats(), 1_000);
}

#[test]
fn alert_store_must_be_exactly_its_own() {
    assert_eq!(open_decision(&vec![], false), Err(AlertError::NeedsInitialization));
    assert_eq!(open_decision(&vec![], true), Ok(true));
    let tables = vec!["private_alert_outbox".to_owned(), "private_alert_state".to_owned()];
    assert_eq!(open_decision(&tables, false), Ok(false));
    assert_eq!(open_decision(&tables, true), Err(AlertError::UnrelatedTables));
    assert_eq!(open_decision(&vec!["ledger".to_owned()], false), Err(AlertError::UnrelatedTables));
    assert_eq!(check_state(1, &vec![(1, "b".to_owned(), 1)], "b"), Ok(()));
    assert_eq!(check_state(2, &vec![(1, "b".to_owned(), 1)], "b"), Err(AlertError::UnsupportedVersion));
    assert_eq!(check_state(1, &vec![(1, "c".to_owned(), 1)], "b"), Err(AlertError::StateNeedsReconciliation));
}

#[test]
fn deliveries_retry_until_the_restored_event_is_published() {
    assert_eq!(delivery_outcome("e1", Some("e1"), true), Delivery::Delivered);
    assert_eq!(delivery_outcome("e1", Some("e2"), true), Delivery::RetryPending);
    assert_eq!(delivery_outcome("e1", None, false), Delivery::RetryPending);
    assert_eq!(next_attempts(3), 4);
    assert_eq!(next_attempts(2_147_483_646), 2_147_483_647);
    assert_eq!(next_attempts(2_147_483_647), 2_147_483_647);
    let mut s = Schedule::new(60, 600);
    assert_eq!(s.completed(false), 60);
    assert_eq!(s.completed(false), 120);
    assert_eq!(s.completed(false), 240);
    assert_eq!(s.completed(false), 480);
    assert_eq!(s.completed(false), 600);
    assert_eq!(s.completed(true), 60);
    assert_eq!(s.completed(false), 60);
}

#[test]
fn alert_runtime_paths_and_origins_are_checked() {
    assert!(check_canonical_path("/var/lib/alerts.db"));
    assert!(!check_canonical_path("relative/path"));
    assert!(!check_canonical_path("/var/../etc/passwd"));
    assert!(check_canonical_path("/var/..data/x"));
    let paths = vec!["/var/lib/a.db".to_owned(), "/usr/bin/nak".to_owned()];
    let key = "cd".repeat(32);
    assert_eq!(check_runtime(&paths, "https://api.strike.me", None, &key, &relays()), Ok(()));
    assert_eq!(
        check_runtime(&vec!["x".to_owned()], "https://api.strike.me", None, &key, &relays()),
        Err(AlertError::InvalidPath)
    );
    assert_eq!(
        check_runtime(&paths, "http://api.strike.me", Some(IpAddress::V4(1, 1, 1, 1)), &key, &relays()),
        Err(AlertError::InvalidProviderOrigin)
    );
    assert_eq!(
        check_runtime(&paths, "https://api.strike.me", None, &"CD".repeat(32), &relays()),
        Err(AlertError::InvalidSigner)
    );
    assert_eq!(
        check_runtime(&paths, "https://api.strike.me", None, &key, &vec![("ws://relay.example".to_owned(), None)]),
        Err(AlertError::InvalidRelays)
    );
}

#[test]
fn alert_bindings_digest_the_compact_json_of_their_terms() {
    let recipient = "ab".repeat(32);
    let relays = vec![
        ("wss://relay.example".to_owned(), None),
        ("wss://two.example".to_owned(), None),
    ];
    let binding = "a\"b\\c\nd\u{1}\u{e9}/";
    let policy = AlertPolicy::new(1_000, recipient.clone(), relays, binding).unwrap();
    let text = format!(
        "[1000,\"{recipient}\",[\"wss://relay.example\",\"wss://two.example\"],\"a\\\"b\\\\c\\nd\\u0001\u{e9}/\"]"
    );
    assert_eq!(policy.binding(), hex::encode(Sha256::digest(text.as_bytes())));

    let mut bound = policy;
    let before = bound.binding().to_owned();
    let signer = "cd".repeat(32);
    bound.bind_runtime("https://api.strike.me", &signer, &vec![]);
    let runtime = format!("[\"{before}\",\"https://api.strike.me\",\"{signer}\",[]]");
    assert_eq!(bound.binding(), hex::encode(Sha256::digest(runtime.as_bytes())));
}
