use lightning_goats::domain::feed::{FeedAttemptStatus, FeedError, FeedLedger, FeedRuntime};
use lightning_goats::domain::invoice::{validate_user, MAX_USER_LEN};

#[test]
fn two_thresholds_leave_correct_remainder() {
    let ledger = FeedLedger::with_credit(1_000, 2_340).unwrap();
    assert_eq!(ledger.feeds_due(), 2);
    assert_eq!(ledger.remainder_sats(), 340);
}

#[test]
fn override_blocks_feed_without_losing_credit() {
    let ledger = FeedLedger::with_credit(1_000, 2_340).unwrap();
    let mut runtime = FeedRuntime::new(ledger);

    assert_eq!(runtime.begin_next_feed(true), Err(FeedError::OverrideEnabled));
    assert_eq!(runtime.ledger().credit_sats(), 2_340);
    assert_eq!(runtime.ledger().feeds_due(), 2);
}

#[test]
fn confirmed_feeds_debit_one_threshold_each() {
    let ledger = FeedLedger::with_credit(1_000, 2_340).unwrap();
    let mut runtime = FeedRuntime::new(ledger);

    let first = runtime.begin_next_feed(false).unwrap();
    assert_eq!(runtime.ledger().credit_sats(), 2_340);
    runtime.confirm_feed(first.id).unwrap();
    assert_eq!(runtime.ledger().credit_sats(), 1_340);

    let second = runtime.begin_next_feed(false).unwrap();
    runtime.confirm_feed(second.id).unwrap();
    assert_eq!(runtime.ledger().credit_sats(), 340);
    assert_eq!(runtime.ledger().feeds_due(), 0);
}

#[test]
fn unknown_feed_does_not_debit_or_retry() {
    let ledger = FeedLedger::with_credit(1_000, 1_340).unwrap();
    let mut runtime = FeedRuntime::new(ledger);

    let attempt = runtime.begin_next_feed(false).unwrap();
    runtime.mark_feed_unknown(attempt.id).unwrap();

    assert_eq!(runtime.ledger().credit_sats(), 1_340);
    assert_eq!(runtime.begin_next_feed(false), Err(FeedError::AttemptAlreadyActive));
}

#[test]
fn unknown_confirmed_by_operator_debits_once() {
    let ledger = FeedLedger::with_credit(1_000, 1_340).unwrap();
    let mut runtime = FeedRuntime::new(ledger);
    let attempt = runtime.begin_next_feed(false).unwrap();
    runtime.mark_feed_unknown(attempt.id).unwrap();

    runtime.reconcile_unknown_as_fed(attempt.id).unwrap();
    assert_eq!(runtime.ledger().credit_sats(), 340);
    assert!(runtime.active_attempt().is_none());
}

#[test]
fn unknown_rejected_by_operator_keeps_credit() {
    let ledger = FeedLedger::with_credit(1_000, 1_340).unwrap();
    let mut runtime = FeedRuntime::new(ledger);
    let attempt = runtime.begin_next_feed(false).unwrap();
    runtime.mark_feed_unknown(attempt.id).unwrap();

    runtime.reconcile_unknown_as_not_fed(attempt.id).unwrap();
    assert_eq!(runtime.ledger().credit_sats(), 1_340);
    assert!(runtime.active_attempt().is_none());
}

#[test]
fn payments_can_arrive_while_backlog_is_draining() {
    let ledger = FeedLedger::with_credit(1_000, 2_340).unwrap();
    let mut runtime = FeedRuntime::new(ledger);

    let first = runtime.begin_next_feed(false).unwrap();
    runtime.confirm_feed(first.id).unwrap();
    runtime.credit(700).unwrap();
    assert_eq!(runtime.ledger().credit_sats(), 2_040);
    assert_eq!(runtime.ledger().feeds_due(), 2);

    let second = runtime.begin_next_feed(false).unwrap();
    runtime.confirm_feed(second.id).unwrap();
    let third = runtime.begin_next_feed(false).unwrap();
    runtime.confirm_feed(third.id).unwrap();

    assert_eq!(runtime.ledger().credit_sats(), 40);
}

#[test]
fn accepts_phase1_style_users() {
    for user in ["herd", "dexter", "rowan", "cosmo", "newton", "nova", "goat-1", "goat.name"] {
        assert!(validate_user(user).is_ok(), "{user}");
    }
}

#[test]
fn rejects_uppercase_colons_and_invalid_lengths() {
    let too_long = "a".repeat(MAX_USER_LEN + 1);
    for user in ["Herd", "herd:other", "", "with space", ".", "..", too_long.as_str()] {
        assert!(validate_user(user).is_err(), "{user}");
    }
}

#[test]
fn zero_threshold_ledger_is_refused() {
    assert_eq!(FeedLedger::new(0), Err(FeedError::ZeroThreshold));
    assert_eq!(FeedLedger::with_credit(0, 5), Err(FeedError::ZeroThreshold));
}

#[test]
fn no_feed_is_due_below_threshold() {
    let ledger = FeedLedger::with_credit(1_000, 999).unwrap();
    let mut runtime = FeedRuntime::new(ledger);
    assert_eq!(runtime.begin_next_feed(false), Err(FeedError::NoFeedDue));
    assert!(runtime.active_attempt().is_none());
}

#[test]
fn credit_overflow_is_refused_without_change() {
    let mut ledger = FeedLedger::with_credit(1_000, u64::MAX - 1).unwrap();
    assert_eq!(ledger.credit(2), Err(FeedError::CreditOverflow));
    assert_eq!(ledger.credit_sats(), u64::MAX - 1);
    ledger.credit(1).unwrap();
    assert_eq!(ledger.credit_sats(), u64::MAX);
}

#[test]
fn wrong_attempt_id_and_wrong_state_are_refused() {
    let ledger = FeedLedger::with_credit(1_000, 1_000).unwrap();
    let mut runtime = FeedRuntime::new(ledger);
    assert_eq!(runtime.confirm_feed(7), Err(FeedError::NoActiveAttempt));
    let attempt = runtime.begin_next_feed(false).unwrap();
    assert_eq!(attempt.status, FeedAttemptStatus::IntentCommitted);
    assert_eq!(runtime.confirm_feed(attempt.id.wrapping_add(1)), Err(FeedError::AttemptIdMismatch));
    assert_eq!(
        runtime.reconcile_unknown_as_fed(attempt.id),
        Err(FeedError::InvalidAttemptState)
    );
    assert_eq!(runtime.ledger().credit_sats(), 1_000);
    runtime.confirm_feed(attempt.id).unwrap();
    assert_eq!(runtime.ledger().credit_sats(), 0);
}

#[test]
fn feed_errors_describe_themselves() {
    assert_eq!(FeedError::NoFeedDue.description(), "no feed is due");
    assert_eq!(FeedError::ZeroThreshold.description(), "feeder threshold must be greater than zero");
}

#[test]
fn confirmed_feeds_never_debit_more_than_credit() {
    let cases: [(u64, u64); 6] = [
        (1, 0),
        (1, 7),
        (25, 100),
        (30, 100),
        (999_999, 9_999_999_999),
        (1_000, 999),
    ];
    for (threshold, credit) in cases {
        let ledger = FeedLedger::with_credit(threshold, credit).unwrap();
        let mut runtime = FeedRuntime::new(ledger);
        let mut confirmed = 0u64;
        while runtime.ledger().feeds_due() > 0 {
            let attempt = runtime.begin_next_feed(false).unwrap();
            runtime.confirm_feed(attempt.id).unwrap();
            confirmed += 1;
        }
        assert_eq!(confirmed, credit / threshold);
        assert_eq!(runtime.ledger().credit_sats(), credit % threshold);
        assert!(runtime.active_attempt().is_none());
    }
}
