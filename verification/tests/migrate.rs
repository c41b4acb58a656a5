use lightning_goats::migrate::{
    check_snapshot_args, manifest_from, reconcile_step, snapshot_from, snapshots_equal,
    validate_payment_hash, verify_settled_details, LnbitsPayment, ManifestFile, MigrateError,
    PaymentStatusResponse, PendingInvoiceFile, ReconcileAction, StabilityTracker, StableSnapshot,
};

fn payment(hash_byte: &str, amount: i64, status: &str) -> LnbitsPayment {
    LnbitsPayment {
        checking_id: format!("chk-{hash_byte}"),
        payment_hash: hash_byte.repeat(32),
        wallet_id: "wallet".to_owned(),
        amount,
        status: status.to_owned(),
    }
}

#[test]
fn snapshots_keep_pending_incoming_invoices_sorted_by_hash() {
    let payments = vec![
        payment("cc", 3_000, "pending"),
        payment("aa", 1_000, "pending"),
        payment("bb", -5_000, "pending"),
        payment("dd", 4_000, "success"),
        payment("0b", 2_000, "pending"),
    ];
    let s = snapshot_from("wallet".to_owned(), 21_000, payments).unwrap();
    let hashes: Vec<_> = s.pending_invoices.iter().map(|p| p.payment_hash.clone()).collect();
    assert_eq!(hashes, vec!["0b".repeat(32), "aa".repeat(32), "cc".repeat(32)]);
    assert_eq!(s.pending_invoices[1].amount_sats, 1);
    assert_eq!(s.pending_invoices[1].checking_id.as_deref(), Some("chk-aa"));
    assert_eq!(s.balance_msat, 21_000);
}

#[test]
fn snapshot_faults_are_refused() {
    let dup = vec![payment("aa", 1_000, "pending"), payment("aa", 2_000, "pending")];
    assert_eq!(snapshot_from("wallet".to_owned(), 0, dup).err(), Some(MigrateError::DuplicatePending));
    let mut foreign = payment("aa", 1_000, "success");
    foreign.wallet_id = "other".to_owned();
    assert_eq!(snapshot_from("wallet".to_owned(), 0, vec![foreign]).err(), Some(MigrateError::UnexpectedWallet));
    let upper = payment("AA", 1_000, "pending");
    assert_eq!(snapshot_from("wallet".to_owned(), 0, vec![upper]).err(), Some(MigrateError::PaymentHash));
    let subsat = payment("aa", 1_500, "pending");
    assert!(matches!(
        snapshot_from("wallet".to_owned(), 0, vec![subsat]),
        Err(MigrateError::Amount { msat: 1_500, .. })
    ));
    assert!(matches!(
        snapshot_from("wallet".to_owned(), 1_001, vec![]),
        Err(MigrateError::Amount { msat: 1_001, .. })
    ));
    assert_eq!(validate_payment_hash(&"ab".repeat(32)), Ok(()));
    assert_eq!(validate_payment_hash(&"AB".repeat(32)), Err(MigrateError::PaymentHash));
}

fn snapshot(balance: i64) -> StableSnapshot {
    snapshot_from("wallet".to_owned(), balance, vec![payment("aa", 1_000, "pending")]).unwrap()
}

#[test]
fn stability_needs_consecutive_identical_rounds() {
    let mut t = StabilityTracker::new(3);
    assert!(t.observe(snapshot(5_000)).is_none());
    assert!(t.observe(snapshot(5_000)).is_none());
    assert!(t.observe(snapshot(6_000)).is_none());
    assert!(t.observe(snapshot(6_000)).is_none());
    let stable = t.observe(snapshot(6_000)).unwrap();
    assert_eq!(stable.balance_msat, 6_000);
    assert!(snapshots_equal(&snapshot(1_000), &snapshot(1_000)));
    assert!(!snapshots_equal(&snapshot(1_000), &snapshot(2_000)));
}

#[test]
fn snapshot_arguments_and_manifests() {
    assert_eq!(check_snapshot_args(0, 3, 10), Err(MigrateError::InvalidCutover));
    assert_eq!(check_snapshot_args(100, 1, 10), Err(MigrateError::TooFewStableRounds));
    assert_eq!(check_snapshot_args(100, 3, 2), Err(MigrateError::TooFewMaxRounds));
    assert_eq!(check_snapshot_args(100, 3, 3), Ok(()));
    assert_eq!(manifest_from(snapshot(5_000), 200, 100).err(), Some(MigrateError::SnapshotBeforeCutover));
    let m = manifest_from(snapshot(5_000), 100, 200).unwrap();
    assert_eq!((m.opening_credit_sats, m.cutover_at, m.snapshot_at), (5, 100, 200));
    assert_eq!(m.pending_invoices.len(), 1);
}

fn manifest() -> ManifestFile {
    manifest_from(snapshot(5_000), 100, 200).unwrap()
}

fn pending() -> PendingInvoiceFile {
    manifest().pending_invoices[0].clone()
}

#[test]
fn paid_invoices_import_only_with_matching_details() {
    let details = payment("aa", 1_000, "success");
    let paid = PaymentStatusResponse { paid: true, status: None, details: Some(details.clone()) };
    match reconcile_step(&manifest(), &pending(), paid).unwrap() {
        ReconcileAction::Import(inv) => {
            assert_eq!(inv.payment_hash, "aa".repeat(32));
            assert_eq!(inv.amount_sats, 1);
            assert_eq!(inv.checking_id.as_deref(), Some("chk-aa"));
        }
        other => panic!("unexpected {other:?}"),
    }
    let missing = PaymentStatusResponse { paid: true, status: None, details: None };
    assert_eq!(reconcile_step(&manifest(), &pending(), missing).err(), Some(MigrateError::MissingDetails));
    let failed = PaymentStatusResponse { paid: false, status: Some("failed".to_owned()), details: None };
    assert!(matches!(reconcile_step(&manifest(), &pending(), failed), Ok(ReconcileAction::Failed)));
    let waiting = PaymentStatusResponse { paid: false, status: None, details: None };
    assert!(matches!(reconcile_step(&manifest(), &pending(), waiting), Ok(ReconcileAction::StillPending)));
    let mut wrong_amount = details.clone();
    wrong_amount.amount = 2_000;
    assert_eq!(verify_settled_details(&manifest(), &pending(), &wrong_amount), Err(MigrateError::AmountMismatch));
    let mut wrong_status = details.clone();
    wrong_status.status = "pending".to_owned();
    assert_eq!(verify_settled_details(&manifest(), &pending(), &wrong_status), Err(MigrateError::DetailsStatus));
    let mut wrong_hash = details.clone();
    wrong_hash.payment_hash = "bb".repeat(32);
    assert_eq!(verify_settled_details(&manifest(), &pending(), &wrong_hash), Err(MigrateError::HashMismatch));
    let mut wrong_check = details;
    wrong_check.checking_id = "x".to_owned();
    assert_eq!(verify_settled_details(&manifest(), &pending(), &wrong_check), Err(MigrateError::CheckingIdMismatch));
}
