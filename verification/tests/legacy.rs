use lightning_goats::ledger::legacy::{
    import_settlement, install_manifest, validate_hash, validate_manifest, validate_wallet_id,
    verify_manifest, ImportAudit, InstalledOpening, LegacyCutoverManifest, LegacyError,
    LegacyImportPlan, LegacyManifestOutcome, LegacyPendingInvoice, LegacySettledInvoice,
    StoredPending,
};

fn pending(hash: &str, amount: u64) -> LegacyPendingInvoice {
    LegacyPendingInvoice {
        payment_hash: hash.repeat(32),
        checking_id: Some(format!("chk-{hash}")),
        wallet_id: "wallet".to_owned(),
        amount_sats: amount,
        created_at: Some(50),
        expiry_at: Some(500),
    }
}

fn manifest() -> LegacyCutoverManifest {
    LegacyCutoverManifest {
        wallet_id: "wallet".to_owned(),
        opening_credit_sats: 2_340,
        cutover_at: 100,
        snapshot_at: 120,
        pending_invoices: vec![pending("aa", 21), pending("bb", 5)],
    }
}

fn opening() -> InstalledOpening {
    InstalledOpening { wallet_id: "wallet".to_owned(), amount_sats: 2_340, cutover_at: 100, snapshot_at: 120 }
}

#[test]
fn opening_manifest_is_atomic_idempotent_and_silent() {
    let m = manifest();
    assert_eq!(validate_manifest(&m), Ok(()));
    assert_eq!(install_manifest(&m, None, 0), Ok(LegacyManifestOutcome::Installed));
    let installed = Some((opening(), m.pending_invoices.clone()));
    assert_eq!(install_manifest(&m, installed.clone(), 3), Ok(LegacyManifestOutcome::AlreadyInstalled));
    let reordered = Some((opening(), vec![pending("bb", 5), pending("aa", 21)]));
    assert_eq!(install_manifest(&m, reordered, 0), Ok(LegacyManifestOutcome::AlreadyInstalled));
}

#[test]
fn a_changed_manifest_is_rejected_after_installation() {
    let mut changed = manifest();
    changed.opening_credit_sats = 2_341;
    let installed = Some((opening(), manifest().pending_invoices));
    assert_eq!(install_manifest(&changed, installed, 0), Err(LegacyError::DifferentManifestInstalled));
    assert_eq!(install_manifest(&manifest(), None, 1), Err(LegacyError::ImportsBeforeManifest));
}

#[test]
fn manifests_must_be_internally_consistent() {
    let mut m = manifest();
    m.snapshot_at = 99;
    assert_eq!(validate_manifest(&m), Err(LegacyError::SnapshotBeforeCutover));
    let mut m = manifest();
    m.pending_invoices.push(pending("aa", 7));
    assert_eq!(validate_manifest(&m), Err(LegacyError::DuplicateHash));
    let mut m = manifest();
    m.pending_invoices[0].wallet_id = "other".to_owned();
    assert_eq!(validate_manifest(&m), Err(LegacyError::ForeignWallet));
    let mut m = manifest();
    m.pending_invoices[0].amount_sats = 0;
    assert_eq!(validate_manifest(&m), Err(LegacyError::ZeroAmount));
    let mut m = manifest();
    m.pending_invoices[0].created_at = Some(121);
    assert_eq!(validate_manifest(&m), Err(LegacyError::CreatedAfterSnapshot));
    let mut m = manifest();
    m.pending_invoices[1].checking_id = Some("chk-aa".to_owned());
    assert_eq!(validate_manifest(&m), Err(LegacyError::DuplicateCheckingId));
    assert_eq!(validate_hash(&"AA".repeat(32)), Err(LegacyError::PaymentHash));
    assert_eq!(validate_wallet_id("  "), Err(LegacyError::WalletId));
}

fn settled(hash: &str, amount: u64) -> LegacySettledInvoice {
    LegacySettledInvoice {
        payment_hash: hash.repeat(32),
        checking_id: Some(format!("chk-{hash}")),
        wallet_id: "wallet".to_owned(),
        amount_sats: amount,
        settled_at: Some(200),
    }
}

fn stored(amount: i64, imported: bool) -> StoredPending {
    StoredPending {
        checking_id: Some("chk-aa".to_owned()),
        wallet_id: "wallet".to_owned(),
        amount_sats: amount,
        created_at: Some(50),
        imported,
    }
}

#[test]
fn late_settlement_credits_exactly_once() {
    let w = Some("wallet".to_owned());
    assert_eq!(
        import_settlement(&settled("aa", 21), w.clone(), Some(stored(21, false)), None, None),
        Ok(LegacyImportPlan::Credit { amount_sats: 21, legacy_created_at: Some(50) })
    );
    let audit = ImportAudit { checking_id: Some("chk-aa".to_owned()), amount_sats: 21, wallet_id: Some("wallet".to_owned()) };
    assert_eq!(
        import_settlement(&settled("aa", 21), w.clone(), Some(stored(21, true)), Some(audit), None),
        Ok(LegacyImportPlan::AlreadyImported)
    );
    assert_eq!(
        import_settlement(&settled("aa", 21), w.clone(), Some(stored(21, true)), None, None),
        Err(LegacyError::MissingImportAudit)
    );
}

#[test]
fn unregistered_or_conflicting_settlements_are_rejected() {
    let w = Some("wallet".to_owned());
    assert_eq!(import_settlement(&settled("aa", 21), None, None, None, None), Err(LegacyError::NotInstalled));
    assert_eq!(import_settlement(&settled("aa", 21), w.clone(), None, None, None), Err(LegacyError::NotAllowlisted));
    assert_eq!(
        import_settlement(&settled("aa", 22), w.clone(), Some(stored(21, false)), None, None),
        Err(LegacyError::AmountMismatch)
    );
    assert_eq!(
        import_settlement(&settled("aa", 21), w.clone(), Some(stored(21, false)), None, Some(21)),
        Err(LegacyError::CanonicalCredit)
    );
    assert_eq!(
        import_settlement(&settled("aa", 21), Some("other".to_owned()), Some(stored(21, false)), None, None),
        Err(LegacyError::WalletMismatch)
    );
    let mut renamed = settled("aa", 21);
    renamed.checking_id = Some("chk-zz".to_owned());
    assert_eq!(
        import_settlement(&renamed, w, Some(stored(21, false)), None, None),
        Err(LegacyError::CheckingIdMismatch)
    );
}

#[test]
fn verification_requires_prior_exact_installation() {
    let m = manifest();
    assert_eq!(verify_manifest(&m, None, 0, &vec![]), Err(LegacyError::NotInstalled));
    let mut other = opening();
    other.amount_sats = 1;
    assert_eq!(verify_manifest(&m, Some(other), 2, &vec![None, None]), Err(LegacyError::OpeningMismatch));
    let rows = vec![
        Some((
            StoredPending { checking_id: Some("chk-aa".to_owned()), wallet_id: "wallet".to_owned(), amount_sats: 21, created_at: Some(50), imported: false },
            Some(500),
            120,
        )),
        Some((
            StoredPending { checking_id: Some("chk-bb".to_owned()), wallet_id: "wallet".to_owned(), amount_sats: 5, created_at: Some(50), imported: false },
            Some(500),
            120,
        )),
    ];
    assert_eq!(verify_manifest(&m, Some(opening()), 2, &rows), Ok(()));
    assert!(verify_manifest(&m, Some(opening()), 3, &rows).is_err());
    assert!(verify_manifest(&m, Some(opening()), 2, &vec![rows[0].clone(), None]).is_err());
}
