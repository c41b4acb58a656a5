//! The one-time cutover from the legacy LNbits wallet: its opening credit,
//! the allowlist of invoices still pending at the snapshot, and the import of
//! each late settlement exactly once.
use vstd::prelude::*;
use vstd::string::StringSliceAdditionalSpecFns;
use vstd::utf8::encode_utf8;

use crate::ascii::{check_lower_hex_of_len, lower_hex_of_len};
use crate::ledger::{same_optional_text, to_i64, to_u64};
use crate::text::{blank, byte_len, is_blank, same_text, text_len};
use crate::url::opt_view;

verus! {

/// An invoice of the legacy wallet that was still pending at the snapshot.
#[derive(Debug, Clone, PartialEq, Eq)]
pub struct LegacyPendingInvoice {
    pub payment_hash: String,
    pub checking_id: Option<String>,
    pub wallet_id: String,
    pub amount_sats: u64,
    pub created_at: Option<i64>,
    pub expiry_at: Option<i64>,
}

/// The cutover manifest: the legacy wallet's balance at cutover and the
/// pending invoices that may still settle into it.
#[derive(Debug, Clone, PartialEq, Eq)]
pub struct LegacyCutoverManifest {
    pub wallet_id: String,
    pub opening_credit_sats: u64,
    pub cutover_at: i64,
    pub snapshot_at: i64,
    pub pending_invoices: Vec<LegacyPendingInvoice>,
}

#[derive(Debug, Clone, Copy, PartialEq, Eq, Structural)]
pub enum LegacyManifestOutcome {
    Installed,
    AlreadyInstalled,
}

/// A legacy invoice that settled after the cutover.
#[derive(Debug, Clone, PartialEq, Eq)]
pub struct LegacySettledInvoice {
    pub payment_hash: String,
    pub checking_id: Option<String>,
    pub wallet_id: String,
    pub amount_sats: u64,
    pub settled_at: Option<i64>,
}

#[derive(Debug, Clone, Copy, PartialEq, Eq, Structural)]
pub enum LegacySettlementOutcome {
    Credited { amount_sats: u64, feed_credit_sats: u64 },
    AlreadyImported,
}

/// Why a manifest or a legacy settlement was refused.
#[derive(Debug, Clone, Copy, PartialEq, Eq, Structural)]
pub enum LegacyError {
    PaymentHash,
    WalletId,
    CheckingId,
    CutoverTime,
    SnapshotBeforeCutover,
    ForeignWallet,
    ZeroAmount,
    CreatedAfterSnapshot,
    ExpiryBeforeCreation,
    DuplicateHash,
    DuplicateCheckingId,
    IntegerRange,
    DifferentManifestInstalled,
    ImportsBeforeManifest,
    NotInstalled,
    WalletMismatch,
    NotAllowlisted,
    PendingWalletMismatch,
    AmountMismatch,
    CheckingIdMismatch,
    MissingImportAudit,
    ImportMismatch,
    CanonicalCredit,
    OpeningMismatch,
    PendingCountMismatch,
    PendingMissing,
    PendingMismatch,
}

/// A canonical payment hash: 64 lowercase hexadecimal digits.
pub fn validate_hash(hash: &str) -> (res: Result<(), LegacyError>)
    ensures
        res is Ok <==> lower_hex_of_len(hash.spec_bytes(), 64),
        res is Err ==> res == Err::<(), LegacyError>(LegacyError::PaymentHash),
{
    if check_lower_hex_of_len(hash.as_bytes(), 64) {
        Ok(())
    } else {
        Err(LegacyError::PaymentHash)
    }
}

pub open spec fn valid_wallet_id(w: Seq<char>) -> bool {
    !blank(w) && byte_len(w) <= 256
}

/// A wallet identifier: not blank, at most 256 bytes.
pub fn validate_wallet_id(wallet_id: &str) -> (res: Result<(), LegacyError>)
    ensures
        res is Ok <==> valid_wallet_id(wallet_id@),
        res is Err ==> res == Err::<(), LegacyError>(LegacyError::WalletId),
{
    if is_blank(wallet_id) || text_len(wallet_id) > 256 {
        Err(LegacyError::WalletId)
    } else {
        Ok(())
    }
}

pub open spec fn valid_checking_id(c: Option<Seq<char>>) -> bool {
    c matches Some(s) ==> !blank(s) && byte_len(s) <= 1024
}

/// A checking identifier, when present: not blank, at most 1024 bytes.
pub fn validate_optional_checking_id(checking_id: &Option<String>) -> (res: Result<(), LegacyError>)
    ensures
        res is Ok <==> valid_checking_id(opt_view(*checking_id)),
        res is Err ==> res == Err::<(), LegacyError>(LegacyError::CheckingId),
{
    if let Some(c) = checking_id {
        if is_blank(c.as_str()) || text_len(c.as_str()) > 1024 {
            return Err(LegacyError::CheckingId);
        }
    }
    Ok(())
}

/// The first check that pending invoice `i` of a manifest fails, given the
/// invoices before it.
pub open spec fn pending_check(m: LegacyCutoverManifest, i: int) -> Result<(), LegacyError> {
    let p = m.pending_invoices@[i];
    if !lower_hex_of_len(encode_utf8(p.payment_hash@), 64) {
        Err(LegacyError::PaymentHash)
    } else if !valid_wallet_id(p.wallet_id@) {
        Err(LegacyError::WalletId)
    } else if !valid_checking_id(opt_view(p.checking_id)) {
        Err(LegacyError::CheckingId)
    } else if p.wallet_id@ != m.wallet_id@ {
        Err(LegacyError::ForeignWallet)
    } else if p.amount_sats == 0 {
        Err(LegacyError::ZeroAmount)
    } else if p.created_at matches Some(c) && c > m.snapshot_at {
        Err(LegacyError::CreatedAfterSnapshot)
    } else if p.created_at matches Some(c) && p.expiry_at matches Some(e) && e < c {
        Err(LegacyError::ExpiryBeforeCreation)
    } else if exists|j: int|
        0 <= j < i && #[trigger] m.pending_invoices@[j].payment_hash@ == p.payment_hash@ {
        Err(LegacyError::DuplicateHash)
    } else if p.checking_id is Some && exists|j: int|
        0 <= j < i && opt_view(#[trigger] m.pending_invoices@[j].checking_id) == opt_view(
            p.checking_id,
        ) {
        Err(LegacyError::DuplicateCheckingId)
    } else {
        Ok(())
    }
}

/// The checks of the first `n` pending invoices, in order.
pub open spec fn pending_prefix_check(m: LegacyCutoverManifest, n: nat) -> Result<(), LegacyError>
    decreases n,
{
    if n == 0 {
        Ok(())
    } else {
        match pending_prefix_check(m, (n - 1) as nat) {
            Err(e) => Err(e),
            Ok(()) => pending_check(m, n - 1),
        }
    }
}

pub open spec fn manifest_check(m: LegacyCutoverManifest) -> Result<(), LegacyError> {
    if !valid_wallet_id(m.wallet_id@) {
        Err(LegacyError::WalletId)
    } else if m.cutover_at <= 0 {
        Err(LegacyError::CutoverTime)
    } else if m.snapshot_at < m.cutover_at {
        Err(LegacyError::SnapshotBeforeCutover)
    } else {
        pending_prefix_check(m, m.pending_invoices@.len())
    }
}

fn seen_hash(invoices: &Vec<LegacyPendingInvoice>, i: usize) -> (found: bool)
    requires
        i < invoices@.len(),
    ensures
        found == exists|j: int|
            0 <= j < i && #[trigger] invoices@[j].payment_hash@ == invoices@[i as int].payment_hash@,
{
    let mut j: usize = 0;
    while j < i
        invariant
            i < invoices@.len(),
            j <= i,
            forall|k: int|
                0 <= k < j ==> #[trigger] invoices@[k].payment_hash@ != invoices@[i as int].payment_hash@,
        decreases i - j,
    {
        if same_text(invoices[j].payment_hash.as_str(), invoices[i].payment_hash.as_str()) {
            return true;
        }
        j = j + 1;
    }
    false
}

fn seen_checking_id(invoices: &Vec<LegacyPendingInvoice>, i: usize) -> (found: bool)
    requires
        i < invoices@.len(),
    ensures
        found == exists|j: int|
            0 <= j < i && opt_view(#[trigger] invoices@[j].checking_id) == opt_view(
                invoices@[i as int].checking_id,
            ),
{
    let mut j: usize = 0;
    while j < i
        invariant
            i < invoices@.len(),
            j <= i,
            forall|k: int|
                0 <= k < j ==> opt_view(#[trigger] invoices@[k].checking_id) != opt_view(
                    invoices@[i as int].checking_id,
                ),
        decreases i - j,
    {
        if same_optional_text(&invoices[j].checking_id, &invoices[i].checking_id) {
            return true;
        }
        j = j + 1;
    }
    false
}

fn check_pending(m: &LegacyCutoverManifest, i: usize) -> (res: Result<(), LegacyError>)
    requires
        i < m.pending_invoices@.len(),
    ensures
        res == pending_check(*m, i as int),
{
    let p = &m.pending_invoices[i];
    if validate_hash(p.payment_hash.as_str()).is_err() {
        return Err(LegacyError::PaymentHash);
    }
    if validate_wallet_id(p.wallet_id.as_str()).is_err() {
        return Err(LegacyError::WalletId);
    }
    if validate_optional_checking_id(&p.checking_id).is_err() {
        return Err(LegacyError::CheckingId);
    }
    if !same_text(p.wallet_id.as_str(), m.wallet_id.as_str()) {
        return Err(LegacyError::ForeignWallet);
    }
    if p.amount_sats == 0 {
        return Err(LegacyError::ZeroAmount);
    }
    if let Some(c) = p.created_at {
        if c > m.snapshot_at {
            return Err(LegacyError::CreatedAfterSnapshot);
        }
        if let Some(e) = p.expiry_at {
            if e < c {
                return Err(LegacyError::ExpiryBeforeCreation);
            }
        }
    }
    if seen_hash(&m.pending_invoices, i) {
        return Err(LegacyError::DuplicateHash);
    }
    if p.checking_id.is_some() && seen_checking_id(&m.pending_invoices, i) {
        return Err(LegacyError::DuplicateCheckingId);
    }
    Ok(())
}

/// Check a cutover manifest: a valid wallet, a positive cutover time, a
/// snapshot at or after it, and pending invoices that are canonical, belong
/// to the wallet, are not created after the snapshot, and repeat no payment
/// hash and no checking identifier.
pub fn validate_manifest(manifest: &LegacyCutoverManifest) -> (res: Result<(), LegacyError>)
    ensures
        res == manifest_check(*manifest),
{
    if validate_wallet_id(manifest.wallet_id.as_str()).is_err() {
        return Err(LegacyError::WalletId);
    }
    if manifest.cutover_at <= 0 {
        return Err(LegacyError::CutoverTime);
    }
    if manifest.snapshot_at < manifest.cutover_at {
        return Err(LegacyError::SnapshotBeforeCutover);
    }
    let n = manifest.pending_invoices.len();
    let mut i: usize = 0;
    while i < n
        invariant
            n == manifest.pending_invoices@.len(),
            i <= n,
            pending_prefix_check(*manifest, i as nat) == Ok::<(), LegacyError>(()),
            manifest_check(*manifest) == pending_prefix_check(*manifest, n as nat),
        decreases n - i,
    {
        if let Err(e) = check_pending(manifest, i) {
            proof {
                lemma_prefix_error_sticks(*manifest, (i + 1) as nat, n as nat);
            }
            return Err(e);
        }
        i = i + 1;
    }
    Ok(())
}

proof fn lemma_prefix_error_sticks(m: LegacyCutoverManifest, k: nat, n: nat)
    requires
        k <= n,
        pending_prefix_check(m, k) is Err,
    ensures
        pending_prefix_check(m, n) == pending_prefix_check(m, k),
    decreases n - k,
{
    if k < n {
        lemma_prefix_error_sticks(m, k, (n - 1) as nat);
    }
}

/// A pending invoice as the manifest comparison sees it.
pub open spec fn pending_value(p: LegacyPendingInvoice) -> (Seq<char>, Option<Seq<char>>, Seq<char>, u64, Option<i64>, Option<i64>) {
    (p.payment_hash@, opt_view(p.checking_id), p.wallet_id@, p.amount_sats, p.created_at, p.expiry_at)
}

/// The invoice that a list keyed by payment hash holds for `hash`: the last
/// one with that hash, as a map built from the list in order keeps it.
pub open spec fn pending_lookup(s: Seq<LegacyPendingInvoice>, hash: Seq<char>) -> Option<(Seq<char>, Option<Seq<char>>, Seq<char>, u64, Option<i64>, Option<i64>)>
    decreases s.len(),
{
    if s.len() == 0 {
        None
    } else if s.last().payment_hash@ == hash {
        Some(pending_value(s.last()))
    } else {
        pending_lookup(s.drop_last(), hash)
    }
}

/// Two lists of pending invoices are the same set, keyed by payment hash.
pub open spec fn same_pending_sets(a: Seq<LegacyPendingInvoice>, b: Seq<LegacyPendingInvoice>) -> bool {
    forall|h: Seq<char>| #[trigger] pending_lookup(a, h) == pending_lookup(b, h)
}

proof fn lemma_lookup_absent(s: Seq<LegacyPendingInvoice>, h: Seq<char>)
    requires
        forall|i: int| 0 <= i < s.len() ==> #[trigger] s[i].payment_hash@ != h,
    ensures
        pending_lookup(s, h) is None,
    decreases s.len(),
{
    if s.len() > 0 {
        assert(s.last().payment_hash@ != h) by {
            assert(s[s.len() - 1].payment_hash@ != h);
        }
        assert forall|i: int| 0 <= i < s.drop_last().len() implies #[trigger] s.drop_last()[i].payment_hash@ != h by {
            assert(s.drop_last()[i] == s[i]);
        }
        lemma_lookup_absent(s.drop_last(), h);
    }
}

fn same_pending(a: &LegacyPendingInvoice, b: &LegacyPendingInvoice) -> (r: bool)
    ensures
        r == (pending_value(*a) == pending_value(*b)),
{
    same_text(a.payment_hash.as_str(), b.payment_hash.as_str()) && same_optional_text(
        &a.checking_id,
        &b.checking_id,
    ) && same_text(a.wallet_id.as_str(), b.wallet_id.as_str()) && a.amount_sats == b.amount_sats
        && a.created_at == b.created_at && a.expiry_at == b.expiry_at
}

fn lookup(s: &Vec<LegacyPendingInvoice>, hash: &str) -> (found: Option<usize>)
    ensures
        match found {
            Some(i) => i < s@.len() && pending_lookup(s@, hash@) == Some(pending_value(s@[i as int])),
            None => pending_lookup(s@, hash@) is None,
        },
{
    let mut k: usize = s.len();
    assert(s@.subrange(0, k as int) =~= s@);
    while k > 0
        invariant
            k <= s@.len(),
            pending_lookup(s@, hash@) == pending_lookup(s@.subrange(0, k as int), hash@),
        decreases k,
    {
        let ghost pre = s@.subrange(0, k as int);
        assert(pre.drop_last() =~= s@.subrange(0, k - 1));
        if same_text(s[k - 1].payment_hash.as_str(), hash) {
            return Some(k - 1);
        }
        k = k - 1;
    }
    assert(s@.subrange(0, 0) =~= Seq::<LegacyPendingInvoice>::empty());
    None
}

fn covered(a: &Vec<LegacyPendingInvoice>, b: &Vec<LegacyPendingInvoice>) -> (r: bool)
    ensures
        r == forall|i: int|
            0 <= i < a@.len() ==> pending_lookup(a@, #[trigger] a@[i].payment_hash@) == pending_lookup(
                b@,
                a@[i].payment_hash@,
            ),
{
    let mut i: usize = 0;
    while i < a.len()
        invariant
            i <= a@.len(),
            forall|j: int|
                0 <= j < i ==> pending_lookup(a@, #[trigger] a@[j].payment_hash@) == pending_lookup(
                    b@,
                    a@[j].payment_hash@,
                ),
        decreases a@.len() - i,
    {
        let h = a[i].payment_hash.as_str();
        let same = match (lookup(a, h), lookup(b, h)) {
            (Some(x), Some(y)) => same_pending(&a[x], &b[y]),
            (None, None) => true,
            _ => false,
        };
        if !same {
            return false;
        }
        i = i + 1;
    }
    true
}

/// Whether two lists of pending invoices hold the same invoices, keyed by
/// payment hash.
pub fn pending_sets_equal(left: &Vec<LegacyPendingInvoice>, right: &Vec<LegacyPendingInvoice>) -> (r: bool)
    ensures
        r == same_pending_sets(left@, right@),
{
    let l = covered(left, right);
    let r = covered(right, left);
    proof {
        if l && r {
            assert forall|h: Seq<char>| #[trigger] pending_lookup(left@, h) == pending_lookup(right@, h) by {
                if exists|i: int| 0 <= i < left@.len() && #[trigger] left@[i].payment_hash@ == h {
                    let i = choose|i: int| 0 <= i < left@.len() && #[trigger] left@[i].payment_hash@ == h;
                    assert(pending_lookup(left@, left@[i].payment_hash@) == pending_lookup(right@, left@[i].payment_hash@));
                } else if exists|i: int| 0 <= i < right@.len() && #[trigger] right@[i].payment_hash@ == h {
                    let i = choose|i: int| 0 <= i < right@.len() && #[trigger] right@[i].payment_hash@ == h;
                    assert(pending_lookup(right@, right@[i].payment_hash@) == pending_lookup(left@, right@[i].payment_hash@));
                } else {
                    lemma_lookup_absent(left@, h);
                    lemma_lookup_absent(right@, h);
                }
            }
        }
        if !l {
            let i = choose|i: int|
                0 <= i < left@.len() && !(pending_lookup(left@, #[trigger] left@[i].payment_hash@)
                    == pending_lookup(right@, left@[i].payment_hash@));
            assert(!same_pending_sets(left@, right@)) by {
                assert(pending_lookup(left@, left@[i].payment_hash@) != pending_lookup(right@, left@[i].payment_hash@));
            }
        }
        if !r {
            let i = choose|i: int|
                0 <= i < right@.len() && !(pending_lookup(right@, #[trigger] right@[i].payment_hash@)
                    == pending_lookup(left@, right@[i].payment_hash@));
            assert(!same_pending_sets(left@, right@)) by {
                assert(pending_lookup(right@, right@[i].payment_hash@) != pending_lookup(left@, right@[i].payment_hash@));
            }
        }
    }
    l && r
}

/// The opening-credit row of an installed manifest.
#[derive(Debug, Clone)]
pub struct InstalledOpening {
    pub wallet_id: String,
    pub amount_sats: i64,
    pub cutover_at: i64,
    pub snapshot_at: i64,
}

/// Whether an installed opening row and its pending invoices are exactly
/// this manifest. A negative stored amount is an inconsistency.
pub open spec fn installed_comparison(
    m: LegacyCutoverManifest,
    opening: InstalledOpening,
    pending: Seq<LegacyPendingInvoice>,
) -> Result<bool, LegacyError> {
    if opening.wallet_id@ != m.wallet_id@ {
        Ok(false)
    } else if opening.amount_sats < 0 {
        Err(LegacyError::IntegerRange)
    } else {
        Ok(
            opening.amount_sats == m.opening_credit_sats && opening.cutover_at == m.cutover_at
                && opening.snapshot_at == m.snapshot_at && same_pending_sets(pending, m.pending_invoices@),
        )
    }
}

/// What installing a manifest decides, given what is installed and how many
/// legacy imports exist.
pub open spec fn install_decision(
    m: LegacyCutoverManifest,
    installed: Option<(InstalledOpening, Seq<LegacyPendingInvoice>)>,
    import_count: i64,
) -> Result<LegacyManifestOutcome, LegacyError> {
    if manifest_check(m) is Err {
        Err(manifest_check(m)->Err_0)
    } else if m.opening_credit_sats > i64::MAX {
        Err(LegacyError::IntegerRange)
    } else {
        match installed {
            Some((opening, pending)) => match installed_comparison(m, opening, pending) {
                Err(e) => Err(e),
                Ok(true) => Ok(LegacyManifestOutcome::AlreadyInstalled),
                Ok(false) => Err(LegacyError::DifferentManifestInstalled),
            },
            None => if import_count != 0 {
                Err(LegacyError::ImportsBeforeManifest)
            } else if exists|i: int|
                0 <= i < m.pending_invoices@.len() && #[trigger] m.pending_invoices@[i].amount_sats
                    > i64::MAX {
                Err(LegacyError::IntegerRange)
            } else {
                Ok(LegacyManifestOutcome::Installed)
            },
        }
    }
}

fn amounts_fit(invoices: &Vec<LegacyPendingInvoice>) -> (ok: bool)
    ensures
        ok == !exists|i: int| 0 <= i < invoices@.len() && #[trigger] invoices@[i].amount_sats > i64::MAX,
{
    let mut i: usize = 0;
    while i < invoices.len()
        invariant
            i <= invoices@.len(),
            forall|j: int| 0 <= j < i ==> #[trigger] invoices@[j].amount_sats <= i64::MAX,
        decreases invoices@.len() - i,
    {
        if to_i64(invoices[i].amount_sats).is_err() {
            return false;
        }
        i = i + 1;
    }
    true
}

/// Decide the installation of a cutover manifest: install it once (its
/// opening credit and its pending allowlist in one transaction), recognize
/// the same manifest again, and refuse a different one or one that comes
/// after legacy imports. `installed` holds the installed opening row and the
/// installed pending invoices, when there are any.
pub fn install_manifest(
    manifest: &LegacyCutoverManifest,
    installed: Option<(InstalledOpening, Vec<LegacyPendingInvoice>)>,
    import_count: i64,
) -> (res: Result<LegacyManifestOutcome, LegacyError>)
    ensures
        res == install_decision(
            *manifest,
            match installed {
                Some((o, p)) => Some((o, p@)),
                None => None,
            },
            import_count,
        ),
{
    if let Err(e) = validate_manifest(manifest) {
        return Err(e);
    }
    if to_i64(manifest.opening_credit_sats).is_err() {
        return Err(LegacyError::IntegerRange);
    }
    match installed {
        Some((opening, pending)) => {
            if !same_text(opening.wallet_id.as_str(), manifest.wallet_id.as_str()) {
                return Err(LegacyError::DifferentManifestInstalled);
            }
            let amount = match to_u64(opening.amount_sats) {
                Ok(a) => a,
                Err(_) => return Err(LegacyError::IntegerRange),
            };
            if amount == manifest.opening_credit_sats && opening.cutover_at == manifest.cutover_at
                && opening.snapshot_at == manifest.snapshot_at && pending_sets_equal(
                &pending,
                &manifest.pending_invoices,
            ) {
                Ok(LegacyManifestOutcome::AlreadyInstalled)
            } else {
                Err(LegacyError::DifferentManifestInstalled)
            }
        },
        None => {
            if import_count != 0 {
                Err(LegacyError::ImportsBeforeManifest)
            } else if !amounts_fit(&manifest.pending_invoices) {
                Err(LegacyError::IntegerRange)
            } else {
                Ok(LegacyManifestOutcome::Installed)
            }
        },
    }
}

/// Installing a manifest and then presenting it again is recognized as the
/// same installation, whatever the import count by then.
pub proof fn law_manifest_install_is_idempotent(m: LegacyCutoverManifest, imports: i64)
    requires
        install_decision(m, None, 0) == Ok::<LegacyManifestOutcome, LegacyError>(LegacyManifestOutcome::Installed),
    ensures
        install_decision(
            m,
            Some((
                InstalledOpening {
                    wallet_id: m.wallet_id,
                    amount_sats: m.opening_credit_sats as i64,
                    cutover_at: m.cutover_at,
                    snapshot_at: m.snapshot_at,
                },
                m.pending_invoices@,
            )),
            imports,
        ) == Ok::<LegacyManifestOutcome, LegacyError>(LegacyManifestOutcome::AlreadyInstalled),
{
}

/// The allowlisted pending row of a settling invoice.
#[derive(Debug, Clone)]
pub struct StoredPending {
    pub checking_id: Option<String>,
    pub wallet_id: String,
    pub amount_sats: i64,
    pub created_at: Option<i64>,
    pub imported: bool,
}

/// The audit row of an earlier import.
#[derive(Debug, Clone)]
pub struct ImportAudit {
    pub checking_id: Option<String>,
    pub amount_sats: i64,
    pub wallet_id: Option<String>,
}

/// What importing a legacy settlement does: credit its amount, recording
/// the legacy creation time, or recognize an earlier import.
#[derive(Debug, Clone, Copy, PartialEq, Eq, Structural)]
pub enum LegacyImportPlan {
    Credit { amount_sats: u64, legacy_created_at: Option<i64> },
    AlreadyImported,
}

pub open spec fn settled_check(s: LegacySettledInvoice) -> Result<(), LegacyError> {
    if !lower_hex_of_len(encode_utf8(s.payment_hash@), 64) {
        Err(LegacyError::PaymentHash)
    } else if !valid_wallet_id(s.wallet_id@) {
        Err(LegacyError::WalletId)
    } else if !valid_checking_id(opt_view(s.checking_id)) {
        Err(LegacyError::CheckingId)
    } else if s.amount_sats == 0 {
        Err(LegacyError::ZeroAmount)
    } else {
        Ok(())
    }
}

/// What importing a settlement decides, given the installed manifest's
/// wallet, the allowlisted row for its hash, the audit row of an earlier
/// import and the credit already given to the same hash on the canonical
/// invoice path.
pub open spec fn import_decision(
    s: LegacySettledInvoice,
    manifest_wallet: Option<String>,
    pending: Option<StoredPending>,
    audit: Option<ImportAudit>,
    canonical_credit: Option<i64>,
) -> Result<LegacyImportPlan, LegacyError> {
    if settled_check(s) is Err {
        Err(settled_check(s)->Err_0)
    } else if manifest_wallet is None {
        Err(LegacyError::NotInstalled)
    } else if manifest_wallet->0@ != s.wallet_id@ {
        Err(LegacyError::WalletMismatch)
    } else if pending is None {
        Err(LegacyError::NotAllowlisted)
    } else {
        let p = pending->0;
        if p.wallet_id@ != s.wallet_id@ {
            Err(LegacyError::PendingWalletMismatch)
        } else if p.amount_sats < 0 {
            Err(LegacyError::IntegerRange)
        } else if p.amount_sats != s.amount_sats {
            Err(LegacyError::AmountMismatch)
        } else if p.checking_id is Some && opt_view(s.checking_id) != opt_view(p.checking_id) {
            Err(LegacyError::CheckingIdMismatch)
        } else if p.imported {
            match audit {
                None => Err(LegacyError::MissingImportAudit),
                Some(a) => if opt_view(a.checking_id) != opt_view(s.checking_id) {
                    Err(LegacyError::ImportMismatch)
                } else if a.amount_sats < 0 {
                    Err(LegacyError::IntegerRange)
                } else if a.amount_sats != s.amount_sats || opt_view(a.wallet_id) != Some(
                    s.wallet_id@,
                ) {
                    Err(LegacyError::ImportMismatch)
                } else {
                    Ok(LegacyImportPlan::AlreadyImported)
                },
            }
        } else if canonical_credit matches Some(c) && c > 0 {
            Err(LegacyError::CanonicalCredit)
        } else if s.amount_sats > i64::MAX {
            Err(LegacyError::IntegerRange)
        } else {
            Ok(LegacyImportPlan::Credit { amount_sats: s.amount_sats, legacy_created_at: p.created_at })
        }
    }
}

/// Decide the import of one late legacy settlement: only an allowlisted
/// pending invoice of the cutover wallet, with the snapshot's amount and
/// checking identifier, is credited, and only once; an invoice already
/// credited on the canonical invoice path is refused.
pub fn import_settlement(
    settled: &LegacySettledInvoice,
    manifest_wallet: Option<String>,
    pending: Option<StoredPending>,
    audit: Option<ImportAudit>,
    canonical_credit: Option<i64>,
) -> (res: Result<LegacyImportPlan, LegacyError>)
    ensures
        res == import_decision(*settled, manifest_wallet, pending, audit, canonical_credit),
{
    if validate_hash(settled.payment_hash.as_str()).is_err() {
        return Err(LegacyError::PaymentHash);
    }
    if validate_wallet_id(settled.wallet_id.as_str()).is_err() {
        return Err(LegacyError::WalletId);
    }
    if validate_optional_checking_id(&settled.checking_id).is_err() {
        return Err(LegacyError::CheckingId);
    }
    if settled.amount_sats == 0 {
        return Err(LegacyError::ZeroAmount);
    }
    let wallet = match manifest_wallet {
        None => return Err(LegacyError::NotInstalled),
        Some(w) => w,
    };
    if !same_text(settled.wallet_id.as_str(), wallet.as_str()) {
        return Err(LegacyError::WalletMismatch);
    }
    let p = match pending {
        None => return Err(LegacyError::NotAllowlisted),
        Some(p) => p,
    };
    if !same_text(p.wallet_id.as_str(), settled.wallet_id.as_str()) {
        return Err(LegacyError::PendingWalletMismatch);
    }
    let expected = match to_u64(p.amount_sats) {
        Ok(a) => a,
        Err(_) => return Err(LegacyError::IntegerRange),
    };
    if expected != settled.amount_sats {
        return Err(LegacyError::AmountMismatch);
    }
    if p.checking_id.is_some() && !same_optional_text(&settled.checking_id, &p.checking_id) {
        return Err(LegacyError::CheckingIdMismatch);
    }
    if p.imported {
        return match audit {
            None => Err(LegacyError::MissingImportAudit),
            Some(a) => {
                if !same_optional_text(&a.checking_id, &settled.checking_id) {
                    Err(LegacyError::ImportMismatch)
                } else {
                    match to_u64(a.amount_sats) {
                        Err(_) => Err(LegacyError::IntegerRange),
                        Ok(amount) => {
                            let wallet_matches = match &a.wallet_id {
                                Some(w) => same_text(w.as_str(), settled.wallet_id.as_str()),
                                None => false,
                            };
                            if amount != settled.amount_sats || !wallet_matches {
                                Err(LegacyError::ImportMismatch)
                            } else {
                                Ok(LegacyImportPlan::AlreadyImported)
                            }
                        },
                    }
                }
            },
        };
    }
    if let Some(c) = canonical_credit {
        if c > 0 {
            return Err(LegacyError::CanonicalCredit);
        }
    }
    if to_i64(settled.amount_sats).is_err() {
        return Err(LegacyError::IntegerRange);
    }
    Ok(LegacyImportPlan::Credit { amount_sats: settled.amount_sats, legacy_created_at: p.created_at })
}

/// A legacy settlement is credited at most once: once its import is
/// recorded (the pending row marked imported, the audit row written from
/// the settlement), presenting it again is recognized as already imported.
pub proof fn law_legacy_import_is_once(
    s: LegacySettledInvoice,
    wallet: String,
    p: StoredPending,
    canonical_credit: Option<i64>,
)
    requires
        import_decision(s, Some(wallet), Some(p), None, canonical_credit) is Ok,
        import_decision(s, Some(wallet), Some(p), None, canonical_credit)->Ok_0 is Credit,
    ensures
        import_decision(
            s,
            Some(wallet),
            Some(StoredPending { imported: true, ..p }),
            Some(ImportAudit {
                checking_id: s.checking_id,
                amount_sats: s.amount_sats as i64,
                wallet_id: Some(s.wallet_id),
            }),
            canonical_credit,
        ) == Ok::<LegacyImportPlan, LegacyError>(LegacyImportPlan::AlreadyImported),
{
}

/// What checking a supplied manifest against the installed state finds,
/// given the installed opening row, the number of installed pending rows and
/// the installed row for each of the manifest's pending invoices.
pub open spec fn verify_decision(
    m: LegacyCutoverManifest,
    opening: Option<InstalledOpening>,
    installed_count: i64,
    rows: Seq<Option<(StoredPending, Option<i64>, i64)>>,
) -> Result<(), LegacyError> {
    match opening {
        None => Err(LegacyError::NotInstalled),
        Some(o) => if o.wallet_id@ != m.wallet_id@ {
            Err(LegacyError::OpeningMismatch)
        } else if o.amount_sats < 0 {
            Err(LegacyError::IntegerRange)
        } else if o.amount_sats != m.opening_credit_sats || o.cutover_at != m.cutover_at
            || o.snapshot_at != m.snapshot_at {
            Err(LegacyError::OpeningMismatch)
        } else if installed_count < 0 {
            Err(LegacyError::IntegerRange)
        } else if installed_count != m.pending_invoices@.len() {
            Err(LegacyError::PendingCountMismatch)
        } else {
            verify_rows(m, rows, m.pending_invoices@.len())
        },
    }
}

/// The first of the first `n` pending invoices whose installed row is
/// missing or differs.
pub open spec fn verify_rows(
    m: LegacyCutoverManifest,
    rows: Seq<Option<(StoredPending, Option<i64>, i64)>>,
    n: nat,
) -> Result<(), LegacyError>
    decreases n,
{
    if n == 0 {
        Ok(())
    } else {
        match verify_rows(m, rows, (n - 1) as nat) {
            Err(e) => Err(e),
            Ok(()) => row_check(m, rows, n - 1),
        }
    }
}

pub open spec fn row_check(
    m: LegacyCutoverManifest,
    rows: Seq<Option<(StoredPending, Option<i64>, i64)>>,
    i: int,
) -> Result<(), LegacyError> {
    let p = m.pending_invoices@[i];
    if i >= rows.len() || rows[i] is None {
        Err(LegacyError::PendingMissing)
    } else {
        let (row, expiry_at, snapshot_at) = rows[i]->0;
        if opt_view(row.checking_id) != opt_view(p.checking_id) || row.wallet_id@ != p.wallet_id@ {
            Err(LegacyError::PendingMismatch)
        } else if row.amount_sats < 0 {
            Err(LegacyError::IntegerRange)
        } else if row.amount_sats != p.amount_sats || row.created_at != p.created_at || expiry_at
            != p.expiry_at || snapshot_at != m.snapshot_at {
            Err(LegacyError::PendingMismatch)
        } else {
            Ok(())
        }
    }
}

/// Verify that a supplied manifest is exactly the installed one. `rows[i]`
/// is the installed row for the manifest's pending invoice `i`: the pending
/// row, its expiry and its snapshot time. Nothing is installed or changed.
pub fn verify_manifest(
    manifest: &LegacyCutoverManifest,
    opening: Option<InstalledOpening>,
    installed_count: i64,
    rows: &Vec<Option<(StoredPending, Option<i64>, i64)>>,
) -> (res: Result<(), LegacyError>)
    ensures
        res == verify_decision(*manifest, opening, installed_count, rows@),
{
    let o = match opening {
        None => return Err(LegacyError::NotInstalled),
        Some(o) => o,
    };
    if !same_text(o.wallet_id.as_str(), manifest.wallet_id.as_str()) {
        return Err(LegacyError::OpeningMismatch);
    }
    let amount = match to_u64(o.amount_sats) {
        Ok(a) => a,
        Err(_) => return Err(LegacyError::IntegerRange),
    };
    if amount != manifest.opening_credit_sats || o.cutover_at != manifest.cutover_at
        || o.snapshot_at != manifest.snapshot_at {
        return Err(LegacyError::OpeningMismatch);
    }
    if installed_count < 0 {
        return Err(LegacyError::IntegerRange);
    }
    let n = manifest.pending_invoices.len();
    if installed_count as u64 != n as u64 {
        return Err(LegacyError::PendingCountMismatch);
    }
    let mut i: usize = 0;
    while i < n
        invariant
            n == manifest.pending_invoices@.len(),
            i <= n,
            verify_rows(*manifest, rows@, i as nat) == Ok::<(), LegacyError>(()),
            verify_decision(*manifest, opening, installed_count, rows@) == verify_rows(
                *manifest,
                rows@,
                n as nat,
            ),
        decreases n - i,
    {
        let res = if i >= rows.len() {
            Err(LegacyError::PendingMissing)
        } else {
            match &rows[i] {
                None => Err(LegacyError::PendingMissing),
                Some((row, expiry_at, snapshot_at)) => {
                    let p = &manifest.pending_invoices[i];
                    if !same_optional_text(&row.checking_id, &p.checking_id) || !same_text(
                        row.wallet_id.as_str(),
                        p.wallet_id.as_str(),
                    ) {
                        Err(LegacyError::PendingMismatch)
                    } else {
                        match to_u64(row.amount_sats) {
                            Err(_) => Err(LegacyError::IntegerRange),
                            Ok(amount) => if amount != p.amount_sats || row.created_at
                                != p.created_at || *expiry_at != p.expiry_at || *snapshot_at
                                != manifest.snapshot_at {
                                Err(LegacyError::PendingMismatch)
                            } else {
                                Ok(())
                            },
                        }
                    }
                },
            }
        };
        assert(res == row_check(*manifest, rows@, i as int));
        if let Err(e) = res {
            proof {
                lemma_rows_error_sticks(*manifest, rows@, (i + 1) as nat, n as nat);
            }
            return Err(e);
        }
        i = i + 1;
    }
    Ok(())
}

proof fn lemma_rows_error_sticks(
    m: LegacyCutoverManifest,
    rows: Seq<Option<(StoredPending, Option<i64>, i64)>>,
    k: nat,
    n: nat,
)
    requires
        k <= n,
        verify_rows(m, rows, k) is Err,
    ensures
        verify_rows(m, rows, n) == verify_rows(m, rows, k),
    decreases n - k,
{
    if k < n {
        lemma_rows_error_sticks(m, rows, k, (n - 1) as nat);
    }
}

} // verus!
