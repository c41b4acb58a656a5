//! The LNbits cutover: a stable snapshot of the legacy wallet and its pending
//! incoming invoices, and the reconciliation of allowlisted invoices that
//! were paid after the cutover.
use vstd::prelude::*;
use vstd::string::StringSliceAdditionalSpecFns;
use vstd::string::StrSliceExecFns;
use vstd::utf8::encode_utf8;

use crate::ascii::{check_lower_hex_of_len, eq_ignore_ascii_case, lower_hex_of_len, same_ignoring_case};
use crate::config::{loopback, IpAddress};
use crate::ledger::legacy::LegacySettledInvoice;
use crate::lexical::{compare_bytes, lemma_lex_asymmetric, lemma_lex_irreflexive, lemma_lex_total, lemma_lex_transitive, lex_less, LexOrder};
use crate::text::same_text;
use crate::url::{opt_view, parse_url, parsed_url, UrlModel, UrlParts};

verus! {

broadcast use vstd::seq_lib::group_to_multiset_ensures;

/// Why a snapshot or a reconciliation was refused.
#[derive(Debug, Clone, PartialEq, Eq)]
pub enum MigrateError {
    /// An amount that is negative or not a whole number of satoshis.
    Amount { field: String, msat: i64 },
    PaymentHash,
    UnexpectedWallet,
    DuplicatePending,
    DetailsStatus,
    WalletMismatch,
    HashMismatch,
    CheckingIdMismatch,
    AmountMismatch,
    MissingDetails,
    InvalidUrl,
    UnsupportedScheme,
    EmbeddedCredentials,
    QueryOrFragment,
    MissingHost,
    NotLoopback,
    InvalidCutover,
    TooFewStableRounds,
    TooFewMaxRounds,
    SnapshotBeforeCutover,
}

/// The whole satoshis of a millisatoshi amount, where it is exact.
pub open spec fn sats_of(msat: int) -> Option<nat> {
    if msat < 0 || msat % 1000 != 0 {
        None
    } else {
        Some((msat / 1000) as nat)
    }
}

/// The satoshis of a millisatoshi amount, refusing a negative amount and
/// one that would lose a fraction of a satoshi. `field` names the amount
/// in the error.
pub fn exact_sats(msat: i64, field: &str) -> (res: Result<u64, MigrateError>)
    ensures
        match sats_of(msat as int) {
            Some(s) => res == Ok::<u64, MigrateError>(s as u64),
            None => res matches Err(MigrateError::Amount { field: f, msat: m }) && f@ == field@ && m
                == msat,
        },
{
    if msat < 0 || msat % 1000 != 0 {
        return Err(MigrateError::Amount { field: field.to_string(), msat });
    }
    Ok((msat / 1000) as u64)
}

/// An LNbits payment hash: exactly 64 bytes of lowercase hexadecimal.
pub fn validate_payment_hash(hash: &str) -> (res: Result<(), MigrateError>)
    ensures
        res is Ok <==> lower_hex_of_len(hash.spec_bytes(), 64),
        res is Err ==> res == Err::<(), MigrateError>(MigrateError::PaymentHash),
{
    if check_lower_hex_of_len(hash.as_bytes(), 64) {
        Ok(())
    } else {
        Err(MigrateError::PaymentHash)
    }
}

/// An allowlisted legacy invoice, as the cutover manifest records it.
#[derive(Debug, Clone)]
pub struct PendingInvoiceFile {
    pub payment_hash: String,
    pub checking_id: Option<String>,
    pub wallet_id: String,
    pub amount_sats: u64,
    pub created_at: Option<i64>,
    pub expiry_at: Option<i64>,
}

/// The cutover manifest: the wallet, its opening balance and the pending
/// invoices that may still be paid.
#[derive(Debug, Clone)]
pub struct ManifestFile {
    pub wallet_id: String,
    pub opening_credit_sats: u64,
    pub cutover_at: i64,
    pub snapshot_at: i64,
    pub pending_invoices: Vec<PendingInvoiceFile>,
}

/// A payment as LNbits lists it.
#[derive(Debug, Clone)]
pub struct LnbitsPayment {
    pub checking_id: String,
    pub payment_hash: String,
    pub wallet_id: String,
    pub amount: i64,
    pub status: String,
}

/// LNbits' answer on one payment.
#[derive(Debug, Clone)]
pub struct PaymentStatusResponse {
    pub paid: bool,
    pub status: Option<String>,
    pub details: Option<LnbitsPayment>,
}

/// The wallet balance and pending invoices at one moment.
#[derive(Debug, Clone)]
pub struct StableSnapshot {
    pub wallet_id: String,
    pub balance_msat: i64,
    pub pending_invoices: Vec<PendingInvoiceFile>,
}

/// The checks on the details LNbits gives of a paid allowlisted invoice:
/// settled, in the manifest's wallet, with the allowlisted hash, checking
/// ID and exact amount.
pub open spec fn settled_details_check(
    manifest: ManifestFile,
    pending: PendingInvoiceFile,
    details: LnbitsPayment,
) -> Option<MigrateError> {
    if details.status@ != "success"@ {
        Some(MigrateError::DetailsStatus)
    } else if details.wallet_id@ != manifest.wallet_id@ || details.wallet_id@ != pending.wallet_id@ {
        Some(MigrateError::WalletMismatch)
    } else if details.payment_hash@ != pending.payment_hash@ {
        Some(MigrateError::HashMismatch)
    } else if opt_view(pending.checking_id) != Some(details.checking_id@) {
        Some(MigrateError::CheckingIdMismatch)
    } else {
        None
    }
}

/// Check the details of a paid allowlisted invoice (see
/// `settled_details_check`); the amount must be exact and equal the
/// manifest's.
pub fn verify_settled_details(
    manifest: &ManifestFile,
    pending: &PendingInvoiceFile,
    details: &LnbitsPayment,
) -> (res: Result<(), MigrateError>)
    ensures
        match settled_details_check(*manifest, *pending, *details) {
            Some(e) => res == Err::<(), MigrateError>(e),
            None => match sats_of(details.amount as int) {
                None => res matches Err(MigrateError::Amount { field: f, msat: m }) && m
                    == details.amount,
                Some(s) => if s != pending.amount_sats {
                    res == Err::<(), MigrateError>(MigrateError::AmountMismatch)
                } else {
                    res is Ok
                },
            },
        },
{
    if !same_text(details.status.as_str(), "success") {
        return Err(MigrateError::DetailsStatus);
    }
    if !same_text(details.wallet_id.as_str(), manifest.wallet_id.as_str()) || !same_text(
        details.wallet_id.as_str(),
        pending.wallet_id.as_str(),
    ) {
        return Err(MigrateError::WalletMismatch);
    }
    if !same_text(details.payment_hash.as_str(), pending.payment_hash.as_str()) {
        return Err(MigrateError::HashMismatch);
    }
    match &pending.checking_id {
        None => return Err(MigrateError::CheckingIdMismatch),
        Some(c) => if !same_text(c.as_str(), details.checking_id.as_str()) {
            return Err(MigrateError::CheckingIdMismatch);
        },
    }
    let sats = match exact_sats(details.amount, "legacy paid invoice amount") {
        Ok(s) => s,
        Err(e) => return Err(e),
    };
    if sats != pending.amount_sats {
        return Err(MigrateError::AmountMismatch);
    }
    Ok(())
}

/// What went wrong with a listed payment.
pub enum PaymentFault {
    UnexpectedWallet,
    PaymentHash,
    Amount(i64),
}

/// The error a fault is reported as.
pub open spec fn reports(e: MigrateError, f: PaymentFault) -> bool {
    match f {
        PaymentFault::UnexpectedWallet => e == MigrateError::UnexpectedWallet,
        PaymentFault::PaymentHash => e == MigrateError::PaymentHash,
        PaymentFault::Amount(m) => e matches MigrateError::Amount { msat, .. } && msat == m,
    }
}

/// A listed payment is an incoming invoice still pending.
pub open spec fn is_pending_incoming(p: LnbitsPayment) -> bool {
    p.amount > 0 && p.status@ == "pending"@
}

/// The manifest entry of a pending incoming payment.
pub open spec fn pending_entry(p: LnbitsPayment) -> PendingInvoiceFile {
    PendingInvoiceFile {
        payment_hash: p.payment_hash,
        checking_id: Some(p.checking_id),
        wallet_id: p.wallet_id,
        amount_sats: (p.amount / 1000) as u64,
        created_at: None,
        expiry_at: None,
    }
}

/// The pending incoming invoices among listed payments, in listing order:
/// every payment must belong to the wallet, and a pending incoming one
/// must have a canonical hash and an exact amount. The first fault in
/// listing order is the answer.
pub open spec fn collect_pending(wallet: Seq<char>, ps: Seq<LnbitsPayment>) -> Result<
    Seq<PendingInvoiceFile>,
    PaymentFault,
>
    decreases ps.len(),
{
    if ps.len() == 0 {
        Ok(Seq::empty())
    } else {
        match collect_pending(wallet, ps.drop_last()) {
            Err(f) => Err(f),
            Ok(acc) => {
                let p = ps.last();
                if p.wallet_id@ != wallet {
                    Err(PaymentFault::UnexpectedWallet)
                } else if !is_pending_incoming(p) {
                    Ok(acc)
                } else if !lower_hex_of_len(encode_utf8(p.payment_hash@), 64) {
                    Err(PaymentFault::PaymentHash)
                } else if p.amount % 1000 != 0 {
                    Err(PaymentFault::Amount(p.amount))
                } else {
                    Ok(acc.push(pending_entry(p)))
                }
            },
        }
    }
}

/// A fault in a prefix of the listing is the listing's fault.
pub proof fn lemma_fault_persists(wallet: Seq<char>, ps: Seq<LnbitsPayment>, i: int)
    requires
        0 <= i <= ps.len(),
        collect_pending(wallet, ps.take(i)) is Err,
    ensures
        collect_pending(wallet, ps) == collect_pending(wallet, ps.take(i)),
    decreases ps.len() - i,
{
    if i == ps.len() {
        assert(ps.take(i) =~= ps);
    } else {
        assert(ps.take(i + 1).drop_last() =~= ps.take(i));
        lemma_fault_persists(wallet, ps, i + 1);
    }
}

/// The byte key an entry is ordered by: its payment hash.
pub open spec fn hash_key(p: PendingInvoiceFile) -> Seq<u8> {
    encode_utf8(p.payment_hash@)
}

/// Entries in strictly increasing order of payment hash.
pub open spec fn strictly_sorted(s: Seq<PendingInvoiceFile>) -> bool {
    forall|i: int, j: int| 0 <= i < j < s.len() ==> lex_less(hash_key(#[trigger] s[i]), hash_key(#[trigger] s[j]))
}

/// Two entries share a payment hash.
pub open spec fn has_duplicate_hash(s: Seq<PendingInvoiceFile>) -> bool {
    exists|i: int, j: int| 0 <= i < j < s.len() && #[trigger] s[i].payment_hash@ == #[trigger] s[j].payment_hash@
}

/// Insert an entry into a list kept in strictly increasing hash order;
/// `false` (and no change) where an entry with the same hash is there.
fn insert_by_hash(list: &mut Vec<PendingInvoiceFile>, item: PendingInvoiceFile) -> (inserted: bool)
    requires
        strictly_sorted(old(list)@),
    ensures
        strictly_sorted(final(list)@),
        inserted ==> final(list)@.to_multiset() == old(list)@.to_multiset().insert(item),
        !inserted ==> final(list)@ == old(list)@ && exists|k: int| 0 <= k < old(list)@.len() && (
        #[trigger] old(list)@[k]).payment_hash@ == item.payment_hash@,
{
    let mut j: usize = 0;
    let n = list.len();
    let mut done = false;
    let mut found_same = false;
    while j < n && !done
        invariant
            n == list.len(),
            j <= n,
            strictly_sorted(list@),
            forall|k: int| 0 <= k < j ==> lex_less(hash_key(#[trigger] list@[k]), hash_key(item)),
            done ==> j < n,
            done && found_same ==> list@[j as int].payment_hash@ == item.payment_hash@,
            done && !found_same ==> lex_less(hash_key(item), hash_key(list@[j as int])),
            !done ==> !found_same,
        decreases (n - j) * 2 + (if done { 0int } else { 1int }),
    {
        let o = compare_bytes(list[j].payment_hash.as_str().as_bytes(), item.payment_hash.as_str().as_bytes());
        if o == LexOrder::Before {
            j = j + 1;
        } else {
            if o == LexOrder::Same {
                proof {
                    vstd::utf8::encode_utf8_decode_utf8(list@[j as int].payment_hash@);
                    vstd::utf8::encode_utf8_decode_utf8(item.payment_hash@);
                }
                found_same = true;
            }
            done = true;
        }
    }
    if found_same {
        assert(list@[j as int].payment_hash@ == item.payment_hash@);
        return false;
    }
    let ghost before = list@;
    proof {
        if j < n {
            assert(lex_less(hash_key(item), hash_key(before[j as int])));
        }
        assert forall|k: int| j <= k < before.len() implies lex_less(hash_key(item), hash_key(#[trigger] before[k])) by {
            lemma_lex_transitive(hash_key(item), hash_key(before[j as int]), hash_key(before[k]));
        }
    }
    list.insert(j, item);
    proof {
        let after = list@;
        assert(after =~= before.insert(j as int, item));
        assert forall|a: int, b: int| 0 <= a < b < after.len() implies lex_less(hash_key(#[trigger] after[a]), hash_key(#[trigger] after[b])) by {
            if b < j {
            } else if a < j && b == j {
            } else if a < j && b > j {
                lemma_lex_transitive(hash_key(before[a]), hash_key(item), hash_key(before[b - 1]));
            } else if a == j {
            } else {
            }
        }
    }
    true
}

/// The snapshot of a wallet listing: the balance must be exact, every
/// listed payment must pass `collect_pending`, and the pending incoming
/// invoices are returned in strictly increasing hash order; two with the
/// same hash refuse the listing.
#[verifier::rlimit(40)]
#[verifier::loop_isolation(false)]
pub fn snapshot_from(wallet_id: String, balance_msat: i64, payments: Vec<LnbitsPayment>) -> (res: Result<
    StableSnapshot,
    MigrateError,
>)
    ensures
        sats_of(balance_msat as int) is None ==> (res matches Err(MigrateError::Amount { msat: m, .. })
            && m == balance_msat),
        sats_of(balance_msat as int) is Some ==> match collect_pending(wallet_id@, payments@) {
            Err(f) => (res matches Err(e) && reports(e, f)),
            Ok(list) => match res {
                Ok(snap) => {
                    &&& snap.wallet_id == wallet_id
                    &&& snap.balance_msat == balance_msat
                    &&& strictly_sorted(snap.pending_invoices@)
                    &&& snap.pending_invoices@.to_multiset() == list.to_multiset()
                },
                Err(e) => e == MigrateError::DuplicatePending && has_duplicate_hash(list),
            },
        },
{
    match exact_sats(balance_msat, "LNbits wallet balance") {
        Err(e) => return Err(e),
        Ok(_) => {},
    }
    let ghost all = payments@;
    let n = payments.len();
    let mut rest = payments;
    let mut collected: Vec<PendingInvoiceFile> = Vec::new();
    let mut i: usize = 0;
    proof {
        assert(all.take(0) =~= Seq::<LnbitsPayment>::empty());
        assert(all.subrange(0, n as int) =~= all);
    }
    while i < n
        invariant
            n == all.len(),
            i <= n,
            rest@ == all.subrange(i as int, n as int),
            collect_pending(wallet_id@, all.take(i as int)) == Ok::<Seq<PendingInvoiceFile>, PaymentFault>(collected@),
        decreases n - i,
    {
        let p = rest.remove(0);
        proof {
            assert(all.take(i + 1).drop_last() =~= all.take(i as int));
            assert(all.take(i + 1).last() == p);
            assert(rest@ =~= all.subrange(i + 1, n as int));
        }
        if !same_text(p.wallet_id.as_str(), wallet_id.as_str()) {
            proof {
                lemma_fault_persists(wallet_id@, all, i + 1);
            }
            return Err(MigrateError::UnexpectedWallet);
        }
        if p.amount > 0 && same_text(p.status.as_str(), "pending") {
            if let Err(e) = validate_payment_hash(p.payment_hash.as_str()) {
                proof {
                    lemma_fault_persists(wallet_id@, all, i + 1);
                }
                return Err(e);
            }
            let amount_sats = match exact_sats(p.amount, "pending legacy invoice amount") {
                Ok(a) => a,
                Err(e) => {
                    proof {
                        lemma_fault_persists(wallet_id@, all, i + 1);
                    }
                    return Err(e);
                },
            };
            collected.push(
                PendingInvoiceFile {
                    payment_hash: p.payment_hash,
                    checking_id: Some(p.checking_id),
                    wallet_id: p.wallet_id,
                    amount_sats,
                    created_at: None,
                    expiry_at: None,
                },
            );
        }
        i = i + 1;
    }
    proof {
        assert(all.take(n as int) =~= all);
    }
    let ghost list = collected@;
    let m = collected.len();
    let mut pending = collected;
    let mut sorted: Vec<PendingInvoiceFile> = Vec::new();
    let mut k: usize = 0;
    proof {
        assert(list.take(0) =~= Seq::<PendingInvoiceFile>::empty());
        assert(list.subrange(0, m as int) =~= list);
    }
    while k < m
        invariant
            m == list.len(),
            k <= m,
            pending@ == list.subrange(k as int, m as int),
            strictly_sorted(sorted@),
            sorted@.to_multiset() == list.take(k as int).to_multiset(),
        decreases m - k,
    {
        let item = pending.remove(0);
        proof {
            assert(pending@ =~= list.subrange(k + 1, m as int));
            assert(item == list[k as int]);
            assert(list.take(k + 1) =~= list.take(k as int).push(item));
        }
        let ghost prior = sorted@;
        if !insert_by_hash(&mut sorted, item) {
            proof {
                let w = choose|w: int| 0 <= w < prior.len() && (#[trigger] prior[w]).payment_hash@ == item.payment_hash@;
                assert(prior.to_multiset().count(prior[w]) > 0);
                assert(list.take(k as int).contains(prior[w]));
                let v = choose|v: int| 0 <= v < k && list.take(k as int)[v] == prior[w];
                assert(list[v].payment_hash@ == list[k as int].payment_hash@);
                assert(has_duplicate_hash(list));
            }
            return Err(MigrateError::DuplicatePending);
        }
        k = k + 1;
    }
    proof {
        assert(list.take(m as int) =~= list);
    }
    Ok(StableSnapshot { wallet_id, balance_msat, pending_invoices: sorted })
}

/// The checks on the LNbits base URL: a parseable `http` or `https` URL
/// without credentials, query or fragment, whose host is `localhost` (any
/// case) or a loopback address. `host_ip` is the address the host text
/// denotes, if any. On success, whether the path needs a trailing `/`.
pub open spec fn lnbits_url_check(url: Option<UrlModel>, host_ip: Option<IpAddress>) -> Result<bool, MigrateError> {
    match url {
        None => Err(MigrateError::InvalidUrl),
        Some(u) => if u.scheme != "http"@ && u.scheme != "https"@ {
            Err(MigrateError::UnsupportedScheme)
        } else if u.username.len() > 0 || u.password is Some {
            Err(MigrateError::EmbeddedCredentials)
        } else if u.query is Some || u.fragment is Some {
            Err(MigrateError::QueryOrFragment)
        } else {
            match u.host {
                None => Err(MigrateError::MissingHost),
                Some(h) => if same_ignoring_case(encode_utf8(h), encode_utf8("localhost"@)) || (
                host_ip is Some && loopback(host_ip->0)) {
                    Ok(!(u.path.len() > 0 && u.path.last() == '/'))
                } else {
                    Err(MigrateError::NotLoopback)
                },
            }
        },
    }
}

/// Check the LNbits base URL (see `lnbits_url_check`).
pub fn validate_loopback_url(raw: &str, host_ip: Option<IpAddress>) -> (res: Result<bool, MigrateError>)
    ensures
        res == lnbits_url_check(parsed_url(raw@), host_ip),
{
    let u = match parse_url(raw) {
        None => return Err(MigrateError::InvalidUrl),
        Some(u) => u,
    };
    if !same_text(u.scheme.as_str(), "http") && !same_text(u.scheme.as_str(), "https") {
        return Err(MigrateError::UnsupportedScheme);
    }
    if u.username.as_str().as_bytes().len() > 0 || u.password.is_some() {
        proof {
            vstd::utf8::encode_utf8_decode_utf8(u.username@);
            if u.username@.len() == 0 {
                assert(encode_utf8(u.username@) =~= Seq::<u8>::empty());
            }
        }
        return Err(MigrateError::EmbeddedCredentials);
    }
    proof {
        if u.username@.len() > 0 {
            assert(vstd::utf8::decode_utf8(Seq::<u8>::empty()) =~= Seq::<char>::empty());
            vstd::utf8::encode_utf8_decode_utf8(u.username@);
        }
    }
    if u.query.is_some() || u.fragment.is_some() {
        return Err(MigrateError::QueryOrFragment);
    }
    let host = match &u.host {
        None => return Err(MigrateError::MissingHost),
        Some(h) => h,
    };
    let local = eq_ignore_ascii_case(host.as_str().as_bytes(), "localhost".as_bytes());
    let loop_ip = match host_ip {
        Some(ip) => ip.is_loopback(),
        None => false,
    };
    if !local && !loop_ip {
        return Err(MigrateError::NotLoopback);
    }
    let n = u.path.as_str().unicode_len();
    Ok(!(n > 0 && u.path.as_str().get_char(n - 1) == '/'))
}

/// The bounds on the snapshot command: a positive cutover time, at least
/// two identical rounds, and room for them within the round limit.
pub fn check_snapshot_args(cutover_at: i64, stable_rounds: u32, max_rounds: u32) -> (res: Result<(), MigrateError>)
    ensures
        cutover_at <= 0 ==> res == Err::<(), MigrateError>(MigrateError::InvalidCutover),
        cutover_at > 0 && stable_rounds < 2 ==> res == Err::<(), MigrateError>(MigrateError::TooFewStableRounds),
        cutover_at > 0 && stable_rounds >= 2 && max_rounds < stable_rounds ==> res == Err::<(), MigrateError>(
            MigrateError::TooFewMaxRounds,
        ),
        cutover_at > 0 && stable_rounds >= 2 && max_rounds >= stable_rounds ==> res is Ok,
{
    if cutover_at <= 0 {
        return Err(MigrateError::InvalidCutover);
    }
    if stable_rounds < 2 {
        return Err(MigrateError::TooFewStableRounds);
    }
    if max_rounds < stable_rounds {
        return Err(MigrateError::TooFewMaxRounds);
    }
    Ok(())
}

/// The manifest of a stable snapshot taken at `snapshot_at`: never before
/// the cutover, with the exact balance as the opening credit.
pub fn manifest_from(snapshot: StableSnapshot, cutover_at: i64, snapshot_at: i64) -> (res: Result<ManifestFile, MigrateError>)
    ensures
        snapshot_at < cutover_at ==> res == Err::<ManifestFile, MigrateError>(MigrateError::SnapshotBeforeCutover),
        snapshot_at >= cutover_at ==> match sats_of(snapshot.balance_msat as int) {
            None => (res matches Err(MigrateError::Amount { msat: m, .. }) && m == snapshot.balance_msat),
            Some(s) => (res matches Ok(m) && m.wallet_id == snapshot.wallet_id && m.opening_credit_sats == s
                && m.cutover_at == cutover_at && m.snapshot_at == snapshot_at && m.pending_invoices@
                == snapshot.pending_invoices@),
        },
{
    if snapshot_at < cutover_at {
        return Err(MigrateError::SnapshotBeforeCutover);
    }
    let opening = match exact_sats(snapshot.balance_msat, "LNbits wallet balance") {
        Ok(s) => s,
        Err(e) => return Err(e),
    };
    Ok(
        ManifestFile {
            wallet_id: snapshot.wallet_id,
            opening_credit_sats: opening,
            cutover_at,
            snapshot_at,
            pending_invoices: snapshot.pending_invoices,
        },
    )
}

/// Two entries read the same.
pub open spec fn same_entry(a: PendingInvoiceFile, b: PendingInvoiceFile) -> bool {
    &&& a.payment_hash@ == b.payment_hash@
    &&& opt_view(a.checking_id) == opt_view(b.checking_id)
    &&& a.wallet_id@ == b.wallet_id@
    &&& a.amount_sats == b.amount_sats
    &&& a.created_at == b.created_at
    &&& a.expiry_at == b.expiry_at
}

/// Two snapshots read the same.
pub open spec fn same_snapshot(a: StableSnapshot, b: StableSnapshot) -> bool {
    &&& a.wallet_id@ == b.wallet_id@
    &&& a.balance_msat == b.balance_msat
    &&& a.pending_invoices@.len() == b.pending_invoices@.len()
    &&& forall|i: int| 0 <= i < a.pending_invoices@.len() ==> same_entry(#[trigger] a.pending_invoices@[i], b.pending_invoices@[i])
}

fn same_optional(a: &Option<String>, b: &Option<String>) -> (r: bool)
    ensures
        r == (opt_view(*a) == opt_view(*b)),
{
    match (a, b) {
        (Some(x), Some(y)) => same_text(x.as_str(), y.as_str()),
        (None, None) => true,
        _ => false,
    }
}

/// Whether two snapshots read the same.
pub fn snapshots_equal(a: &StableSnapshot, b: &StableSnapshot) -> (r: bool)
    ensures
        r == same_snapshot(*a, *b),
{
    if !same_text(a.wallet_id.as_str(), b.wallet_id.as_str()) || a.balance_msat != b.balance_msat
        || a.pending_invoices.len() != b.pending_invoices.len() {
        return false;
    }
    let mut i: usize = 0;
    while i < a.pending_invoices.len()
        invariant
            i <= a.pending_invoices@.len(),
            a.pending_invoices@.len() == b.pending_invoices@.len(),
            forall|k: int| 0 <= k < i ==> same_entry(#[trigger] a.pending_invoices@[k], b.pending_invoices@[k]),
        decreases a.pending_invoices@.len() - i,
    {
        let x = &a.pending_invoices[i];
        let y = &b.pending_invoices[i];
        if !same_text(x.payment_hash.as_str(), y.payment_hash.as_str()) || !same_optional(
            &x.checking_id,
            &y.checking_id,
        ) || !same_text(x.wallet_id.as_str(), y.wallet_id.as_str()) || x.amount_sats != y.amount_sats
            || x.created_at != y.created_at || x.expiry_at != y.expiry_at {
            return false;
        }
        i = i + 1;
    }
    true
}

/// The rounds of a stable snapshot: the state must read the same in
/// `stable_rounds` consecutive rounds.
pub struct StabilityTracker {
    pub stable_rounds: u32,
    pub previous: Option<StableSnapshot>,
    pub identical_rounds: u32,
}

impl StabilityTracker {
    pub fn new(stable_rounds: u32) -> (t: Self)
        ensures
            t.stable_rounds == stable_rounds,
            t.previous is None,
            t.identical_rounds == 0,
    {
        StabilityTracker { stable_rounds, previous: None, identical_rounds: 0 }
    }

    /// Take the snapshot of one round. A snapshot that reads as the previous
    /// one extends the run of identical rounds, any other starts a new run;
    /// once the run reaches `stable_rounds` the snapshot is returned.
    pub fn observe(&mut self, current: StableSnapshot) -> (stable: Option<StableSnapshot>)
        ensures
            final(self).stable_rounds == old(self).stable_rounds,
            final(self).identical_rounds == (if old(self).previous is Some && same_snapshot(
                old(self).previous->0,
                current,
            ) {
                if old(self).identical_rounds == u32::MAX {
                    u32::MAX as int
                } else {
                    old(self).identical_rounds + 1
                }
            } else {
                1
            }),
            final(self).identical_rounds >= old(self).stable_rounds ==> stable == Some(current),
            final(self).identical_rounds < old(self).stable_rounds ==> stable is None && final(self).previous
                == Some(current),
    {
        let same = match &self.previous {
            Some(p) => snapshots_equal(p, &current),
            None => false,
        };
        if same {
            if self.identical_rounds < u32::MAX {
                self.identical_rounds = self.identical_rounds + 1;
            }
        } else {
            self.identical_rounds = 1;
        }
        if self.identical_rounds >= self.stable_rounds {
            Some(current)
        } else {
            self.previous = Some(current);
            None
        }
    }
}

/// What reconciling one allowlisted invoice does.
#[derive(Debug, Clone)]
pub enum ReconcileAction {
    /// Paid: import this settlement.
    Import(LegacySettledInvoice),
    /// LNbits reports the payment failed.
    Failed,
    /// Not paid yet.
    StillPending,
}

/// Reconcile one allowlisted invoice from LNbits' status: a paid one must
/// come with details that pass `verify_settled_details`, and is imported
/// with the authenticated hash, checking ID, wallet and amount.
pub fn reconcile_step(
    manifest: &ManifestFile,
    pending: &PendingInvoiceFile,
    status: PaymentStatusResponse,
) -> (res: Result<ReconcileAction, MigrateError>)
    ensures
        status.paid && status.details is None ==> res == Err::<ReconcileAction, MigrateError>(
            MigrateError::MissingDetails,
        ),
        status.paid && status.details is Some ==> {
            let d = status.details->0;
            match settled_details_check(*manifest, *pending, d) {
                Some(e) => res == Err::<ReconcileAction, MigrateError>(e),
                None => match sats_of(d.amount as int) {
                    None => (res matches Err(MigrateError::Amount { msat: m, .. }) && m == d.amount),
                    Some(s) => if s != pending.amount_sats {
                        res == Err::<ReconcileAction, MigrateError>(MigrateError::AmountMismatch)
                    } else {
                        res matches Ok(ReconcileAction::Import(inv)) && inv.payment_hash == d.payment_hash
                            && inv.checking_id == Some(d.checking_id) && inv.wallet_id == d.wallet_id
                            && inv.amount_sats == s && inv.settled_at is None
                    },
                },
            }
        },
        !status.paid ==> res == Ok::<ReconcileAction, MigrateError>(
            if opt_view(status.status) == Some("failed"@) {
                ReconcileAction::Failed
            } else {
                ReconcileAction::StillPending
            },
        ),
{
    if status.paid {
        let details = match status.details {
            None => return Err(MigrateError::MissingDetails),
            Some(d) => d,
        };
        if let Err(e) = verify_settled_details(manifest, pending, &details) {
            return Err(e);
        }
        let amount_sats = match exact_sats(details.amount, "legacy paid invoice amount") {
            Ok(a) => a,
            Err(e) => return Err(e),
        };
        Ok(
            ReconcileAction::Import(
                LegacySettledInvoice {
                    payment_hash: details.payment_hash,
                    checking_id: Some(details.checking_id),
                    wallet_id: details.wallet_id,
                    amount_sats,
                    settled_at: None,
                },
            ),
        )
    } else {
        let failed = match &status.status {
            Some(s) => same_text(s.as_str(), "failed"),
            None => false,
        };
        if failed {
            Ok(ReconcileAction::Failed)
        } else {
            Ok(ReconcileAction::StillPending)
        }
    }
}

} // verus!
