//! Durable quote issuance, admission budgets and binding. Each decision is
//! taken here from the rows the caller read inside one transaction.
use vstd::prelude::*;

use crate::ident::{uuid_string, uuid_text};
use crate::ledger::LedgerError;
use crate::quotes::{QuotePolicy, QuoteRequest, StoredXmrQuote};
use crate::ledger::credit::XmrCreditIntent;
use crate::text::{append_str, parse_u64, same_text, u64_text};
use vstd::string::StringSliceAdditionalSpecFns;
use vstd::utf8::encode_utf8;

verus! {

/// How long a reservation holds a request ID before a retry may fail it.
pub const RESERVATION_SECONDS: i64 = 30;

/// The quote clock may not run backwards, nor before the epoch. `Ok` means
/// the clock now reads `now`.
pub fn check_clock(prior: i64, now: i64) -> (res: Result<(), LedgerError>)
    ensures
        res is Ok <==> (prior <= now && 0 <= now),
        res is Err ==> res == Err::<(), LedgerError>(LedgerError::QuoteClockRegressed),
{
    if now < prior || now < 0 {
        Err(LedgerError::QuoteClockRegressed)
    } else {
        Ok(())
    }
}

/// Where a quote request stands.
#[derive(Debug, Clone, Copy, PartialEq, Eq, Structural)]
pub enum QuoteRequestStatus {
    Reserved,
    Ready,
    Failed,
}

/// The status a stored status word names; any word but `reserved` and
/// `ready` is a failed request.
pub fn request_status(word: &str) -> (s: QuoteRequestStatus)
    ensures
        word@ == "reserved"@ ==> s == QuoteRequestStatus::Reserved,
        word@ == "ready"@ ==> s == QuoteRequestStatus::Ready,
        word@ != "reserved"@ && word@ != "ready"@ ==> s == QuoteRequestStatus::Failed,
{
    proof {
        reveal_strlit("reserved");
        reveal_strlit("ready");
        assert("ready"@.len() != "reserved"@.len());
    }
    if same_text(word, "reserved") {
        QuoteRequestStatus::Reserved
    } else if same_text(word, "ready") {
        QuoteRequestStatus::Ready
    } else {
        QuoteRequestStatus::Failed
    }
}

/// The stored row of a quote request.
#[derive(Debug, Clone)]
pub struct StoredQuoteRequest {
    pub identity_json: String,
    pub requested_at: i64,
    pub reservation_until: i64,
    pub status: QuoteRequestStatus,
    pub document_json: Option<String>,
}

/// What a stored request answers a retry of the same request ID at `now`:
/// the persisted document once ready; a request bound to other inputs, a
/// clock that went back, one still in progress and one that failed or
/// outlived its reservation are refused.
pub open spec fn stored_outcome(row: StoredQuoteRequest, identity: Seq<char>, now: int) -> Result<
    Seq<char>,
    LedgerError,
> {
    if row.identity_json@ != identity {
        Err(LedgerError::QuoteIdentityMismatch)
    } else if now < row.requested_at {
        Err(LedgerError::QuoteClockRegressed)
    } else {
        match row.status {
            QuoteRequestStatus::Ready => match row.document_json {
                Some(d) => Ok(d@),
                None => Err(LedgerError::MissingQuoteDocument),
            },
            QuoteRequestStatus::Reserved => if now < row.reservation_until {
                Err(LedgerError::QuoteInProgress)
            } else {
                Err(LedgerError::QuoteUnavailable)
            },
            QuoteRequestStatus::Failed => Err(LedgerError::QuoteUnavailable),
        }
    }
}

/// The answer of a stored request (see `stored_outcome`).
pub fn stored_result(row: &StoredQuoteRequest, identity: &str, now: i64) -> (res: Result<String, LedgerError>)
    ensures
        match stored_outcome(*row, identity@, now as int) {
            Ok(d) => res matches Ok(s) && s@ == d,
            Err(e) => res == Err::<String, LedgerError>(e),
        },
{
    if !same_text(row.identity_json.as_str(), identity) {
        return Err(LedgerError::QuoteIdentityMismatch);
    }
    if now < row.requested_at {
        return Err(LedgerError::QuoteClockRegressed);
    }
    match row.status {
        QuoteRequestStatus::Ready => match &row.document_json {
            Some(d) => Ok(d.clone()),
            None => Err(LedgerError::MissingQuoteDocument),
        },
        QuoteRequestStatus::Reserved => if now < row.reservation_until {
            Err(LedgerError::QuoteInProgress)
        } else {
            Err(LedgerError::QuoteUnavailable)
        },
        QuoteRequestStatus::Failed => Err(LedgerError::QuoteUnavailable),
    }
}

/// `w as i64`: the two's-complement reading of a `u64`.
pub open spec fn as_signed(w: u64) -> int {
    if w <= i64::MAX {
        w as int
    } else {
        w - 0x1_0000_0000_0000_0000int
    }
}

/// `x` held within the range of `i64`.
pub open spec fn saturate_i64(x: int) -> int {
    if x < i64::MIN {
        i64::MIN as int
    } else if x > i64::MAX {
        i64::MAX as int
    } else {
        x
    }
}

/// The start of the admission window that ends at `now`: requests made
/// after it count against the window's budgets.
pub fn admission_since(now: i64, window_seconds: u64) -> (since: i64)
    ensures
        since == saturate_i64(now - as_signed(window_seconds)),
{
    let w: i64 = if window_seconds <= i64::MAX as u64 {
        window_seconds as i64
    } else {
        let below: u64 = window_seconds - 9223372036854775808u64;
        (below as i64) - 9223372036854775807i64 - 1
    };
    let wide: i128 = now as i128 - w as i128;
    if wide < i64::MIN as i128 {
        i64::MIN
    } else if wide > i64::MAX as i128 {
        i64::MAX
    } else {
        wide as i64
    }
}

/// The requests counted against the admission budgets.
#[derive(Debug, Clone, Copy)]
pub struct QuoteAdmissionCounts {
    /// Every retained request.
    pub total: i64,
    /// Requests made within the window.
    pub recent: i64,
    /// The client bucket's requests within the window.
    pub client: i64,
    /// Reservations not yet expired.
    pub pending: i64,
}

/// What reserving a request ID decided.
#[derive(Debug, Clone, PartialEq, Eq)]
pub enum QuoteReservation {
    /// The ID was used before: its persisted document.
    Existing(String),
    /// A new reservation, held until `until`.
    Reserve { until: i64 },
}

/// Some budget of the policy is used up.
pub open spec fn capacity_exhausted(p: QuotePolicy, c: QuoteAdmissionCounts) -> bool {
    ||| c.total >= p.max_retained_requests
    ||| c.recent >= p.max_requests_per_window
    ||| c.client >= p.max_requests_per_client_window
    ||| c.pending >= p.max_pending_requests
}

/// Reserve a request ID at `now`, the quote clock last reading `clock`. A
/// used ID answers as its stored row does; a new one must ask for a target
/// within the policy and find every admission budget unspent, and holds
/// for `RESERVATION_SECONDS`.
pub fn reserve_decision(
    request: &QuoteRequest,
    identity: &str,
    policy: &QuotePolicy,
    clock: i64,
    now: i64,
    existing: Option<StoredQuoteRequest>,
    counts: QuoteAdmissionCounts,
) -> (res: Result<QuoteReservation, LedgerError>)
    ensures
        (now < clock || now < 0) ==> res == Err::<QuoteReservation, LedgerError>(
            LedgerError::QuoteClockRegressed,
        ),
        (clock <= now && 0 <= now) ==> match existing {
            Some(row) => match stored_outcome(row, identity@, now as int) {
                Ok(d) => res matches Ok(QuoteReservation::Existing(s)) && s@ == d,
                Err(e) => res == Err::<QuoteReservation, LedgerError>(e),
            },
            None => if request.target_sats < policy.min_target_sats || request.target_sats
                > policy.max_target_sats {
                res == Err::<QuoteReservation, LedgerError>(LedgerError::QuoteTargetBounds)
            } else if capacity_exhausted(*policy, counts) {
                res == Err::<QuoteReservation, LedgerError>(LedgerError::QuoteCapacity)
            } else if now + RESERVATION_SECONDS > i64::MAX {
                res == Err::<QuoteReservation, LedgerError>(LedgerError::ReservationOverflow)
            } else {
                res == Ok::<QuoteReservation, LedgerError>(
                    QuoteReservation::Reserve { until: (now + RESERVATION_SECONDS) as i64 },
                )
            },
        },
{
    if let Err(e) = check_clock(clock, now) {
        return Err(e);
    }
    match existing {
        Some(row) => match stored_result(&row, identity, now) {
            Ok(d) => Ok(QuoteReservation::Existing(d)),
            Err(e) => Err(e),
        },
        None => {
            if request.target_sats < policy.min_target_sats || request.target_sats
                > policy.max_target_sats {
                return Err(LedgerError::QuoteTargetBounds);
            }
            if counts.total >= policy.max_retained_requests as i64 || counts.recent
                >= policy.max_requests_per_window as i64 || counts.client
                >= policy.max_requests_per_client_window as i64 || counts.pending
                >= policy.max_pending_requests as i64 {
                return Err(LedgerError::QuoteCapacity);
            }
            match now.checked_add(RESERVATION_SECONDS) {
                None => Err(LedgerError::ReservationOverflow),
                Some(until) => Ok(QuoteReservation::Reserve { until }),
            }
        },
    }
}

/// The stored watermark of a rate source: the latest observation accepted
/// from it, its ratio kept as decimal text.
#[derive(Debug, Clone)]
pub struct RateWatermark {
    pub observed_at: i64,
    pub numerator: String,
    pub denominator: String,
}

/// What completing a quote does to its source's watermark.
#[derive(Debug, Clone, Copy, PartialEq, Eq, Structural)]
pub enum WatermarkWrite {
    /// The source's first observation: store it.
    Insert,
    /// A newer observation: move the watermark to it.
    Update,
    /// The watermark's own observation again.
    Keep,
}

/// The reservation the quote completes still holds: reserved for this very
/// identity, not expired, and the quote is that request's, issued now.
pub open spec fn reservation_holds(
    row: StoredQuoteRequest,
    identity: Seq<char>,
    id: u128,
    quote: StoredXmrQuote,
    now: int,
) -> bool {
    &&& row.status == QuoteRequestStatus::Reserved
    &&& row.identity_json@ == identity
    &&& now < row.reservation_until
    &&& quote.identity_view().id == id
    &&& quote.quote_view().issued_at == now
}

/// Complete a reserved request with its issued quote at `now`, the quote
/// clock last reading `clock`. The reservation must still hold, and a rate
/// source never goes back: an older observation, or another ratio at the
/// watermark's own time, is refused.
pub fn complete_decision(
    row: &StoredQuoteRequest,
    identity: &str,
    id: u128,
    quote: &StoredXmrQuote,
    clock: i64,
    now: i64,
    watermark: Option<RateWatermark>,
) -> (res: Result<WatermarkWrite, LedgerError>)
    ensures
        (now < clock || now < 0) ==> res == Err::<WatermarkWrite, LedgerError>(
            LedgerError::QuoteClockRegressed,
        ),
        (clock <= now && 0 <= now) ==> {
            let r = quote.quote_view().rate;
            if !reservation_holds(*row, identity@, id, *quote, now as int) {
                res == Err::<WatermarkWrite, LedgerError>(LedgerError::ReservationInvalid)
            } else {
                match watermark {
                    None => res == Ok::<WatermarkWrite, LedgerError>(WatermarkWrite::Insert),
                    Some(w) => match (
                        u64_text(encode_utf8(w.numerator@)),
                        u64_text(encode_utf8(w.denominator@)),
                    ) {
                        (Some(pn), Some(pd)) => if w.observed_at > r.observed_at || (w.observed_at
                            == r.observed_at && r.numerator * pd != pn * r.denominator) {
                            res == Err::<WatermarkWrite, LedgerError>(LedgerError::RateRegressed)
                        } else if w.observed_at < r.observed_at {
                            res == Ok::<WatermarkWrite, LedgerError>(WatermarkWrite::Update)
                        } else {
                            res == Ok::<WatermarkWrite, LedgerError>(WatermarkWrite::Keep)
                        },
                        _ => res == Err::<WatermarkWrite, LedgerError>(LedgerError::WatermarkText),
                    },
                }
            }
        },
{
    if let Err(e) = check_clock(clock, now) {
        return Err(e);
    }
    let q = quote.quote();
    if row.status != QuoteRequestStatus::Reserved || !same_text(row.identity_json.as_str(), identity)
        || now >= row.reservation_until || quote.id() != id || q.issued_at() != now {
        return Err(LedgerError::ReservationInvalid);
    }
    let rate = q.rate();
    let (n, d) = rate.ratio();
    let observed_at = rate.observed_at();
    match watermark {
        None => Ok(WatermarkWrite::Insert),
        Some(w) => {
            let pn = match parse_u64(w.numerator.as_str()) {
                Some(v) => v,
                None => return Err(LedgerError::WatermarkText),
            };
            let pd = match parse_u64(w.denominator.as_str()) {
                Some(v) => v,
                None => return Err(LedgerError::WatermarkText),
            };
            proof {
                lemma_product_fits(n, pd);
                lemma_product_fits(pn, d);
            }
            let same_ratio = (n as u128) * (pd as u128) == (pn as u128) * (d as u128);
            if w.observed_at > observed_at || (w.observed_at == observed_at && !same_ratio) {
                Err(LedgerError::RateRegressed)
            } else if w.observed_at < observed_at {
                Ok(WatermarkWrite::Update)
            } else {
                Ok(WatermarkWrite::Keep)
            }
        },
    }
}

proof fn lemma_product_fits(a: u64, b: u64)
    ensures
        (a as int) * (b as int) <= u128::MAX,
{
    assert((a as int) * (b as int) <= (u64::MAX as int) * (u64::MAX as int)) by (nonlinear_arith)
        requires
            a <= u64::MAX,
            b <= u64::MAX,
    ;
}

/// The valuation a bound XMR intent registers under: `xmr:` and the
/// intent's UUID.
pub fn xmr_valuation_id(intent_id: u128) -> (s: String)
    ensures
        s@ == "xmr:"@ + uuid_text(intent_id),
{
    let mut s = String::from_str("xmr:");
    proof {
        reveal_strlit("xmr:");
    }
    let u = uuid_string(intent_id);
    append_str(&mut s, u.as_str());
    s
}

/// The stored binding of a quote: the receive scope and valuation it was
/// bound to.
#[derive(Debug, Clone)]
pub struct QuoteBinding {
    pub receive_scope: String,
    pub valuation_id: String,
}

/// Bind a ready quote to a verified receive at `now`, the quote clock last
/// reading `clock`; `saved` is the ready document stored under the quote's
/// ID, if any. The same binding again is accepted even after expiry; a new
/// binding needs a live quote. `Ok(true)` means store the binding; the
/// intent's valuation is registered in the same transaction either way.
pub fn bind_decision(
    quote: &StoredXmrQuote,
    intent: &XmrCreditIntent,
    clock: i64,
    now: i64,
    saved: Option<String>,
    binding: Option<QuoteBinding>,
) -> (res: Result<bool, LedgerError>)
    ensures
        (now < clock || now < 0) ==> res == Err::<bool, LedgerError>(LedgerError::QuoteClockRegressed),
        (clock <= now && 0 <= now) ==> match saved {
            None => res == Err::<bool, LedgerError>(LedgerError::QuoteNotReady),
            Some(doc) => if doc@ != quote.json_view() {
                res == Err::<bool, LedgerError>(LedgerError::QuoteChanged)
            } else {
                match binding {
                    Some(b) => if b.receive_scope@ == intent.receive_scope@ && b.valuation_id@ == "xmr:"@
                        + uuid_text(intent.id) {
                        res == Ok::<bool, LedgerError>(false)
                    } else {
                        res == Err::<bool, LedgerError>(LedgerError::BindingConflict)
                    },
                    None => if now < quote.quote_view().issued_at || now >= quote.quote_view().expires_at {
                        res == Err::<bool, LedgerError>(LedgerError::QuoteNotBindable)
                    } else {
                        res == Ok::<bool, LedgerError>(true)
                    },
                }
            },
        },
{
    if let Err(e) = check_clock(clock, now) {
        return Err(e);
    }
    let doc = match saved {
        None => return Err(LedgerError::QuoteNotReady),
        Some(d) => d,
    };
    if !same_text(doc.as_str(), quote.document_json()) {
        return Err(LedgerError::QuoteChanged);
    }
    match binding {
        Some(b) => {
            let expected = xmr_valuation_id(intent.id);
            if same_text(b.receive_scope.as_str(), intent.receive_scope.as_str()) && same_text(
                b.valuation_id.as_str(),
                expected.as_str(),
            ) {
                Ok(false)
            } else {
                Err(LedgerError::BindingConflict)
            }
        },
        None => {
            let q = quote.quote();
            if now < q.issued_at() || now >= q.expires_at() {
                Err(LedgerError::QuoteNotBindable)
            } else {
                Ok(true)
            }
        },
    }
}

} // verus!
