//! XMR quote policy, rate evidence and quote identities.
pub mod oracle;

use vstd::prelude::*;
use vstd::string::StringSliceAdditionalSpecFns;
use vstd::utf8::encode_utf8;

use crate::ascii::{check_has_control_char, digit, has_control_char, is_digit, is_lower, lower};
use crate::crypto::{hex_encode, hex_text, sha256, sha256_digest};
use crate::domain::credit::{quote_check, quote_model_valid, required_piconero, Asset, CreditError, QuoteModel, RateModel, TermsModel, XmrBtcRate, XmrQuote, MAX_ACCOUNTING_UNITS, PICONERO_PER_XMR};
use crate::ledger::credit::{network_named, XmrCreditIntent, HERD_POOL};
use crate::json::{is_json, json_string, json_text, push_json_string};
use crate::ident::{uuid_string, uuid_text};
use crate::ledger::credit::XmrNetwork;
use crate::text::{append_str, decimal, decimal_string, lemma_decimal_parses, parse_u64, u64_text};
use crate::text::{
    all_ascii, ascii_chars, ascii_string, byte_len, decimal_digits, lemma_decimal_ascii,
    padded_digits, push_decimal, push_padded_decimal, same_text, text_len,
};

verus! {

pub const MAX_RATE_EVIDENCE_BYTES: usize = 262_144;

/// Why a quote request, policy or piece of evidence was refused.
#[derive(Debug, Clone, Copy, PartialEq, Eq, Structural)]
pub enum QuoteError {
    InvalidPolicy,
    InvalidRequest,
    RateOutOfBounds,
    EvidenceBounds,
    EvidenceNotJson,
    DocumentJson,
    IdentityMismatch,
    IdentityJson,
    RateText,
    Credit(CreditError),
    StoredTermsMismatch,
    SourceMismatch,
    ExpiryOverflow,
    AmountLimit,
    UnknownNetwork,
    ClockUnavailable,
}

/// Explicit operator policy for monetary and admission limits.
#[derive(Clone, Copy, Debug, PartialEq, Eq)]
pub struct QuotePolicy {
    pub min_target_sats: u64,
    pub max_target_sats: u64,
    pub max_credit_sats: u64,
    pub max_piconero: u64,
    pub lifetime_seconds: u64,
    pub max_rate_age_seconds: u64,
    pub min_sats_per_xmr: u64,
    pub max_sats_per_xmr: u64,
    pub admission_window_seconds: u64,
    pub max_requests_per_window: u32,
    pub max_requests_per_client_window: u32,
    pub max_pending_requests: u32,
    pub max_retained_requests: u32,
}

/// Every bound a quote policy must respect.
pub open spec fn policy_valid(p: QuotePolicy) -> bool {
    &&& 0 < p.min_target_sats <= p.max_target_sats <= p.max_credit_sats <= MAX_ACCOUNTING_UNITS
    &&& 0 < p.max_piconero <= MAX_ACCOUNTING_UNITS
    &&& 0 < p.min_sats_per_xmr <= p.max_sats_per_xmr <= MAX_ACCOUNTING_UNITS
    &&& 0 < p.lifetime_seconds <= 86_400
    &&& 0 < p.max_rate_age_seconds <= 86_400
    &&& 0 < p.admission_window_seconds <= 86_400
    &&& 0 < p.max_requests_per_client_window <= p.max_requests_per_window
    &&& 0 < p.max_pending_requests <= p.max_requests_per_window
    &&& p.max_requests_per_window <= p.max_retained_requests
}

impl QuotePolicy {
    pub fn validate(&self) -> (res: Result<(), QuoteError>)
        ensures
            res is Ok <==> policy_valid(*self),
            res is Err ==> res == Err::<(), QuoteError>(QuoteError::InvalidPolicy),
    {
        if self.min_target_sats == 0 || self.min_target_sats > self.max_target_sats
            || self.max_target_sats > self.max_credit_sats || self.max_credit_sats
            > MAX_ACCOUNTING_UNITS || self.max_piconero == 0 || self.max_piconero
            > MAX_ACCOUNTING_UNITS || self.min_sats_per_xmr == 0 || self.min_sats_per_xmr
            > self.max_sats_per_xmr || self.max_sats_per_xmr > MAX_ACCOUNTING_UNITS
            || self.lifetime_seconds == 0 || self.lifetime_seconds > 86_400
            || self.max_rate_age_seconds == 0 || self.max_rate_age_seconds > 86_400
            || self.admission_window_seconds == 0 || self.admission_window_seconds > 86_400
            || self.max_requests_per_client_window == 0 || self.max_requests_per_window
            < self.max_requests_per_client_window || self.max_pending_requests == 0
            || self.max_pending_requests > self.max_requests_per_window
            || self.max_retained_requests < self.max_requests_per_window {
            return Err(QuoteError::InvalidPolicy);
        }
        Ok(())
    }
}

/// The rate lies within the policy's sats-per-XMR bounds.
pub open spec fn rate_within(n: nat, d: nat, p: QuotePolicy) -> bool {
    p.min_sats_per_xmr * d <= n <= p.max_sats_per_xmr * d
}

pub fn validate_rate(rate: &XmrBtcRate, policy: &QuotePolicy) -> (res: Result<(), QuoteError>)
    ensures
        res is Ok <==> rate_within(rate@.numerator, rate@.denominator, *policy),
        res is Err ==> res == Err::<(), QuoteError>(QuoteError::RateOutOfBounds),
{
    let (n, d) = rate.ratio();
    assert((policy.min_sats_per_xmr as u128) * (d as u128) <= 0xffff_ffff_ffff_ffff_ffff_ffff_ffff_ffff
        && (policy.max_sats_per_xmr as u128) * (d as u128) <= 0xffff_ffff_ffff_ffff_ffff_ffff_ffff_ffff)
        by (nonlinear_arith)
        requires
            policy.min_sats_per_xmr <= u64::MAX,
            policy.max_sats_per_xmr <= u64::MAX,
            d <= u64::MAX,
    ;
    let low = (policy.min_sats_per_xmr as u128) * (d as u128);
    let high = (policy.max_sats_per_xmr as u128) * (d as u128);
    if (n as u128) < low || (n as u128) > high {
        return Err(QuoteError::RateOutOfBounds);
    }
    Ok(())
}

/// A trusted quote request; the caller derives `client_bucket` itself.
#[derive(Clone, Debug)]
pub struct QuoteRequest {
    pub id: u128,
    pub client_bucket: String,
    pub address_user: String,
    pub target_sats: u64,
}

/// The provider binding a quote is made for.
#[derive(Clone, Debug)]
pub struct QuoteContext {
    pub provider: String,
    pub account_scope: String,
    pub network: XmrNetwork,
}

/// The immutable identity of one quote request.
#[derive(Clone, Debug, PartialEq, Eq)]
pub struct QuoteIdentity {
    pub id: u128,
    pub client_bucket: String,
    pub address_user: String,
    pub target_sats: u64,
    pub provider: String,
    pub account_scope: String,
    pub network: String,
}

pub open spec fn is_bucket_byte(b: u8) -> bool {
    is_digit(b) || (97 <= b <= 102)
}

pub open spec fn is_provider_byte(b: u8) -> bool {
    is_lower(b) || is_digit(b) || b == 45 || b == 95
}

pub open spec fn quote_user(u: Seq<char>) -> bool {
    u == "herd"@ || u == "dexter"@ || u == "rowan"@ || u == "cosmo"@ || u == "newton"@ || u
        == "nova"@
}

/// A request and context that may form a quote identity.
pub open spec fn identity_valid(r: QuoteRequest, c: QuoteContext) -> bool {
    let bucket = encode_utf8(r.client_bucket@);
    let provider = encode_utf8(c.provider@);
    &&& r.id != 0
    &&& bucket.len() == 64
    &&& forall|i: int| 0 <= i < bucket.len() ==> is_bucket_byte(#[trigger] bucket[i])
    &&& quote_user(r.address_user@)
    &&& 0 < r.target_sats <= MAX_ACCOUNTING_UNITS
    &&& 0 < provider.len() <= 32
    &&& forall|i: int| 0 <= i < provider.len() ==> is_provider_byte(#[trigger] provider[i])
    &&& 0 < byte_len(c.account_scope@) <= 256
    &&& !has_control_char(c.account_scope@)
}

fn all_bytes_bucket(bytes: &[u8]) -> (ok: bool)
    ensures
        ok == forall|i: int| 0 <= i < bytes@.len() ==> is_bucket_byte(#[trigger] bytes@[i]),
{
    let mut i: usize = 0;
    while i < bytes.len()
        invariant
            i <= bytes@.len(),
            forall|j: int| 0 <= j < i ==> is_bucket_byte(#[trigger] bytes@[j]),
        decreases bytes@.len() - i,
    {
        let b = bytes[i];
        if !(digit(b) || (97 <= b && b <= 102)) {
            return false;
        }
        i = i + 1;
    }
    true
}

fn all_bytes_provider(bytes: &[u8]) -> (ok: bool)
    ensures
        ok == forall|i: int| 0 <= i < bytes@.len() ==> is_provider_byte(#[trigger] bytes@[i]),
{
    let mut i: usize = 0;
    while i < bytes.len()
        invariant
            i <= bytes@.len(),
            forall|j: int| 0 <= j < i ==> is_provider_byte(#[trigger] bytes@[j]),
        decreases bytes@.len() - i,
    {
        let b = bytes[i];
        if !(lower(b) || digit(b) || b == 45 || b == 95) {
            return false;
        }
        i = i + 1;
    }
    true
}

fn is_quote_user(u: &str) -> (ok: bool)
    ensures
        ok == quote_user(u@),
{
    same_text(u, "herd") || same_text(u, "dexter") || same_text(u, "rowan") || same_text(u, "cosmo")
        || same_text(u, "newton") || same_text(u, "nova")
}

impl QuoteIdentity {
    /// Bind a request to its trusted context, refusing malformed input.
    pub fn new(request: &QuoteRequest, context: &QuoteContext) -> (res: Result<Self, QuoteError>)
        ensures
            res is Ok <==> identity_valid(*request, *context),
            res is Err ==> res == Err::<Self, QuoteError>(QuoteError::InvalidRequest),
            res matches Ok(id) ==> id.id == request.id && id.client_bucket@ == request.client_bucket@
                && id.address_user@ == request.address_user@ && id.target_sats
                == request.target_sats && id.provider@ == context.provider@ && id.account_scope@
                == context.account_scope@ && id.network@ == context.network.name(),
    {
        let bucket = request.client_bucket.as_str().as_bytes();
        let provider = context.provider.as_str().as_bytes();
        let scope_len = text_len(context.account_scope.as_str());
        if request.id == 0 || bucket.len() != 64 || !all_bytes_bucket(bucket) || !is_quote_user(
            request.address_user.as_str(),
        ) || request.target_sats == 0 || request.target_sats > MAX_ACCOUNTING_UNITS
            || provider.len() == 0 || provider.len() > 32 || !all_bytes_provider(provider)
            || scope_len == 0 || scope_len > 256 || check_has_control_char(
            context.account_scope.as_str(),
        ) {
            return Err(QuoteError::InvalidRequest);
        }
        Ok(QuoteIdentity {
            id: request.id,
            client_bucket: request.client_bucket.clone(),
            address_user: request.address_user.clone(),
            target_sats: request.target_sats,
            provider: context.provider.clone(),
            account_scope: context.account_scope.clone(),
            network: context.network.as_str().to_owned(),
        })
    }
}

/// Bounds and chronology rate evidence must meet.
pub open spec fn valid_evidence(observed_at: int, fetched_at: int, raw: Seq<char>) -> bool {
    &&& fetched_at >= observed_at
    &&& raw.len() > 0
    &&& byte_len(raw) <= MAX_RATE_EVIDENCE_BYTES
    &&& json_text(raw)
}

/// Fetched rate evidence; kept private, not serialized.
pub struct RateEvidence {
    rate: XmrBtcRate,
    fetched_at: i64,
    raw_json: String,
}

impl RateEvidence {
    pub fn new(rate: XmrBtcRate, fetched_at: i64, raw_json: String) -> (res: Result<Self, QuoteError>)
        ensures
            res is Ok <==> valid_evidence(rate@.observed_at, fetched_at as int, raw_json@),
            res matches Ok(e) ==> e.rate_view() == rate@ && e.fetched_at_view() == fetched_at
                && e.raw_view() == raw_json@,
            !(fetched_at >= rate@.observed_at && raw_json@.len() > 0 && byte_len(raw_json@)
                <= MAX_RATE_EVIDENCE_BYTES) ==> res == Err::<Self, QuoteError>(QuoteError::EvidenceBounds),
            fetched_at >= rate@.observed_at && raw_json@.len() > 0 && byte_len(raw_json@)
                <= MAX_RATE_EVIDENCE_BYTES && !json_text(raw_json@) ==> res == Err::<Self, QuoteError>(
                QuoteError::EvidenceNotJson,
            ),
    {
        let len = text_len(raw_json.as_str());
        proof {
            vstd::utf8::encode_utf8_decode_utf8(raw_json@);
            if raw_json@.len() == 0 {
                assert(encode_utf8(raw_json@) =~= Seq::<u8>::empty());
            }
            if encode_utf8(raw_json@).len() == 0 {
                assert(vstd::utf8::decode_utf8(Seq::<u8>::empty()) =~= Seq::<char>::empty());
            }
        }
        if fetched_at < rate.observed_at() || len == 0 || len > MAX_RATE_EVIDENCE_BYTES {
            return Err(QuoteError::EvidenceBounds);
        }
        if !is_json(raw_json.as_str()) {
            return Err(QuoteError::EvidenceNotJson);
        }
        Ok(RateEvidence { rate, fetched_at, raw_json })
    }

    pub closed spec fn rate_view(&self) -> crate::domain::credit::RateModel {
        self.rate@
    }

    pub closed spec fn fetched_at_view(&self) -> int {
        self.fetched_at as int
    }

    pub closed spec fn raw_view(&self) -> Seq<char> {
        self.raw_json@
    }

    pub fn rate(&self) -> (r: &XmrBtcRate)
        ensures
            r@ == self.rate_view(),
    {
        &self.rate
    }

    pub fn fetched_at(&self) -> (t: i64)
        ensures
            t == self.fetched_at_view(),
    {
        self.fetched_at
    }

    pub fn raw_json(&self) -> (raw: &str)
        ensures
            raw@ == self.raw_view(),
    {
        self.raw_json.as_str()
    }
}

/// `s` without its trailing `0` bytes.
pub open spec fn trim_trailing_zeros(s: Seq<u8>) -> Seq<u8>
    decreases s.len(),
{
    if s.len() > 0 && s.last() == 48 {
        trim_trailing_zeros(s.drop_last())
    } else {
        s
    }
}

/// XMR amount text for `atomic` piconero: whole coins, then, when there is a
/// fraction, a `.` and the twelve fraction digits without trailing zeros.
pub open spec fn xmr_text(atomic: nat) -> Seq<u8> {
    let whole = atomic / (PICONERO_PER_XMR as nat);
    let fraction = atomic % (PICONERO_PER_XMR as nat);
    if fraction == 0 {
        decimal_digits(whole)
    } else {
        decimal_digits(whole).push(46u8) + trim_trailing_zeros(padded_digits(fraction, 12))
    }
}

/// Length of `s` once trailing zeros are trimmed.
fn trimmed_len(s: &Vec<u8>) -> (n: usize)
    ensures
        n <= s@.len(),
        s@.subrange(0, n as int) == trim_trailing_zeros(s@),
{
    let mut n = s.len();
    assert(s@.subrange(0, n as int) =~= s@);
    while n > 0 && s[n - 1] == 48
        invariant
            n <= s@.len(),
            trim_trailing_zeros(s@.subrange(0, n as int)) == trim_trailing_zeros(s@),
        decreases n,
    {
        proof {
            assert(s@.subrange(0, n as int).drop_last() =~= s@.subrange(0, n - 1));
        }
        n = n - 1;
    }
    proof {
        if n == s@.len() {
            assert(s@.subrange(0, n as int) =~= s@);
        }
    }
    n
}

/// Render a piconero amount as XMR.
pub fn format_xmr(atomic: u64) -> (text: String)
    ensures
        text@ == ascii_chars(xmr_text(atomic as nat)),
{
    let whole = atomic / PICONERO_PER_XMR;
    let fraction = atomic % PICONERO_PER_XMR;
    let mut out: Vec<u8> = Vec::new();
    push_decimal(&mut out, whole);
    proof {
        lemma_decimal_ascii(whole as nat);
    }
    if fraction != 0 {
        out.push(46);
        let mut digits: Vec<u8> = Vec::new();
        push_padded_decimal(&mut digits, fraction, 12);
        let n = trimmed_len(&digits);
        let mut i: usize = 0;
        let ghost base = out@;
        proof {
            lemma_decimal_ascii(fraction as nat);
            assert(all_ascii(padded_digits(fraction as nat, 12)));
        }
        while i < n
            invariant
                i <= n <= digits@.len(),
                digits@ == Seq::<u8>::empty() + padded_digits(fraction as nat, 12),
                out@ == base + digits@.subrange(0, i as int),
            decreases n - i,
        {
            out.push(digits[i]);
            i = i + 1;
            assert(out@ =~= base + digits@.subrange(0, i as int));
        }
        assert(digits@ =~= padded_digits(fraction as nat, 12));
        assert(out@ =~= xmr_text(atomic as nat));
    } else {
        assert(out@ =~= xmr_text(atomic as nat));
    }
    proof {
        lemma_decimal_ascii(fraction as nat);
        lemma_decimal_ascii(whole as nat);
        assert forall|i: int| 0 <= i < out@.len() implies out@[i] < 128 by {
            assert(out@ == xmr_text(atomic as nat));
            if fraction != 0 {
                let w = decimal_digits(whole as nat);
                let t = trim_trailing_zeros(padded_digits(fraction as nat, 12));
                lemma_trim_is_prefix(padded_digits(fraction as nat, 12));
                if i > w.len() as int {
                    assert(out@[i] == t[i - w.len() - 1]);
                }
            }
        }
    }
    ascii_string(out)
}

proof fn lemma_trim_is_prefix(s: Seq<u8>)
    ensures
        trim_trailing_zeros(s).len() <= s.len(),
        trim_trailing_zeros(s) == s.subrange(0, trim_trailing_zeros(s).len() as int),
    decreases s.len(),
{
    if s.len() > 0 && s.last() == 48 {
        lemma_trim_is_prefix(s.drop_last());
        let t = trim_trailing_zeros(s.drop_last());
        assert(s.drop_last().subrange(0, t.len() as int) =~= s.subrange(0, t.len() as int));
    } else {
        assert(s.subrange(0, s.len() as int) =~= s);
    }
}

/// The stored document of a quote: its identity text, the policy it was
/// priced under, the rate evidence and the locked terms.
#[derive(Debug, Clone)]
pub struct QuoteDocument {
    pub version: u8,
    pub identity: String,
    pub policy: QuotePolicy,
    pub numerator: String,
    pub denominator: String,
    pub source: String,
    pub observed_at: i64,
    pub fetched_at: i64,
    pub issued_at: i64,
    pub expires_at: i64,
    pub expected_atomic: u64,
    pub evidence: String,
    pub evidence_sha256: String,
}

/// The rate a document's texts describe, with the numbers they denote.
pub open spec fn document_rate(d: QuoteDocument, n: nat, den: nat) -> RateModel {
    RateModel { numerator: n, denominator: den, source: d.source@, observed_at: d.observed_at as int }
}

/// The quote a document locks for a target.
pub open spec fn document_quote(d: QuoteDocument, target: nat, n: nat, den: nat) -> QuoteModel {
    QuoteModel {
        terms: TermsModel {
            asset: Asset::Xmr,
            expected_atomic: required_piconero(target, n, den) as nat,
            target_sats: target,
        },
        rate: document_rate(d, n, den),
        issued_at: d.issued_at as int,
        expires_at: d.expires_at as int,
    }
}

/// Whether a document's rate and terms are consistent with its policy and
/// its evidence, for the identity's target.
pub open spec fn terms_consistent(d: QuoteDocument, target: nat, n: nat, den: nat) -> bool {
    let p = d.policy;
    &&& XmrBtcRate::valid_model(document_rate(d, n, den))
    &&& rate_within(n, den, p)
    &&& quote_model_valid(document_quote(d, target, n, den))
    &&& d.issued_at - (document_rate(d, n, den).observed_at) <= p.max_rate_age_seconds
    &&& p.min_target_sats <= target <= p.max_target_sats
    &&& d.expires_at - d.issued_at == p.lifetime_seconds
    &&& d.observed_at <= d.fetched_at <= d.issued_at
    &&& d.expected_atomic == required_piconero(target, n, den)
    &&& d.expected_atomic <= p.max_piconero
    &&& 0 < d.evidence@.len() && byte_len(d.evidence@) <= MAX_RATE_EVIDENCE_BYTES
    &&& d.evidence_sha256@ == hex_text(sha256(encode_utf8(d.evidence@)))
}

/// A quote read back from storage; its provenance stays private.
/// The payer's view of a quote (see `StoredXmrQuote::terms_json`).
pub open spec fn terms_json_text(q: QuoteModel, id: u128) -> Seq<char> {
    "{\"amount\":"@ + json_string(ascii_chars(xmr_text(q.terms.expected_atomic))) + ",\"amount_atomic\":"@
        + json_string(decimal(q.terms.expected_atomic)) + ",\"asset\":\"XMR\",\"expires_at\":"@ + decimal(
        q.expires_at as nat,
    ) + ",\"issued_at\":"@ + decimal(q.issued_at as nat) + ",\"quote_id\":"@ + json_string(uuid_text(id))
        + ",\"target_credit_sats\":"@ + decimal(q.terms.target_sats) + ",\"version\":1}"@
}

/// A clock for quotes; the service reads it at reservation and issuance.
pub trait QuoteClock {
    /// Seconds since the Unix epoch, or why the clock cannot be read.
    fn now(&self) -> Result<i64, QuoteError>;
}

pub struct StoredXmrQuote {
    document_json: String,
    document: QuoteDocument,
    identity: QuoteIdentity,
    quote: XmrQuote,
}

impl StoredXmrQuote {
    pub closed spec fn identity_view(&self) -> QuoteIdentity {
        self.identity
    }

    pub closed spec fn document_view(&self) -> QuoteDocument {
        self.document
    }

    pub closed spec fn json_view(&self) -> Seq<char> {
        self.document_json@
    }

    pub closed spec fn quote_view(&self) -> QuoteModel {
        self.quote@
    }

    /// Accept a stored document for an identity: version 1, bound to exactly
    /// this identity text, a valid policy, a rate within it, and terms that
    /// the evidence and policy reproduce without repricing. `document` and
    /// `identity` are the parses of `document_json` and `identity_json`,
    /// `None` where the text does not parse.
    pub fn decode(
        document_json: String,
        identity_json: &str,
        document: Option<QuoteDocument>,
        identity: Option<QuoteIdentity>,
    ) -> (res: Result<Self, QuoteError>)
        ensures
            document is None ==> res is Err,
            document matches Some(d) && (d.version != 1 || d.identity@ != identity_json@) ==> res is Err,
            res matches Ok(q) ==> {
                let d = document->0;
                let i = identity->0;
                let n = u64_text(encode_utf8(d.numerator@))->0;
                let den = u64_text(encode_utf8(d.denominator@))->0;
                &&& document is Some && identity is Some
                &&& d.version == 1 && d.identity@ == identity_json@
                &&& policy_valid(d.policy)
                &&& u64_text(encode_utf8(d.numerator@)) is Some
                &&& u64_text(encode_utf8(d.denominator@)) is Some
                &&& terms_consistent(d, i.target_sats as nat, n, den)
                &&& q.quote_view() == document_quote(d, i.target_sats as nat, n, den)
                &&& q.identity_view() == i && q.document_view() == d && q.json_view() == document_json@
            },
            ({
                let d = document->0;
                let i = identity->0;
                let n = u64_text(encode_utf8(d.numerator@))->0;
                let den = u64_text(encode_utf8(d.denominator@))->0;
                document is Some && identity is Some && d.version == 1 && d.identity@ == identity_json@
                    && policy_valid(d.policy) && u64_text(encode_utf8(d.numerator@)) is Some
                    && u64_text(encode_utf8(d.denominator@)) is Some && terms_consistent(
                    d,
                    i.target_sats as nat,
                    n,
                    den,
                ) ==> res is Ok
            }),
    {
        let d = match document {
            None => return Err(QuoteError::DocumentJson),
            Some(d) => d,
        };
        if d.version != 1 || !same_text(d.identity.as_str(), identity_json) {
            return Err(QuoteError::IdentityMismatch);
        }
        let identity = match identity {
            None => return Err(QuoteError::IdentityJson),
            Some(i) => i,
        };
        if let Err(e) = d.policy.validate() {
            return Err(e);
        }
        let n = match parse_u64(d.numerator.as_str()) {
            None => return Err(QuoteError::RateText),
            Some(n) => n,
        };
        let den = match parse_u64(d.denominator.as_str()) {
            None => return Err(QuoteError::RateText),
            Some(x) => x,
        };
        let rate = match XmrBtcRate::new(n, den, d.source.as_str(), d.observed_at) {
            Ok(r) => r,
            Err(e) => return Err(QuoteError::Credit(e)),
        };
        if let Err(e) = validate_rate(&rate, &d.policy) {
            return Err(e);
        }
        let quote = match rate.quote(identity.target_sats, d.issued_at, d.expires_at, d.policy.max_rate_age_seconds) {
            Ok(q) => q,
            Err(e) => return Err(QuoteError::Credit(e)),
        };
        let lifetime_ok = match d.expires_at.checked_sub(d.issued_at) {
            Some(span) => span == d.policy.lifetime_seconds as i64,
            None => false,
        };
        let evidence_len = text_len(d.evidence.as_str());
        let digest = sha256_digest(d.evidence.as_str().as_bytes());
        let digest_hex = hex_encode(digest.as_slice());
        proof {
            vstd::utf8::encode_utf8_decode_utf8(d.evidence@);
            if d.evidence@.len() == 0 {
                assert(encode_utf8(d.evidence@) =~= Seq::<u8>::empty());
            }
            if encode_utf8(d.evidence@).len() == 0 {
                assert(vstd::utf8::decode_utf8(Seq::<u8>::empty()) =~= Seq::<char>::empty());
            }
        }
        if identity.target_sats < d.policy.min_target_sats || identity.target_sats > d.policy.max_target_sats
            || !lifetime_ok || d.fetched_at < d.observed_at || d.fetched_at > d.issued_at
            || d.expected_atomic != quote.terms().expected_atomic() || d.expected_atomic > d.policy.max_piconero
            || evidence_len > MAX_RATE_EVIDENCE_BYTES || evidence_len == 0 || !same_text(
            d.evidence_sha256.as_str(),
            digest_hex.as_str(),
        ) {
            return Err(QuoteError::StoredTermsMismatch);
        }
        Ok(StoredXmrQuote { document_json, document: d, identity, quote })
    }

    /// The stored document text.
    pub fn document_json(&self) -> (s: &str)
        ensures
            s@ == self.json_view(),
    {
        self.document_json.as_str()
    }

    pub fn id(&self) -> (id: u128)
        ensures
            id == self.identity_view().id,
    {
        self.identity.id
    }

    pub fn quote(&self) -> (q: &XmrQuote)
        ensures
            q@ == self.quote_view(),
    {
        &self.quote
    }

    /// The payer's view of the quote: its amount in XMR and piconero, the
    /// asset, its times, its ID, the credit it targets and the format
    /// version, as a JSON object in key order. It is not an invoice.
    pub fn terms_json(&self) -> (text: String)
        ensures
            text@ == terms_json_text(self.quote_view(), self.identity_view().id),
    {
        let terms = self.quote.terms();
        let expected = terms.expected_atomic();
        let mut text = "{\"amount\":".to_string();
        let amount = format_xmr(expected);
        push_json_string(&mut text, amount.as_str());
        append_str(&mut text, ",\"amount_atomic\":");
        let atomic = decimal_string(expected);
        push_json_string(&mut text, atomic.as_str());
        append_str(&mut text, ",\"asset\":\"XMR\",\"expires_at\":");
        let expires = decimal_string(self.quote.expires_at() as u64);
        append_str(&mut text, expires.as_str());
        append_str(&mut text, ",\"issued_at\":");
        let issued = decimal_string(self.quote.issued_at() as u64);
        append_str(&mut text, issued.as_str());
        append_str(&mut text, ",\"quote_id\":");
        let id = uuid_string(self.identity.id);
        push_json_string(&mut text, id.as_str());
        append_str(&mut text, ",\"target_credit_sats\":");
        let target = decimal_string(terms.target_sats());
        append_str(&mut text, target.as_str());
        append_str(&mut text, ",\"version\":1}");
        text
    }

    /// A quote has expired from its expiry time on.
    pub fn expired_at(&self, now: i64) -> (expired: bool)
        ensures
            expired == (now >= self.quote_view().expires_at),
    {
        now >= self.quote.expires_at()
    }

    /// The credit intent a bound quote becomes, for the provider's receive
    /// scope: the identity's binding, the herd pool and the policy's limit.
    pub fn credit_intent(&self, receive_scope: &str) -> (res: Result<XmrCreditIntent, QuoteError>)
        ensures
            network_named(self.identity_view().network@) is None ==> res == Err::<XmrCreditIntent, QuoteError>(
                QuoteError::UnknownNetwork,
            ),
            network_named(self.identity_view().network@) is Some ==> (res matches Ok(i) && {
                &&& i.id == self.identity_view().id
                &&& i.provider@ == self.identity_view().provider@
                &&& i.account_scope@ == self.identity_view().account_scope@
                &&& i.network == network_named(self.identity_view().network@)->0
                &&& i.receive_scope@ == receive_scope@
                &&& i.address_user@ == self.identity_view().address_user@
                &&& i.credit_pool@ == HERD_POOL@
                &&& i.quote@ == self.quote_view()
                &&& i.max_credit_sats == self.document_view().policy.max_credit_sats
            }),
    {
        let network = match parse_quote_network(self.identity.network.as_str()) {
            None => return Err(QuoteError::UnknownNetwork),
            Some(n) => n,
        };
        Ok(
            XmrCreditIntent {
                id: self.identity.id,
                provider: self.identity.provider.clone(),
                network,
                account_scope: self.identity.account_scope.clone(),
                receive_scope: receive_scope.to_owned(),
                address_user: self.identity.address_user.clone(),
                credit_pool: HERD_POOL.to_owned(),
                quote: self.quote.duplicate(),
                max_credit_sats: self.document.policy.max_credit_sats,
            },
        )
    }
}

fn parse_quote_network(name: &str) -> (n: Option<XmrNetwork>)
    ensures
        n == network_named(name@),
{
    if same_text(name, XmrNetwork::Mainnet.as_str()) {
        Some(XmrNetwork::Mainnet)
    } else if same_text(name, XmrNetwork::Testnet.as_str()) {
        Some(XmrNetwork::Testnet)
    } else if same_text(name, XmrNetwork::Stagenet.as_str()) {
        Some(XmrNetwork::Stagenet)
    } else {
        None
    }
}

/// Why a document cannot be issued, in the order the checks are made: the
/// evidence must come from the configured source and have been fetched
/// between reservation and issuance; its rate must lie within the policy;
/// the expiry must fit; the rate must lock a quote for the target (see
/// `quote_check`); the amount may not exceed the policy's piconero limit.
pub open spec fn issue_check(
    policy: QuotePolicy,
    target_sats: u64,
    r: RateModel,
    fetched_at: int,
    source_id: Seq<char>,
    reserved_at: i64,
    issued_at: i64,
) -> Result<(), QuoteError> {
    let expires_at = issued_at + policy.lifetime_seconds;
    if r.source != source_id || fetched_at < reserved_at || fetched_at > issued_at {
        Err(QuoteError::SourceMismatch)
    } else if !rate_within(r.numerator, r.denominator, policy) {
        Err(QuoteError::RateOutOfBounds)
    } else if policy.lifetime_seconds > i64::MAX || expires_at > i64::MAX {
        Err(QuoteError::ExpiryOverflow)
    } else if quote_check(r, target_sats, issued_at, expires_at as i64, policy.max_rate_age_seconds) is Err {
        Err(QuoteError::Credit(quote_check(r, target_sats, issued_at, expires_at as i64, policy.max_rate_age_seconds)->Err_0))
    } else if required_piconero(target_sats as nat, r.numerator, r.denominator) > policy.max_piconero {
        Err(QuoteError::AmountLimit)
    } else {
        Ok(())
    }
}

/// Issue the document of a new quote from fetched evidence. The rate must
/// come from the configured source and have been fetched between the
/// reservation at `reserved_at` and issuance at `issued_at`; it must lie
/// within the policy; the quote lives for the policy's lifetime and may not
/// ask for more piconero than the policy allows.
pub fn issue_document(
    identity_json: &str,
    policy: &QuotePolicy,
    target_sats: u64,
    evidence: &RateEvidence,
    source_id: &str,
    reserved_at: i64,
    issued_at: i64,
) -> (res: Result<QuoteDocument, QuoteError>)
    ensures
        res matches Err(e) ==> issue_check(*policy, target_sats, evidence.rate_view(), evidence.fetched_at_view(), source_id@, reserved_at, issued_at) == Err::<(), QuoteError>(e),
        res is Ok <==> issue_check(*policy, target_sats, evidence.rate_view(), evidence.fetched_at_view(), source_id@, reserved_at, issued_at) is Ok,
        res matches Ok(d) ==> {
            let r = evidence.rate_view();
            &&& d.version == 1 && d.identity@ == identity_json@ && d.policy == *policy
            &&& d.numerator@ == decimal(r.numerator) && d.denominator@ == decimal(r.denominator)
            &&& d.source@ == r.source && d.observed_at == r.observed_at
            &&& d.fetched_at == evidence.fetched_at_view() && d.issued_at == issued_at
            &&& d.expires_at == issued_at + policy.lifetime_seconds
            &&& d.expected_atomic == required_piconero(target_sats as nat, r.numerator, r.denominator)
            &&& d.evidence@ == evidence.raw_view()
            &&& d.evidence_sha256@ == hex_text(sha256(encode_utf8(evidence.raw_view())))
            &&& rate_within(r.numerator, r.denominator, *policy)
            &&& d.expected_atomic <= policy.max_piconero
        },
{
    let rate = evidence.rate();
    if !same_text(rate.source(), source_id) || evidence.fetched_at() < reserved_at || evidence.fetched_at() > issued_at {
        return Err(QuoteError::SourceMismatch);
    }
    if let Err(e) = validate_rate(rate, policy) {
        return Err(e);
    }
    if policy.lifetime_seconds > i64::MAX as u64 {
        return Err(QuoteError::ExpiryOverflow);
    }
    let expires_at = match issued_at.checked_add(policy.lifetime_seconds as i64) {
        None => return Err(QuoteError::ExpiryOverflow),
        Some(e) => e,
    };
    let quote = match rate.quote(target_sats, issued_at, expires_at, policy.max_rate_age_seconds) {
        Ok(q) => q,
        Err(e) => return Err(QuoteError::Credit(e)),
    };
    let expected_atomic = quote.terms().expected_atomic();
    if expected_atomic > policy.max_piconero {
        return Err(QuoteError::AmountLimit);
    }
    let (n, d) = rate.ratio();
    let raw = evidence.raw_json();
    let digest = sha256_digest(raw.as_bytes());
    Ok(
        QuoteDocument {
            version: 1,
            identity: identity_json.to_owned(),
            policy: *policy,
            numerator: decimal_string(n),
            denominator: decimal_string(d),
            source: rate.source().to_owned(),
            observed_at: rate.observed_at(),
            fetched_at: evidence.fetched_at(),
            issued_at,
            expires_at,
            expected_atomic,
            evidence: raw.to_owned(),
            evidence_sha256: hex_encode(digest.as_slice()),
        },
    )
}

} // verus!
