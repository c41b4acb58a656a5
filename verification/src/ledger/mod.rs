//! The checks and decisions of the settlement ledger. The database round
//! trips stay with the caller; every decision about what to write, and what
//! to answer, is taken here from the rows the caller read.
use vstd::prelude::*;
use vstd::string::StringSliceAdditionalSpecFns;

use crate::ascii::{check_has_control_char, digit, has_control_char, is_digit, is_hex, is_lower, lower, check_hex_of_len, hex_of_len};
use crate::domain::credit::CreditError;
use crate::domain::invoice::{valid_user_bytes, validate_user as validate_address_user};
use crate::domain::payment::SettledPayment;
use crate::json::{is_json, is_json_object, json_object, json_text};
use crate::text::{byte_len, same_text, text_len};
use crate::url::opt_view;

pub mod credit;
pub mod feed;
pub mod log;
pub mod legacy;
pub mod quotes;
pub mod strike;

verus! {

/// Why the ledger refused a request or found its own rows inconsistent.
#[derive(Debug, Clone, Copy, PartialEq, Eq, Structural)]
pub enum LedgerError {
    SourceLength,
    SourceCharacters,
    ExternalIdLength,
    ExternalIdControl,
    InvalidUser,
    PaymentHash,
    ZeroAmount,
    NotSatAligned,
    NegativeSettledAt,
    ContextNotJson,
    ContextNotObject,
    IntegerRange,
    ConflictingSettlement,
    PaymentHashCollision,
    NegativeFeedCredit,
    InvalidObservation,
    UnknownIntent,
    UnsupportedPolicy,
    BindingMismatch,
    MissingQuoteTime,
    InvalidTerms,
    NilIntent,
    UnsupportedPool,
    InvalidCreditLimit,
    DifferentTerms,
    MissingRate,
    RateText,
    Credit(CreditError),
    StoredQuoteMismatch,
    UnsupportedNetwork,
    InvalidNativeSettlement,
    StrikeHash,
    InvoiceLength,
    ConflictingReceiveRequest,
    ConflictingInboxIdentity,
    InboxFull,
    QuoteClockRegressed,
    QuoteIdentityMismatch,
    MissingQuoteDocument,
    QuoteInProgress,
    QuoteUnavailable,
    QuoteTargetBounds,
    QuoteCapacity,
    ReservationOverflow,
    ReservationInvalid,
    RateRegressed,
    WatermarkText,
    QuoteNotReady,
    QuoteChanged,
    BindingConflict,
    QuoteNotBindable,
    ZeroThreshold,
    UnresolvedFeedAttempt,
    UnexpectedFeedStatus,
    InvalidUuid,
    FeedAttemptState,
    InsufficientFeedCredit,
    CursorBackward,
    NotAheadOfCursor,
    OutboxNotPending,
}

/// One entry of the durable event log.
#[derive(Debug, Clone, PartialEq, Eq)]
pub struct DurableEvent {
    pub seq: u64,
    pub event_type: String,
    pub payload_json: String,
}

/// What recording a settled payment did.
#[derive(Debug, Clone, PartialEq, Eq)]
pub enum SettlementOutcome {
    Credited { sats: u64, address_user: String, credit_pool: String },
    Duplicate,
}

/// The stored row of a settlement with the same `(source, source_id)`.
#[derive(Debug, Clone)]
pub struct StoredSettlement {
    pub payment_hash: Option<String>,
    pub address_user: String,
    pub credit_pool: String,
    pub amount_msat: i64,
    pub settled_at: Option<i64>,
}

/// A byte of a payment source name: lowercase ASCII, a digit, `-` or `_`.
pub open spec fn is_source_byte(b: u8) -> bool {
    is_lower(b) || is_digit(b) || b == 45 || b == 95
}

pub open spec fn all_source_bytes(b: Seq<u8>) -> bool {
    forall|i: int| 0 <= i < b.len() ==> is_source_byte(#[trigger] b[i])
}

pub open spec fn source_check(source: Seq<char>) -> Result<(), LedgerError> {
    let b = source_bytes(source);
    if b.len() == 0 || b.len() > 32 {
        Err(LedgerError::SourceLength)
    } else if !all_source_bytes(b) {
        Err(LedgerError::SourceCharacters)
    } else {
        Ok(())
    }
}

pub open spec fn source_bytes(s: Seq<char>) -> Seq<u8> {
    vstd::utf8::encode_utf8(s)
}

/// A payment source name: 1 to 32 bytes of lowercase ASCII, digits, `-`, `_`.
pub fn validate_source(source: &str) -> (res: Result<(), LedgerError>)
    ensures
        res == source_check(source@),
{
    let b = source.as_bytes();
    let len = b.len();
    if len == 0 || len > 32 {
        return Err(LedgerError::SourceLength);
    }
    let mut i: usize = 0;
    while i < len
        invariant
            0 < len <= 32,
            len == b@.len(),
            b@ == source_bytes(source@),
            i <= len,
            forall|j: int| 0 <= j < i ==> is_source_byte(#[trigger] b@[j]),
        decreases len - i,
    {
        let c = b[i];
        if !(lower(c) || digit(c) || c == 45 || c == 95) {
            let ghost bytes = source_bytes(source@);
            assert(!is_source_byte(bytes[i as int]));
            return Err(LedgerError::SourceCharacters);
        }
        i = i + 1;
    }
    Ok(())
}

pub open spec fn external_id_check(value: Seq<char>, max_len: nat) -> Result<(), LedgerError> {
    if value.len() == 0 || byte_len(value) > max_len {
        Err(LedgerError::ExternalIdLength)
    } else if has_control_char(value) {
        Err(LedgerError::ExternalIdControl)
    } else {
        Ok(())
    }
}

/// An opaque provider identifier: 1 to `max_len` bytes and no control
/// characters.
pub fn validate_external_id(value: &str, max_len: usize) -> (res: Result<(), LedgerError>)
    ensures
        res == external_id_check(value@, max_len as nat),
{
    let len = text_len(value);
    proof {
        vstd::utf8::encode_utf8_decode_utf8(value@);
        if value@.len() == 0 {
            assert(vstd::utf8::encode_utf8(value@) =~= Seq::<u8>::empty());
        }
        if vstd::utf8::encode_utf8(value@).len() == 0 {
            assert(vstd::utf8::decode_utf8(Seq::<u8>::empty()) =~= Seq::<char>::empty());
        }
    }
    if len == 0 || len > max_len {
        return Err(LedgerError::ExternalIdLength);
    }
    if check_has_control_char(value) {
        return Err(LedgerError::ExternalIdControl);
    }
    Ok(())
}

/// A payment hash: exactly 64 hexadecimal digits, of either case.
pub fn validate_payment_hash(value: &str) -> (res: Result<(), LedgerError>)
    ensures
        res is Ok <==> hex_of_len(value.spec_bytes(), 64),
        res is Err ==> res == Err::<(), LedgerError>(LedgerError::PaymentHash),
{
    if check_hex_of_len(value.as_bytes(), 64) {
        Ok(())
    } else {
        Err(LedgerError::PaymentHash)
    }
}

/// A count that must fit an SQLite INTEGER.
pub fn to_i64(value: u64) -> (res: Result<i64, LedgerError>)
    ensures
        value <= i64::MAX ==> res == Ok::<i64, LedgerError>(value as i64),
        value > i64::MAX ==> res == Err::<i64, LedgerError>(LedgerError::IntegerRange),
{
    if value <= i64::MAX as u64 {
        Ok(value as i64)
    } else {
        Err(LedgerError::IntegerRange)
    }
}

/// A stored INTEGER that must not be negative.
pub fn to_u64(value: i64) -> (res: Result<u64, LedgerError>)
    ensures
        value >= 0 ==> res == Ok::<u64, LedgerError>(value as u64),
        value < 0 ==> res == Err::<u64, LedgerError>(LedgerError::IntegerRange),
{
    if value >= 0 {
        Ok(value as u64)
    } else {
        Err(LedgerError::IntegerRange)
    }
}

/// The checks a settled payment must pass before it touches the ledger, in
/// the order they are made, and the whole sats it credits.
pub open spec fn payment_check(p: SettledPayment) -> Result<nat, LedgerError> {
    if source_check(p.source@) is Err {
        Err(source_check(p.source@)->Err_0)
    } else if external_id_check(p.source_id@, 256) is Err {
        Err(external_id_check(p.source_id@, 256)->Err_0)
    } else if !valid_user_bytes(source_bytes(p.address_user@)) || !valid_user_bytes(
        source_bytes(p.credit_pool@),
    ) {
        Err(LedgerError::InvalidUser)
    } else if p.payment_hash matches Some(h) && !hex_of_len(source_bytes(h@), 64) {
        Err(LedgerError::PaymentHash)
    } else if p.amount_msat == 0 {
        Err(LedgerError::ZeroAmount)
    } else if p.amount_msat % 1000 != 0 {
        Err(LedgerError::NotSatAligned)
    } else if p.settled_at matches Some(t) && t < 0 {
        Err(LedgerError::NegativeSettledAt)
    } else if p.context_json matches Some(c) && !json_text(c@) {
        Err(LedgerError::ContextNotJson)
    } else if p.context_json matches Some(c) && !json_object(c@) {
        Err(LedgerError::ContextNotObject)
    } else if p.amount_msat > i64::MAX {
        Err(LedgerError::IntegerRange)
    } else {
        Ok(p.amount_msat as nat / 1000)
    }
}

/// Check a settled payment; the whole sats it would credit.
pub fn check_payment(payment: &SettledPayment) -> (res: Result<u64, LedgerError>)
    ensures
        match payment_check(*payment) {
            Ok(sats) => res == Ok::<u64, LedgerError>(sats as u64),
            Err(e) => res == Err::<u64, LedgerError>(e),
        },
{
    if let Err(e) = validate_source(payment.source.as_str()) {
        return Err(e);
    }
    if let Err(e) = validate_external_id(payment.source_id.as_str(), 256) {
        return Err(e);
    }
    if validate_address_user(payment.address_user.as_str()).is_err() || validate_address_user(
        payment.credit_pool.as_str(),
    ).is_err() {
        return Err(LedgerError::InvalidUser);
    }
    if let Some(hash) = &payment.payment_hash {
        if validate_payment_hash(hash.as_str()).is_err() {
            return Err(LedgerError::PaymentHash);
        }
    }
    if payment.amount_msat == 0 {
        return Err(LedgerError::ZeroAmount);
    }
    if payment.amount_msat % 1000 != 0 {
        return Err(LedgerError::NotSatAligned);
    }
    if let Some(t) = payment.settled_at {
        if t < 0 {
            return Err(LedgerError::NegativeSettledAt);
        }
    }
    if let Some(context) = &payment.context_json {
        if !is_json(context.as_str()) {
            return Err(LedgerError::ContextNotJson);
        }
        if !is_json_object(context.as_str()) {
            return Err(LedgerError::ContextNotObject);
        }
    }
    if to_i64(payment.amount_msat).is_err() {
        return Err(LedgerError::IntegerRange);
    }
    Ok(payment.amount_msat / 1000)
}

pub fn same_optional_text(a: &Option<String>, b: &Option<String>) -> (r: bool)
    ensures
        r == (opt_view(*a) == opt_view(*b)),
{
    match (a, b) {
        (Some(x), Some(y)) => same_text(x.as_str(), y.as_str()),
        (None, None) => true,
        _ => false,
    }
}

/// A stored row records exactly this payment.
pub open spec fn stored_matches(p: SettledPayment, s: StoredSettlement) -> bool {
    &&& opt_view(s.payment_hash) == opt_view(p.payment_hash)
    &&& s.address_user@ == p.address_user@
    &&& s.credit_pool@ == p.credit_pool@
    &&& s.amount_msat == p.amount_msat
    &&& s.settled_at == p.settled_at
}

/// What recording a payment decides, given the row stored under its source
/// identity and the source identity that already owns its payment hash.
pub open spec fn settlement_decision(
    p: SettledPayment,
    existing: Option<StoredSettlement>,
    hash_owner: Option<(String, String)>,
) -> Result<Option<nat>, LedgerError> {
    match payment_check(p) {
        Err(e) => Err(e),
        Ok(sats) => match existing {
            Some(s) => if stored_matches(p, s) {
                Ok(None)
            } else {
                Err(LedgerError::ConflictingSettlement)
            },
            None => if p.payment_hash is Some && hash_owner is Some {
                Err(LedgerError::PaymentHashCollision)
            } else {
                Ok(Some(sats))
            },
        },
    }
}

/// Decide how to record one provider-authoritative settled payment: credit
/// it once, answer a replay of the same settlement as a duplicate, and refuse
/// conflicting data under the same identity or a payment hash that another
/// identity already owns. `hash_owner` is only consulted when the payment
/// carries a hash.
pub fn settle_payment(
    payment: &SettledPayment,
    existing: Option<StoredSettlement>,
    hash_owner: Option<(String, String)>,
) -> (res: Result<SettlementOutcome, LedgerError>)
    ensures
        match settlement_decision(*payment, existing, hash_owner) {
            Err(e) => res == Err::<SettlementOutcome, LedgerError>(e),
            Ok(None) => res == Ok::<SettlementOutcome, LedgerError>(SettlementOutcome::Duplicate),
            Ok(Some(sats)) => res matches Ok(SettlementOutcome::Credited { sats: s, address_user, credit_pool })
                && s == sats && address_user@ == payment.address_user@ && credit_pool@
                == payment.credit_pool@,
        },
        payment_check(*payment) is Ok && existing is Some ==> {
            let s = existing->0;
            let same = opt_view(s.payment_hash) == opt_view(payment.payment_hash)
                && s.address_user@ == payment.address_user@ && s.credit_pool@ == payment.credit_pool@
                && s.amount_msat == payment.amount_msat && s.settled_at == payment.settled_at;
            &&& same ==> res == Ok::<SettlementOutcome, LedgerError>(SettlementOutcome::Duplicate)
            &&& !same ==> res == Err::<SettlementOutcome, LedgerError>(
                LedgerError::ConflictingSettlement,
            )
        },
{
    proof {
        law_stored_identity_answers_replay_or_conflict(*payment, existing, hash_owner);
    }
    let sats = match check_payment(payment) {
        Ok(s) => s,
        Err(e) => return Err(e),
    };
    match existing {
        Some(s) => {
            if same_optional_text(&s.payment_hash, &payment.payment_hash) && same_text(
                s.address_user.as_str(),
                payment.address_user.as_str(),
            ) && same_text(s.credit_pool.as_str(), payment.credit_pool.as_str()) && s.amount_msat
                >= 0 && s.amount_msat as u64 == payment.amount_msat && s.settled_at
                == payment.settled_at {
                Ok(SettlementOutcome::Duplicate)
            } else {
                Err(LedgerError::ConflictingSettlement)
            }
        },
        None => {
            if payment.payment_hash.is_some() && hash_owner.is_some() {
                Err(LedgerError::PaymentHashCollision)
            } else {
                Ok(
                    SettlementOutcome::Credited {
                        sats,
                        address_user: payment.address_user.clone(),
                        credit_pool: payment.credit_pool.clone(),
                    },
                )
            }
        },
    }
}

/// The row that crediting a payment stores under its source identity.
pub open spec fn stored_form(p: SettledPayment) -> StoredSettlement {
    StoredSettlement {
        payment_hash: p.payment_hash,
        address_user: p.address_user,
        credit_pool: p.credit_pool,
        amount_msat: p.amount_msat as i64,
        settled_at: p.settled_at,
    }
}

/// A valid payment whose source identity already has a row is never
/// credited again: it is a duplicate exactly when the row records the same
/// payment hash, address user, credit pool, amount and settlement time, and
/// any difference in them is a conflicting settlement.
pub proof fn law_stored_identity_answers_replay_or_conflict(
    p: SettledPayment,
    existing: Option<StoredSettlement>,
    owner: Option<(String, String)>,
)
    ensures
        payment_check(p) is Ok && existing is Some ==> {
            let s = existing->0;
            let same = opt_view(s.payment_hash) == opt_view(p.payment_hash) && s.address_user@
                == p.address_user@ && s.credit_pool@ == p.credit_pool@ && s.amount_msat
                == p.amount_msat && s.settled_at == p.settled_at;
            &&& same ==> settlement_decision(p, existing, owner) == Ok::<Option<nat>, LedgerError>(None)
            &&& !same ==> settlement_decision(p, existing, owner) == Err::<Option<nat>, LedgerError>(
                LedgerError::ConflictingSettlement,
            )
        },
{
}

/// A payment is credited at most once: delivering it again, once its row is
/// stored, is a duplicate, whatever owns its hash by then.
pub proof fn law_replayed_payment_is_duplicate(p: SettledPayment, owner: Option<(String, String)>)
    requires
        payment_check(p) is Ok,
    ensures
        settlement_decision(p, Some(stored_form(p)), owner) == Ok::<Option<nat>, LedgerError>(None),
{
}

/// A payment that is credited is credited with exactly its whole sats, and
/// only when nothing is stored under its identity.
pub proof fn law_credit_is_whole_sats(
    p: SettledPayment,
    existing: Option<StoredSettlement>,
    owner: Option<(String, String)>,
    sats: nat,
)
    requires
        settlement_decision(p, existing, owner) == Ok::<Option<nat>, LedgerError>(Some(sats)),
    ensures
        existing is None,
        sats * 1000 == p.amount_msat,
        sats > 0,
{
}

/// The feed credit, summed over the ledger, must not be negative.
pub fn feed_credit_total(sum: i64) -> (res: Result<u64, LedgerError>)
    ensures
        sum >= 0 ==> res == Ok::<u64, LedgerError>(sum as u64),
        sum < 0 ==> res == Err::<u64, LedgerError>(LedgerError::NegativeFeedCredit),
{
    if sum < 0 {
        Err(LedgerError::NegativeFeedCredit)
    } else {
        Ok(sum as u64)
    }
}

} // verus!
