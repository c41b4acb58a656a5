//! Durable feed attempts: an intent is committed before the feeder is
//! commanded, and the feed credit is debited once, only when the attempt
//! is confirmed or reconciled as fed.
use vstd::prelude::*;
use vstd::string::StrSliceExecFns;

use crate::ident::{parse_uuid, parsed_uuid, uuid_string, uuid_text};
use crate::ledger::{feed_credit_total, to_u64, LedgerError};
use crate::text::{append_str, same_text};

verus! {

/// The state of an attempt that is not resolved yet.
#[derive(Debug, Clone, Copy, PartialEq, Eq, Structural)]
pub enum StoredFeedAttemptStatus {
    /// The intent is committed; the feeder may have been commanded.
    IntentCommitted,
    /// Whether the feeder fed is not known; an operator must reconcile.
    Unknown,
}

/// An unresolved feed attempt.
#[derive(Debug, Clone, Copy, PartialEq, Eq, Structural)]
pub struct StoredFeedAttempt {
    pub id: u128,
    pub status: StoredFeedAttemptStatus,
    pub threshold_sats: u64,
}

/// Begin a feed attempt of `threshold_sats` against the summed credit.
/// Nothing starts while another attempt is unresolved; with too little
/// credit nothing starts either (`Ok(false)`); `Ok(true)` means commit a
/// new intent.
pub fn begin_attempt(threshold_sats: u64, unresolved: bool, credit_sum: i64) -> (res: Result<bool, LedgerError>)
    ensures
        threshold_sats == 0 ==> res == Err::<bool, LedgerError>(LedgerError::ZeroThreshold),
        threshold_sats > 0 && threshold_sats > i64::MAX ==> res == Err::<bool, LedgerError>(
            LedgerError::IntegerRange,
        ),
        0 < threshold_sats <= i64::MAX && unresolved ==> res == Err::<bool, LedgerError>(
            LedgerError::UnresolvedFeedAttempt,
        ),
        0 < threshold_sats <= i64::MAX && !unresolved && credit_sum < 0 ==> res == Err::<bool, LedgerError>(
            LedgerError::NegativeFeedCredit,
        ),
        0 < threshold_sats <= i64::MAX && !unresolved && credit_sum >= 0 ==> res == Ok::<bool, LedgerError>(
            credit_sum >= threshold_sats,
        ),
{
    if threshold_sats == 0 {
        return Err(LedgerError::ZeroThreshold);
    }
    if threshold_sats > i64::MAX as u64 {
        return Err(LedgerError::IntegerRange);
    }
    if unresolved {
        return Err(LedgerError::UnresolvedFeedAttempt);
    }
    let credit = match feed_credit_total(credit_sum) {
        Ok(c) => c,
        Err(e) => return Err(e),
    };
    Ok(credit >= threshold_sats)
}

/// The state a stored status word of an unresolved attempt names.
pub open spec fn unresolved_named(word: Seq<char>) -> Option<StoredFeedAttemptStatus> {
    if word == "intent_committed"@ {
        Some(StoredFeedAttemptStatus::IntentCommitted)
    } else if word == "unknown"@ {
        Some(StoredFeedAttemptStatus::Unknown)
    } else {
        None
    }
}

/// Read the stored row of an unresolved attempt: a known status word, a
/// UUID and a threshold that is not negative.
pub fn unresolved_attempt(id: &str, status: &str, threshold: i64) -> (res: Result<StoredFeedAttempt, LedgerError>)
    ensures
        match unresolved_named(status@) {
            None => res == Err::<StoredFeedAttempt, LedgerError>(LedgerError::UnexpectedFeedStatus),
            Some(s) => match parsed_uuid(id@) {
                None => res == Err::<StoredFeedAttempt, LedgerError>(LedgerError::InvalidUuid),
                Some(u) => if threshold < 0 {
                    res == Err::<StoredFeedAttempt, LedgerError>(LedgerError::IntegerRange)
                } else {
                    res == Ok::<StoredFeedAttempt, LedgerError>(
                        StoredFeedAttempt { id: u, status: s, threshold_sats: threshold as u64 },
                    )
                },
            },
        },
{
    proof {
        reveal_strlit("intent_committed");
        reveal_strlit("unknown");
        assert("intent_committed"@.len() != "unknown"@.len());
    }
    let s = if same_text(status, "intent_committed") {
        StoredFeedAttemptStatus::IntentCommitted
    } else if same_text(status, "unknown") {
        StoredFeedAttemptStatus::Unknown
    } else {
        return Err(LedgerError::UnexpectedFeedStatus);
    };
    let u = match parse_uuid(id) {
        None => return Err(LedgerError::InvalidUuid),
        Some(u) => u,
    };
    match to_u64(threshold) {
        Ok(t) => Ok(StoredFeedAttempt { id: u, status: s, threshold_sats: t }),
        Err(e) => Err(e),
    }
}

/// Resolve an attempt as fed. `stored_threshold` is the attempt's threshold
/// where it is in the expected state, `None` where it is not; the credit
/// must still cover the threshold. On success, the debit to record: the
/// threshold, negated.
pub fn resolve_as_fed(stored_threshold: Option<i64>, credit_sum: i64) -> (res: Result<i64, LedgerError>)
    ensures
        match stored_threshold {
            None => res == Err::<i64, LedgerError>(LedgerError::FeedAttemptState),
            Some(t) => if t < 0 {
                res == Err::<i64, LedgerError>(LedgerError::IntegerRange)
            } else if credit_sum < 0 {
                res == Err::<i64, LedgerError>(LedgerError::NegativeFeedCredit)
            } else if credit_sum < t {
                res == Err::<i64, LedgerError>(LedgerError::InsufficientFeedCredit)
            } else {
                res == Ok::<i64, LedgerError>((-t) as i64)
            },
        },
{
    let t = match stored_threshold {
        None => return Err(LedgerError::FeedAttemptState),
        Some(t) => t,
    };
    let threshold = match to_u64(t) {
        Ok(v) => v,
        Err(e) => return Err(e),
    };
    let credit = match feed_credit_total(credit_sum) {
        Ok(c) => c,
        Err(e) => return Err(e),
    };
    if credit < threshold {
        return Err(LedgerError::InsufficientFeedCredit);
    }
    Ok(-t)
}

/// A conditional state change of an attempt must change exactly its row.
pub fn single_attempt_change(rows_affected: u64) -> (res: Result<(), LedgerError>)
    ensures
        res is Ok <==> rows_affected == 1,
        res is Err ==> res == Err::<(), LedgerError>(LedgerError::FeedAttemptState),
{
    if rows_affected == 1 {
        Ok(())
    } else {
        Err(LedgerError::FeedAttemptState)
    }
}

/// The ledger key of an attempt's debit: `feed:` and the attempt's UUID.
pub fn feed_debit_key(id: u128) -> (key: String)
    ensures
        key@ == "feed:"@ + uuid_text(id),
{
    let mut key = String::from_str("feed:");
    proof {
        reveal_strlit("feed:");
    }
    let u = uuid_string(id);
    append_str(&mut key, u.as_str());
    key
}

/// At most the first thousand characters of an error, as stored.
pub open spec fn truncated(error: Seq<char>) -> Seq<char> {
    if error.len() <= 1000 {
        error
    } else {
        error.subrange(0, 1000)
    }
}

/// Keep at most the first thousand characters of an error.
pub fn truncate_error(error: &str) -> (s: String)
    ensures
        s@ == truncated(error@),
{
    let n = error.unicode_len();
    if n <= 1000 {
        error.to_string()
    } else {
        error.substring_char(0, 1000).to_string()
    }
}

} // verus!
