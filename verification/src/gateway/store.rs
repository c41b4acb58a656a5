//! The gateway's durable admission of physical feed requests. Admission is
//! serialized by the caller's write transaction; the decisions are here.
use vstd::prelude::*;

use crate::gateway::GatewayError;
use crate::storage::{begins_with, text_begins_with};
use crate::text::same_text;

verus! {

/// What beginning a feed request decided.
#[derive(Debug, Clone, Copy, PartialEq, Eq, Structural)]
pub enum BeginRequestOutcome {
    /// Admitted: reserve it as pending and command the feeder.
    New,
    /// Already reserved and not yet acknowledged.
    Pending,
    /// Already acknowledged by the feeder.
    Acknowledged,
    /// Another request is still pending; nothing new may start.
    Blocked,
    /// The interval or hourly limit is reached.
    RateLimited,
}

/// The stored state of a feed request.
#[derive(Debug, Clone, Copy, PartialEq, Eq, Structural)]
pub enum StoredRequestStatus {
    Pending,
    Acknowledged,
}

impl StoredRequestStatus {
    /// The status word stored for this state.
    pub fn as_str(self) -> (word: &'static str)
        ensures
            self == StoredRequestStatus::Pending ==> word@ == "pending"@,
            self == StoredRequestStatus::Acknowledged ==> word@ == "acknowledged"@,
    {
        match self {
            StoredRequestStatus::Pending => "pending",
            StoredRequestStatus::Acknowledged => "acknowledged",
        }
    }
}

/// The state a stored status word names; any other word is corrupt.
pub open spec fn status_named(word: Seq<char>) -> Option<StoredRequestStatus> {
    if word == "pending"@ {
        Some(StoredRequestStatus::Pending)
    } else if word == "acknowledged"@ {
        Some(StoredRequestStatus::Acknowledged)
    } else {
        None
    }
}

/// Read a stored status word.
pub fn parse_stored_status(word: &str) -> (res: Result<StoredRequestStatus, GatewayError>)
    ensures
        match status_named(word@) {
            Some(s) => res == Ok::<StoredRequestStatus, GatewayError>(s),
            None => res == Err::<StoredRequestStatus, GatewayError>(GatewayError::InvalidPersistedStatus),
        },
{
    proof {
        reveal_strlit("pending");
        reveal_strlit("acknowledged");
        assert("pending"@.len() != "acknowledged"@.len());
    }
    if same_text(word, "pending") {
        Ok(StoredRequestStatus::Pending)
    } else if same_text(word, "acknowledged") {
        Ok(StoredRequestStatus::Acknowledged)
    } else {
        Err(GatewayError::InvalidPersistedStatus)
    }
}

/// The safety limits of admission: at least five seconds between feeds
/// and at least one feed an hour, each within the range of `i64`. On
/// success the limits as the database compares them.
pub fn check_admission_limits(min_interval_seconds: u64, max_per_hour: u64) -> (res: Result<(i64, i64), GatewayError>)
    ensures
        (min_interval_seconds > i64::MAX || max_per_hour > i64::MAX || min_interval_seconds < 5
            || max_per_hour < 1) ==> res == Err::<(i64, i64), GatewayError>(GatewayError::InvalidLimits),
        !(min_interval_seconds > i64::MAX || max_per_hour > i64::MAX || min_interval_seconds < 5
            || max_per_hour < 1) ==> res == Ok::<(i64, i64), GatewayError>(
            (min_interval_seconds as i64, max_per_hour as i64),
        ),
{
    if min_interval_seconds > i64::MAX as u64 || max_per_hour > i64::MAX as u64 || min_interval_seconds < 5
        || max_per_hour < 1 {
        return Err(GatewayError::InvalidLimits);
    }
    Ok((min_interval_seconds as i64, max_per_hour as i64))
}

/// What the admission transaction read: the request's stored status word,
/// whether any request is pending, whether any request changed within the
/// minimum interval, and how many changed within the last hour.
#[derive(Debug, Clone)]
pub struct AdmissionView {
    pub existing: Option<String>,
    pub any_pending: bool,
    pub changed_within_interval: bool,
    pub changed_within_hour: i64,
}

/// The admission decision for one request. A known request answers with
/// its state and never becomes new again; otherwise any pending request,
/// however old, blocks admission, and then the interval and hourly limit
/// apply.
pub open spec fn admission(view: AdmissionView, max_per_hour: int) -> Result<BeginRequestOutcome, GatewayError> {
    match view.existing {
        Some(w) => match status_named(w@) {
            Some(StoredRequestStatus::Pending) => Ok(BeginRequestOutcome::Pending),
            Some(StoredRequestStatus::Acknowledged) => Ok(BeginRequestOutcome::Acknowledged),
            None => Err(GatewayError::InvalidPersistedStatus),
        },
        None => if view.any_pending {
            Ok(BeginRequestOutcome::Blocked)
        } else if view.changed_within_interval || view.changed_within_hour >= max_per_hour {
            Ok(BeginRequestOutcome::RateLimited)
        } else {
            Ok(BeginRequestOutcome::New)
        },
    }
}

/// Decide the admission of a feed request under the given limits (see
/// `admission`). `New` means store it as pending, with a `reserved` event.
pub fn begin_request(view: &AdmissionView, min_interval_seconds: u64, max_per_hour: u64) -> (res: Result<
    BeginRequestOutcome,
    GatewayError,
>)
    ensures
        (min_interval_seconds > i64::MAX || max_per_hour > i64::MAX || min_interval_seconds < 5
            || max_per_hour < 1) ==> res == Err::<BeginRequestOutcome, GatewayError>(GatewayError::InvalidLimits),
        !(min_interval_seconds > i64::MAX || max_per_hour > i64::MAX || min_interval_seconds < 5
            || max_per_hour < 1) ==> res == admission(*view, max_per_hour as int),
{
    let (_interval, cap) = match check_admission_limits(min_interval_seconds, max_per_hour) {
        Err(e) => return Err(e),
        Ok(limits) => limits,
    };
    match &view.existing {
        Some(w) => match parse_stored_status(w.as_str()) {
            Ok(StoredRequestStatus::Pending) => Ok(BeginRequestOutcome::Pending),
            Ok(StoredRequestStatus::Acknowledged) => Ok(BeginRequestOutcome::Acknowledged),
            Err(e) => Err(e),
        },
        None => if view.any_pending {
            Ok(BeginRequestOutcome::Blocked)
        } else if view.changed_within_interval || view.changed_within_hour >= cap {
            Ok(BeginRequestOutcome::RateLimited)
        } else {
            Ok(BeginRequestOutcome::New)
        },
    }
}

/// A request the store knows is never admitted as new again, and while any
/// request is pending no other is admitted.
pub proof fn law_known_or_blocked_request_is_not_new(view: AdmissionView, max_per_hour: int)
    requires
        view.existing is Some || view.any_pending,
    ensures
        admission(view, max_per_hour) != Ok::<BeginRequestOutcome, GatewayError>(BeginRequestOutcome::New),
{
}

/// The end of marking a request acknowledged: the update changed the
/// pending row, or the request was already acknowledged; otherwise it
/// could not be marked.
pub fn acknowledge_result(rows_affected: u64, status_after: Option<StoredRequestStatus>) -> (res: Result<
    (),
    GatewayError,
>)
    ensures
        res is Ok <==> (rows_affected == 1 || status_after == Some(StoredRequestStatus::Acknowledged)),
        res is Err ==> res == Err::<(), GatewayError>(GatewayError::NotAcknowledged),
{
    if rows_affected == 1 {
        return Ok(());
    }
    match status_after {
        Some(StoredRequestStatus::Acknowledged) => Ok(()),
        _ => Err(GatewayError::NotAcknowledged),
    }
}

/// The gateway's database must be a file-backed `sqlite://` URL.
pub open spec fn gateway_database_url_ok(url: Seq<char>) -> bool {
    begins_with(url, "sqlite://"@) && url != "sqlite::memory:"@
}

/// Check the gateway's database URL (see `gateway_database_url_ok`).
pub fn check_gateway_database_url(url: &str) -> (res: Result<(), GatewayError>)
    ensures
        res is Ok <==> gateway_database_url_ok(url@),
        res is Err ==> res == Err::<(), GatewayError>(GatewayError::DatabaseUrl),
{
    if !text_begins_with(url, "sqlite://") || same_text(url, "sqlite::memory:") {
        Err(GatewayError::DatabaseUrl)
    } else {
        Ok(())
    }
}

} // verus!
