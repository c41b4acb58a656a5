//! The gateway service: its configuration, and how it answers feed
//! requests between the calls it makes to the store and to OpenHAB.
use vstd::prelude::*;

use crate::config::{loopback, sqlite_prefix, IpAddress, ListenAddress};
use crate::gateway::store::{BeginRequestOutcome, StoredRequestStatus};
use crate::gateway::{is_private_ip, private_ip, FeedOutcome, FeedRefusal, GatewayError, RefusalReason};
use crate::openhab::TrustedOpenHabConfig;
use crate::text::{has_prefix, same_text, starts_with_bytes};
use vstd::utf8::encode_utf8;

verus! {

/// Where the gateway listens.
#[derive(Debug, Clone, Copy)]
pub struct GatewayServiceConfig {
    pub listen: ListenAddress,
}

/// The gateway's own database.
#[derive(Debug, Clone)]
pub struct GatewayDatabaseConfig {
    pub url: String,
}

/// The trusted local weather station.
#[derive(Debug, Clone)]
pub struct GatewayWeatherConfig {
    pub url: String,
    pub max_stale_seconds: u64,
}

/// The feeder's timing and rate limits.
#[derive(Debug, Clone, Copy)]
pub struct GatewayFeederConfig {
    pub ack_timeout_seconds: u64,
    pub ack_poll_milliseconds: u64,
    pub min_feed_interval_seconds: u64,
    pub max_feeds_per_hour: u64,
}

/// The gateway's configuration.
#[derive(Debug, Clone)]
pub struct GatewayServerConfig {
    pub service: GatewayServiceConfig,
    pub database: GatewayDatabaseConfig,
    pub openhab: TrustedOpenHabConfig,
    pub weather: GatewayWeatherConfig,
    pub feeder: GatewayFeederConfig,
}

/// The unspecified address: `0.0.0.0` or `::`.
pub open spec fn unspecified(ip: IpAddress) -> bool {
    match ip {
        IpAddress::V4(a, b, c, d) => a == 0 && b == 0 && c == 0 && d == 0,
        IpAddress::V6(a, b, c, d, e, f, g, h) => a == 0 && b == 0 && c == 0 && d == 0 && e == 0 && f
            == 0 && g == 0 && h == 0,
    }
}

fn is_unspecified(ip: IpAddress) -> (r: bool)
    ensures
        r == unspecified(ip),
{
    match ip {
        IpAddress::V4(a, b, c, d) => a == 0 && b == 0 && c == 0 && d == 0,
        IpAddress::V6(a, b, c, d, e, f, g, h) => a == 0 && b == 0 && c == 0 && d == 0 && e == 0 && f
            == 0 && g == 0 && h == 0,
    }
}

/// The gateway's configuration checks, in order: a private or loopback
/// listener, a file-backed SQLite database, and the weather and feeder
/// bounds.
pub open spec fn server_config_check(c: GatewayServerConfig) -> Result<(), GatewayError> {
    let ip = c.service.listen.ip;
    if unspecified(ip) || (!loopback(ip) && !private_ip(ip)) {
        Err(GatewayError::PublicListener)
    } else if !has_prefix(encode_utf8(c.database.url@), sqlite_prefix()) || c.database.url@
        == "sqlite::memory:"@ {
        Err(GatewayError::DatabaseUrl)
    } else if c.weather.max_stale_seconds == 0 || c.weather.max_stale_seconds > 86_400 {
        Err(GatewayError::WeatherStaleBound)
    } else if c.feeder.ack_timeout_seconds == 0 || c.feeder.ack_timeout_seconds > 120 {
        Err(GatewayError::AckTimeout)
    } else if c.feeder.ack_poll_milliseconds < 50 || c.feeder.ack_poll_milliseconds > 5_000 {
        Err(GatewayError::AckPoll)
    } else if c.feeder.min_feed_interval_seconds < 5 || c.feeder.min_feed_interval_seconds > 86_400 {
        Err(GatewayError::FeedInterval)
    } else if c.feeder.max_feeds_per_hour == 0 || c.feeder.max_feeds_per_hour > 60 {
        Err(GatewayError::FeedRate)
    } else {
        Ok(())
    }
}

impl GatewayServerConfig {
    /// Check the configuration (see `server_config_check`).
    pub fn validate(&self) -> (res: Result<(), GatewayError>)
        ensures
            res == server_config_check(*self),
    {
        let ip = self.service.listen.ip;
        if is_unspecified(ip) || (!ip.is_loopback() && !is_private_ip(ip)) {
            return Err(GatewayError::PublicListener);
        }
        let sqlite: [u8; 9] = [115, 113, 108, 105, 116, 101, 58, 47, 47];
        assert(sqlite@ =~= sqlite_prefix());
        if !starts_with_bytes(self.database.url.as_str().as_bytes(), sqlite.as_slice()) || same_text(
            self.database.url.as_str(),
            "sqlite::memory:",
        ) {
            return Err(GatewayError::DatabaseUrl);
        }
        if self.weather.max_stale_seconds == 0 || self.weather.max_stale_seconds > 86_400 {
            return Err(GatewayError::WeatherStaleBound);
        }
        if self.feeder.ack_timeout_seconds == 0 || self.feeder.ack_timeout_seconds > 120 {
            return Err(GatewayError::AckTimeout);
        }
        if self.feeder.ack_poll_milliseconds < 50 || self.feeder.ack_poll_milliseconds > 5_000 {
            return Err(GatewayError::AckPoll);
        }
        if self.feeder.min_feed_interval_seconds < 5 || self.feeder.min_feed_interval_seconds > 86_400 {
            return Err(GatewayError::FeedInterval);
        }
        if self.feeder.max_feeds_per_hour == 0 || self.feeder.max_feeds_per_hour > 60 {
            return Err(GatewayError::FeedRate);
        }
        Ok(())
    }
}

/// The next thing the gateway does with a feed request.
#[derive(Debug, Clone, Copy, PartialEq, Eq, Structural)]
pub enum FeedStep {
    /// Answer with this HTTP status and outcome.
    Answer { code: u16, outcome: FeedOutcome },
    /// Answer that the request was not dispatched.
    Refuse(FeedRefusal),
    /// Ask OpenHAB whether it acknowledged this request.
    CheckAck,
    /// Command the feeder, then wait for its acknowledgement.
    Command,
    /// Mark the request acknowledged, then answer it confirmed.
    Acknowledge,
    /// Answer that the gateway could not find out (HTTP 502).
    Failure,
}

/// The HTTP status of a refusal: 429 when capacity ran out, 423 otherwise.
pub fn refusal_code(reason: RefusalReason) -> (code: u16)
    ensures
        code == (if reason == RefusalReason::Capacity {
            429u16
        } else {
            423u16
        }),
{
    match reason {
        RefusalReason::Capacity => 429,
        _ => 423,
    }
}

/// How a request the store already knows is answered: an acknowledged one
/// is confirmed, a pending one is checked against OpenHAB.
pub fn existing_step(status: StoredRequestStatus) -> (step: FeedStep)
    ensures
        status == StoredRequestStatus::Acknowledged ==> step == (FeedStep::Answer {
            code: 200,
            outcome: FeedOutcome::Confirmed,
        }),
        status == StoredRequestStatus::Pending ==> step == FeedStep::CheckAck,
{
    match status {
        StoredRequestStatus::Acknowledged => FeedStep::Answer { code: 200, outcome: FeedOutcome::Confirmed },
        StoredRequestStatus::Pending => FeedStep::CheckAck,
    }
}

/// How a new request is handled: refused while the feeder is not safe for
/// remote feeding, and otherwise as admission decided. A blocked request
/// waits for an unresolved one; a rate-limited one for capacity. Refusals
/// ask the caller to retry after the minimum feed interval.
pub fn admission_step(safe: bool, outcome: BeginRequestOutcome, retry_after_seconds: u64) -> (step: FeedStep)
    ensures
        !safe ==> step == FeedStep::Refuse(
            FeedRefusal { reason: RefusalReason::Safety, retry_after_seconds },
        ),
        safe ==> step == match outcome {
            BeginRequestOutcome::New => FeedStep::Command,
            BeginRequestOutcome::Pending => FeedStep::CheckAck,
            BeginRequestOutcome::Acknowledged => FeedStep::Answer {
                code: 200,
                outcome: FeedOutcome::Confirmed,
            },
            BeginRequestOutcome::Blocked => FeedStep::Refuse(
                FeedRefusal { reason: RefusalReason::Unresolved, retry_after_seconds },
            ),
            BeginRequestOutcome::RateLimited => FeedStep::Refuse(
                FeedRefusal { reason: RefusalReason::Capacity, retry_after_seconds },
            ),
        },
{
    if !safe {
        return FeedStep::Refuse(FeedRefusal { reason: RefusalReason::Safety, retry_after_seconds });
    }
    match outcome {
        BeginRequestOutcome::New => FeedStep::Command,
        BeginRequestOutcome::Pending => FeedStep::CheckAck,
        BeginRequestOutcome::Acknowledged => FeedStep::Answer { code: 200, outcome: FeedOutcome::Confirmed },
        BeginRequestOutcome::Blocked => FeedStep::Refuse(
            FeedRefusal { reason: RefusalReason::Unresolved, retry_after_seconds },
        ),
        BeginRequestOutcome::RateLimited => FeedStep::Refuse(
            FeedRefusal { reason: RefusalReason::Capacity, retry_after_seconds },
        ),
    }
}

/// How one check of a pending request is answered: acknowledged means mark
/// and confirm, not yet means pending (HTTP 202), and no answer from
/// OpenHAB is a failure.
pub fn pending_step(acknowledged: Option<bool>) -> (step: FeedStep)
    ensures
        acknowledged == Some(true) ==> step == FeedStep::Acknowledge,
        acknowledged == Some(false) ==> step == (FeedStep::Answer { code: 202, outcome: FeedOutcome::Pending }),
        acknowledged is None ==> step == FeedStep::Failure,
{
    match acknowledged {
        Some(true) => FeedStep::Acknowledge,
        Some(false) => FeedStep::Answer { code: 202, outcome: FeedOutcome::Pending },
        None => FeedStep::Failure,
    }
}

/// One poll while waiting for the acknowledgement of a commanded feed:
/// acknowledged means mark and confirm; an unanswered poll leaves the
/// outcome ambiguous (HTTP 409); not yet, past the deadline, is ambiguous
/// too (HTTP 504). `None` means poll again.
pub fn ack_wait_step(acknowledged: Option<bool>, deadline_passed: bool) -> (step: Option<FeedStep>)
    ensures
        acknowledged == Some(true) ==> step == Some(FeedStep::Acknowledge),
        acknowledged is None ==> step == Some(FeedStep::Answer { code: 409, outcome: FeedOutcome::Ambiguous }),
        acknowledged == Some(false) && deadline_passed ==> step == Some(
            FeedStep::Answer { code: 504, outcome: FeedOutcome::Ambiguous },
        ),
        acknowledged == Some(false) && !deadline_passed ==> step is None,
{
    match acknowledged {
        Some(true) => Some(FeedStep::Acknowledge),
        None => Some(FeedStep::Answer { code: 409, outcome: FeedOutcome::Ambiguous }),
        Some(false) => if deadline_passed {
            Some(FeedStep::Answer { code: 504, outcome: FeedOutcome::Ambiguous })
        } else {
            None
        },
    }
}

} // verus!
