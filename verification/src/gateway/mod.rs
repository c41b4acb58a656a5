//! The trusted integration gateway between the payment service and the
//! OpenHAB feeder: the answers it gives, how the service checks them, and
//! the gateway's own admission, configuration and weather rules.
use vstd::prelude::*;

use crate::ascii::{eq_ignore_ascii_case, same_ignoring_case};
use crate::config::{loopback, IpAddress};
use crate::text::same_text;
use crate::url::{parse_url, parsed_url, UrlModel, UrlParts};
use vstd::string::StrSliceExecFns;
use vstd::utf8::encode_utf8;

pub mod server;
pub mod store;
pub mod weather;
pub mod witness;

verus! {

/// The feeder's safety switches as OpenHAB reports them.
#[derive(Debug, Clone, Copy, PartialEq, Eq, Structural)]
pub struct FeederSafety {
    pub override_enabled: bool,
    pub remote_enabled: bool,
}

impl FeederSafety {
    /// Remote feeding is allowed: the override is off and remote feeding on.
    pub fn allows_remote_feed(self) -> (ok: bool)
        ensures
            ok == (!self.override_enabled && self.remote_enabled),
    {
        !self.override_enabled && self.remote_enabled
    }
}

/// Where a feed request stands.
#[derive(Debug, Clone, Copy, PartialEq, Eq, Structural)]
pub enum FeedOutcome {
    NotDispatched,
    Pending,
    Confirmed,
    Ambiguous,
}

/// Why a feed request was not dispatched.
#[derive(Debug, Clone, Copy, PartialEq, Eq, Structural)]
pub enum RefusalReason {
    Safety,
    Unresolved,
    Capacity,
}

/// A refusal, with when to ask again.
#[derive(Debug, Clone, Copy, PartialEq, Eq, Structural)]
pub struct FeedRefusal {
    pub reason: RefusalReason,
    pub retry_after_seconds: u64,
}

/// The gateway's answer on one feed request.
#[derive(Debug, Clone, Copy, PartialEq, Eq, Structural)]
pub struct FeedRequestStatus {
    pub request_id: u128,
    pub status: FeedOutcome,
    pub refusal: Option<FeedRefusal>,
}

/// Why the gateway, or an answer of it, was refused.
#[derive(Debug, Clone, Copy, PartialEq, Eq, Structural)]
pub enum GatewayError {
    UuidMismatch,
    ContradictoryOutcome,
    UnexpectedHttpStatus,
    ConfirmationStatusMismatch,
    RefusalStatusMismatch,
    InvalidUrl,
    EmbeddedCredentials,
    MissingHost,
    UnsupportedScheme,
    NotPrivate,
    QueryOrFragment,
    NotRootOrigin,
    PublicListener,
    DatabaseUrl,
    WeatherStaleBound,
    AckTimeout,
    AckPoll,
    FeedInterval,
    FeedRate,
    InvalidLimits,
    InvalidPersistedStatus,
    NotAcknowledged,
    WeatherUrl,
    WeatherPath,
    ZeroStale,
    InvalidObservationTime,
    ObservationBeforeEpoch,
    StaleObservation,
    WeatherRegressed,
    EmptyWeather,
    WindText,
    WeatherField,
    WitnessMismatch,
    WitnessCoverage,
}

/// An answer is consistent: about the expected request, and either a
/// refusal with a retry time of 1 to 86400 seconds or an outcome without
/// one.
pub open spec fn status_check(s: FeedRequestStatus, expected: u128) -> Result<(), GatewayError> {
    if s.request_id != expected {
        Err(GatewayError::UuidMismatch)
    } else {
        match (s.status, s.refusal) {
            (FeedOutcome::NotDispatched, Some(r)) => if 1 <= r.retry_after_seconds <= 86_400 {
                Ok(())
            } else {
                Err(GatewayError::ContradictoryOutcome)
            },
            (FeedOutcome::NotDispatched, None) => Err(GatewayError::ContradictoryOutcome),
            (_, None) => Ok(()),
            (_, Some(_)) => Err(GatewayError::ContradictoryOutcome),
        }
    }
}

impl FeedRequestStatus {
    /// Check the answer against the request it is for (see `status_check`).
    pub fn validate(&self, expected: u128) -> (res: Result<(), GatewayError>)
        ensures
            res == status_check(*self, expected),
    {
        if self.request_id != expected {
            return Err(GatewayError::UuidMismatch);
        }
        match (self.status, self.refusal) {
            (FeedOutcome::NotDispatched, Some(r)) => if 1 <= r.retry_after_seconds && r.retry_after_seconds
                <= 86_400 {
                Ok(())
            } else {
                Err(GatewayError::ContradictoryOutcome)
            },
            (FeedOutcome::NotDispatched, None) => Err(GatewayError::ContradictoryOutcome),
            (_, None) => Ok(()),
            (_, Some(_)) => Err(GatewayError::ContradictoryOutcome),
        }
    }
}

/// The HTTP statuses a feed answer may come with.
pub open spec fn feed_http_status(code: u16) -> bool {
    code == 200 || code == 202 || code == 409 || code == 423 || code == 429 || code == 504
}

/// The checks on a feed answer received with HTTP status `code`: a status
/// of the feed protocol, a consistent answer, a confirmation only with 200
/// and a refusal only with 200, 423 or 429.
pub open spec fn feed_answer_check(code: u16, s: FeedRequestStatus, expected: u128) -> Result<(), GatewayError> {
    if !feed_http_status(code) {
        Err(GatewayError::UnexpectedHttpStatus)
    } else if status_check(s, expected) is Err {
        status_check(s, expected)
    } else if s.status == FeedOutcome::Confirmed && code != 200 {
        Err(GatewayError::ConfirmationStatusMismatch)
    } else if s.status == FeedOutcome::NotDispatched && !(code == 200 || code == 423 || code == 429) {
        Err(GatewayError::RefusalStatusMismatch)
    } else {
        Ok(())
    }
}

/// Whether a feed operation answered with HTTP status `code` may carry a
/// feed answer at all.
pub fn feed_status_code_allowed(code: u16) -> (ok: bool)
    ensures
        ok == feed_http_status(code),
{
    code == 200 || code == 202 || code == 409 || code == 423 || code == 429 || code == 504
}

/// Check a parsed feed answer (see `feed_answer_check`).
pub fn check_feed_answer(code: u16, answer: &FeedRequestStatus, expected: u128) -> (res: Result<(), GatewayError>)
    ensures
        res == feed_answer_check(code, *answer, expected),
{
    if !feed_status_code_allowed(code) {
        return Err(GatewayError::UnexpectedHttpStatus);
    }
    if let Err(e) = answer.validate(expected) {
        return Err(e);
    }
    if answer.status == FeedOutcome::Confirmed && code != 200 {
        return Err(GatewayError::ConfirmationStatusMismatch);
    }
    if answer.status == FeedOutcome::NotDispatched && !(code == 200 || code == 423 || code == 429) {
        return Err(GatewayError::RefusalStatusMismatch);
    }
    Ok(())
}

/// Private addresses: `10/8`, `172.16/12` and `192.168/16` for IPv4, and
/// unique local `fc00::/7` for IPv6, as the standard library defines them.
pub open spec fn private_ip(ip: IpAddress) -> bool {
    match ip {
        IpAddress::V4(a, b, _, _) => a == 10 || (a == 172 && 16 <= b <= 31) || (a == 192 && b == 168),
        IpAddress::V6(a, _, _, _, _, _, _, _) => 0xfc00 <= a <= 0xfdff,
    }
}

/// Whether an address is private.
pub fn is_private_ip(ip: IpAddress) -> (r: bool)
    ensures
        r == private_ip(ip),
{
    match ip {
        IpAddress::V4(a, b, _, _) => a == 10 || (a == 172 && 16 <= b && b <= 31) || (a == 192 && b
            == 168),
        IpAddress::V6(a, _, _, _, _, _, _, _) => 0xfc00 <= a && a <= 0xfdff,
    }
}

/// The checks on the gateway URL: no credentials, a host, and `https`, or
/// plain `http` only to `localhost` (any case) or a private or loopback
/// address. `host_ip` is the address the host text denotes, if any.
pub open spec fn gateway_url_check(u: UrlModel, host_ip: Option<IpAddress>) -> Result<(), GatewayError> {
    if u.username.len() > 0 || u.password is Some {
        Err(GatewayError::EmbeddedCredentials)
    } else {
        match u.host {
            None => Err(GatewayError::MissingHost),
            Some(h) => if u.scheme == "https"@ {
                Ok(())
            } else if u.scheme == "http"@ {
                if same_ignoring_case(encode_utf8(h), encode_utf8("localhost"@)) {
                    Ok(())
                } else {
                    match host_ip {
                        None => Err(GatewayError::NotPrivate),
                        Some(ip) => if loopback(ip) || private_ip(ip) {
                            Ok(())
                        } else {
                            Err(GatewayError::NotPrivate)
                        },
                    }
                }
            } else {
                Err(GatewayError::UnsupportedScheme)
            },
        }
    }
}

/// Check the gateway URL (see `gateway_url_check`).
pub fn validate_gateway_url(url: &UrlParts, host_ip: Option<IpAddress>) -> (res: Result<(), GatewayError>)
    ensures
        res == gateway_url_check(url@, host_ip),
{
    if url.username.unicode_len() > 0 || url.password.is_some() {
        return Err(GatewayError::EmbeddedCredentials);
    }
    let host = match &url.host {
        None => return Err(GatewayError::MissingHost),
        Some(h) => h,
    };
    if same_text(url.scheme.as_str(), "https") {
        return Ok(());
    }
    if !same_text(url.scheme.as_str(), "http") {
        return Err(GatewayError::UnsupportedScheme);
    }
    if eq_ignore_ascii_case(host.as_str().as_bytes(), "localhost".as_bytes()) {
        return Ok(());
    }
    match host_ip {
        None => Err(GatewayError::NotPrivate),
        Some(ip) => if ip.is_loopback() || is_private_ip(ip) {
            Ok(())
        } else {
            Err(GatewayError::NotPrivate)
        },
    }
}

/// The checks of the gateway client's base URL, as `reqwest::Url::parse`
/// reads `raw`: a valid gateway URL (see `gateway_url_check`) that is a
/// root origin, without query or fragment.
pub open spec fn gateway_base_check(raw: Seq<char>, host_ip: Option<IpAddress>) -> Result<(), GatewayError> {
    match parsed_url(raw) {
        None => Err(GatewayError::InvalidUrl),
        Some(u) => if gateway_url_check(u, host_ip) is Err {
            gateway_url_check(u, host_ip)
        } else if u.query is Some || u.fragment is Some {
            Err(GatewayError::QueryOrFragment)
        } else if u.path != "/"@ && u.path.len() != 0 {
            Err(GatewayError::NotRootOrigin)
        } else {
            Ok(())
        },
    }
}

/// Check the gateway client's base URL (see `gateway_base_check`).
pub fn check_gateway_base(raw: &str, host_ip: Option<IpAddress>) -> (res: Result<(), GatewayError>)
    ensures
        res == gateway_base_check(raw@, host_ip),
{
    let u = match parse_url(raw) {
        None => return Err(GatewayError::InvalidUrl),
        Some(u) => u,
    };
    if let Err(e) = validate_gateway_url(&u, host_ip) {
        return Err(e);
    }
    if u.query.is_some() || u.fragment.is_some() {
        return Err(GatewayError::QueryOrFragment);
    }
    if !same_text(u.path.as_str(), "/") && u.path.unicode_len() != 0 {
        return Err(GatewayError::NotRootOrigin);
    }
    Ok(())
}

} // verus!
