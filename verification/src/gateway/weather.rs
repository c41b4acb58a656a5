//! The rules the gateway applies to its trusted local weather station:
//! where it may be read, how fresh an observation must be, and that the
//! accepted observation time never goes back.
use vstd::prelude::*;
use vstd::string::StrSliceExecFns;
use vstd::utf8::encode_utf8;

use crate::ascii::{alnum, is_alnum};
use crate::gateway::GatewayError;
use crate::text::{byte_len, same_text, text_len, trim, trimmed};
use crate::timefmt::{parse_rfc3339_millis, parse_utc_datetime_seconds, rfc3339_millis, utc_datetime_seconds};
use crate::url::{parse_url, parsed_url};

verus! {

/// The checks on the weather station URL: a nonzero staleness bound, and
/// exactly `http://127.0.0.1/get_received_data` (any port) without query
/// or fragment, as `reqwest::Url::parse` reads the text.
pub open spec fn weather_url_check(raw: Seq<char>, max_stale_seconds: u64) -> Result<(), GatewayError> {
    if max_stale_seconds == 0 {
        Err(GatewayError::ZeroStale)
    } else {
        match parsed_url(raw) {
            None => Err(GatewayError::InvalidUrl),
            Some(u) => if u.scheme != "http"@ || u.host != Some("127.0.0.1"@) {
                Err(GatewayError::WeatherUrl)
            } else if u.path != "/get_received_data"@ || u.query is Some || u.fragment is Some {
                Err(GatewayError::WeatherPath)
            } else {
                Ok(())
            },
        }
    }
}

/// Check the weather station URL (see `weather_url_check`).
pub fn check_weather_url(raw: &str, max_stale_seconds: u64) -> (res: Result<(), GatewayError>)
    ensures
        res == weather_url_check(raw@, max_stale_seconds),
{
    if max_stale_seconds == 0 {
        return Err(GatewayError::ZeroStale);
    }
    let u = match parse_url(raw) {
        None => return Err(GatewayError::InvalidUrl),
        Some(u) => u,
    };
    let local = match &u.host {
        Some(h) => same_text(h.as_str(), "127.0.0.1"),
        None => false,
    };
    if !same_text(u.scheme.as_str(), "http") || !local {
        return Err(GatewayError::WeatherUrl);
    }
    if !same_text(u.path.as_str(), "/get_received_data") || u.query.is_some() || u.fragment.is_some() {
        return Err(GatewayError::WeatherPath);
    }
    Ok(())
}

/// The second form of an observation time, read as UTC.
pub const OBSERVATION_FORMAT: &'static str = "%Y-%m-%d %H:%M:%S";

/// The seconds since the Unix epoch that an observation time names: RFC
/// 3339, or `YYYY-MM-DD HH:MM:SS` (see `OBSERVATION_FORMAT`) read as UTC.
pub open spec fn observation_seconds(raw: Seq<char>) -> Option<int> {
    match rfc3339_millis(raw) {
        Some(ms) => Some(ms / 1000),
        None => utc_datetime_seconds(raw, OBSERVATION_FORMAT@),
    }
}

/// Read an observation time; it may not precede the Unix epoch.
pub fn observation_epoch(raw: &str) -> (res: Result<i64, GatewayError>)
    ensures
        observation_seconds(raw@) is Some ==> i64::MIN <= observation_seconds(raw@)->0 <= i64::MAX,
        match observation_seconds(raw@) {
            None => res == Err::<i64, GatewayError>(GatewayError::InvalidObservationTime),
            Some(t) => if t < 0 {
                res == Err::<i64, GatewayError>(GatewayError::ObservationBeforeEpoch)
            } else {
                res == Ok::<i64, GatewayError>(t as i64)
            },
        },
{
    let epoch = match parse_rfc3339_millis(raw) {
        Some(ms) => {
            if ms < 0 {
                return Err(GatewayError::ObservationBeforeEpoch);
            }
            ms / 1000
        },
        None => match parse_utc_datetime_seconds(raw, OBSERVATION_FORMAT) {
            Some(s) => s,
            None => return Err(GatewayError::InvalidObservationTime),
        },
    };
    if epoch < 0 {
        return Err(GatewayError::ObservationBeforeEpoch);
    }
    Ok(epoch)
}

/// An observation is current at `now`: at most 30 seconds ahead of the
/// gateway's clock and at most `max_stale_seconds` old.
pub open spec fn fresh(epoch: int, now: int, max_stale_seconds: int) -> bool {
    epoch - now <= 30 && now - epoch <= max_stale_seconds
}

/// Read an observation time and require it to be current at `now`; the
/// staleness bound must fit in `i64`.
pub fn validate_observation_time(raw: &str, now: i64, max_stale_seconds: u64) -> (res: Result<i64, GatewayError>)
    ensures
        match observation_seconds(raw@) {
            None => res == Err::<i64, GatewayError>(GatewayError::InvalidObservationTime),
            Some(t) => if t < 0 {
                res == Err::<i64, GatewayError>(GatewayError::ObservationBeforeEpoch)
            } else if max_stale_seconds > i64::MAX {
                res == Err::<i64, GatewayError>(GatewayError::InvalidObservationTime)
            } else if !fresh(t, now as int, max_stale_seconds as int) {
                res == Err::<i64, GatewayError>(GatewayError::StaleObservation)
            } else {
                res == Ok::<i64, GatewayError>(t as i64)
            },
        },
{
    let epoch = match observation_epoch(raw) {
        Ok(e) => e,
        Err(e) => return Err(e),
    };
    if max_stale_seconds > i64::MAX as u64 {
        return Err(GatewayError::InvalidObservationTime);
    }
    let ahead: i128 = epoch as i128 - now as i128;
    let age: i128 = now as i128 - epoch as i128;
    if ahead > 30 || age > max_stale_seconds as i128 {
        return Err(GatewayError::StaleObservation);
    }
    Ok(epoch)
}

/// The index of the latest of the observation times: the first of the
/// greatest.
pub open spec fn latest_of(epochs: Seq<i64>, k: int) -> bool {
    &&& 0 <= k < epochs.len()
    &&& forall|i: int| 0 <= i < epochs.len() ==> epochs[i] <= epochs[k]
    &&& forall|i: int| 0 <= i < k ==> epochs[i] < epochs[k]
}

/// Pick the latest entry of a non-empty array of observations by their
/// times; `None` for an empty array.
pub fn latest_observation(epochs: &[i64]) -> (k: Option<usize>)
    ensures
        epochs@.len() == 0 ==> k is None,
        epochs@.len() > 0 ==> (k matches Some(i) && latest_of(epochs@, i as int)),
{
    if epochs.len() == 0 {
        return None;
    }
    let mut best: usize = 0;
    let mut i: usize = 1;
    while i < epochs.len()
        invariant
            1 <= i <= epochs@.len(),
            best < i,
            forall|j: int| 0 <= j < i ==> epochs@[j] <= epochs@[best as int],
            forall|j: int| 0 <= j < best ==> epochs@[j] < epochs@[best as int],
        decreases epochs@.len() - i,
    {
        if epochs[i] > epochs[best] {
            best = i;
        }
        i = i + 1;
    }
    Some(best)
}

/// The stored time of the latest accepted observation never goes back: an
/// observation older than it is refused, and accepting one moves the mark
/// to it when it is newer.
pub fn accept_weather_time(mark: Option<i64>, epoch: i64) -> (res: Result<i64, GatewayError>)
    ensures
        res == accept_weather_time_spec(mark, epoch),
{
    match mark {
        Some(m) => if epoch < m {
            Err(GatewayError::WeatherRegressed)
        } else {
            Ok(epoch)
        },
        None => Ok(epoch),
    }
}

/// The accepted observation time never goes back: a new mark is never
/// below the old one.
pub proof fn law_weather_mark_is_monotone(m: i64, epoch: i64)
    ensures
        accept_weather_time_spec(Some(m), epoch) is Ok ==> m <= accept_weather_time_spec(Some(m), epoch)->Ok_0,
{
}

/// The decision of `accept_weather_time`.
pub open spec fn accept_weather_time_spec(mark: Option<i64>, epoch: i64) -> Result<i64, GatewayError> {
    match mark {
        None => Ok(epoch),
        Some(m) => if epoch < m {
            Err(GatewayError::WeatherRegressed)
        } else {
            Ok(epoch)
        },
    }
}

/// A text field of a weather observation: trimmed, then 1 to `max_len`
/// bytes.
pub open spec fn bounded_text_check(value: Seq<char>, max_len: nat) -> Option<Seq<char>> {
    let t = trimmed(value);
    if t.len() == 0 || byte_len(t) > max_len {
        None
    } else {
        Some(t)
    }
}

/// Read a bounded text field of an observation.
pub fn bounded_text(value: &str, max_len: usize) -> (res: Result<String, GatewayError>)
    ensures
        match bounded_text_check(value@, max_len as nat) {
            None => res == Err::<String, GatewayError>(GatewayError::WeatherField),
            Some(t) => res matches Ok(s) && s@ == t,
        },
{
    let t = trim(value);
    if t.unicode_len() == 0 || text_len(t) > max_len {
        return Err(GatewayError::WeatherField);
    }
    Ok(t.to_string())
}

/// A byte of a wind direction name: ASCII alphanumeric or `-`.
pub open spec fn is_wind_byte(b: u8) -> bool {
    is_alnum(b) || b == 45
}

pub open spec fn all_wind_bytes(b: Seq<u8>) -> bool {
    forall|i: int| 0 <= i < b.len() ==> is_wind_byte(#[trigger] b[i])
}

/// A wind direction given as text: trimmed, 1 to 16 bytes of ASCII
/// alphanumerics and `-`.
pub open spec fn wind_text_check(value: Seq<char>) -> Option<Seq<char>> {
    let t = trimmed(value);
    let b = encode_utf8(t);
    if b.len() == 0 || b.len() > 16 || !all_wind_bytes(b) {
        None
    } else {
        Some(t)
    }
}

/// Read a wind direction given as text (see `wind_text_check`). Whether
/// the text is a number of degrees is for the caller to decide.
pub fn wind_text(value: &str) -> (res: Result<String, GatewayError>)
    ensures
        match wind_text_check(value@) {
            None => res == Err::<String, GatewayError>(GatewayError::WindText),
            Some(t) => res matches Ok(s) && s@ == t,
        },
{
    let t = trim(value);
    let b = t.as_bytes();
    if b.len() == 0 || b.len() > 16 {
        return Err(GatewayError::WindText);
    }
    let mut i: usize = 0;
    while i < b.len()
        invariant
            i <= b@.len(),
            b@ == encode_utf8(t@),
            t@ == trimmed(value@),
            0 < b@.len() <= 16,
            forall|k: int| 0 <= k < i ==> is_wind_byte(#[trigger] b@[k]),
        decreases b@.len() - i,
    {
        if !(alnum(b[i]) || b[i] == 45) {
            assert(!is_wind_byte(b@[i as int]));
            return Err(GatewayError::WindText);
        }
        i = i + 1;
    }
    Ok(t.to_string())
}

} // verus!
