//! The trusted OpenHAB owner: its configuration, and how its item states
//! and owner results are read.
use vstd::prelude::*;
use vstd::string::StrSliceExecFns;
use vstd::utf8::encode_utf8;

use crate::ascii::{alnum, is_alnum};
use crate::ident::{parse_uuid, parsed_uuid, uuid_string, uuid_text};
use crate::text::{blank, is_blank, same_text, trim, trimmed};
use crate::timefmt::{parse_rfc3339_millis, rfc3339_millis};
use crate::url::{parse_url, parsed_url, UrlModel, UrlParts};

verus! {

/// How the owner is asked to feed and how it answers.
#[derive(Debug, Clone, Copy, PartialEq, Eq, Structural)]
pub enum OwnerProtocol {
    /// JSON requests and results of the feeder-request-v1 contract.
    FeederRequestV1,
    /// The request UUID echoed back, on harmless canary items only.
    UuidCanary,
}

/// What the owner reports of one request.
#[derive(Debug, Clone, Copy, PartialEq, Eq, Structural)]
pub enum OwnerOutcome {
    Absent,
    Pending,
    Complete,
    Rejected,
    Ambiguous,
}

/// The status word of an owner result.
#[derive(Debug, Clone, Copy, PartialEq, Eq, Structural)]
pub enum OwnerStatus {
    Accepted,
    Running,
    Complete,
    Denied,
    Failed,
}

/// A feeder-request-v1 owner result, as its JSON object names it.
#[derive(Debug, Clone)]
pub struct OwnerResult {
    pub request_id: String,
    pub status: OwnerStatus,
    pub reason: String,
    pub at: String,
}

/// The trusted OpenHAB configuration of the gateway.
#[derive(Debug, Clone)]
pub struct TrustedOpenHabConfig {
    pub url: String,
    pub request_item: String,
    pub ack_item: String,
    pub protocol: OwnerProtocol,
    pub override_item: String,
    pub remote_enabled_item: String,
    pub temperature_item: Option<String>,
}

/// Why an OpenHAB answer or configuration was refused.
#[derive(Debug, Clone, Copy, PartialEq, Eq, Structural)]
pub enum OpenHabError {
    EmptyToken,
    IdentifierLength,
    IdentifierCharacters,
    CanaryItems,
    InvalidUrl,
    UnsupportedScheme,
    MissingHost,
    NotLoopback,
    EmbeddedCredentials,
    QueryOrFragment,
    UnexpectedSwitchState,
    InvalidOwnerResult,
    InvalidOwnerTimestamp,
    FutureOwnerResult,
    ContradictoryOwnerResult,
    InvalidCanaryReceipt,
}

/// A byte of an item name: ASCII alphanumeric, `_`, `-` or `.`.
pub open spec fn is_identifier_byte(b: u8) -> bool {
    is_alnum(b) || b == 95 || b == 45 || b == 46
}

pub open spec fn all_identifier_bytes(b: Seq<u8>) -> bool {
    forall|i: int| 0 <= i < b.len() ==> is_identifier_byte(#[trigger] b[i])
}

/// The check on an item name: 1 to 128 bytes of identifier bytes.
pub open spec fn identifier_check(value: Seq<char>) -> Result<(), OpenHabError> {
    let b = encode_utf8(value);
    if b.len() == 0 || b.len() > 128 {
        Err(OpenHabError::IdentifierLength)
    } else if !all_identifier_bytes(b) {
        Err(OpenHabError::IdentifierCharacters)
    } else {
        Ok(())
    }
}

/// Check an item name; `field` names it for the operator.
pub fn validate_identifier(value: &str, field: &str) -> (res: Result<(), OpenHabError>)
    ensures
        res == identifier_check(value@),
{
    let b = value.as_bytes();
    if b.len() == 0 || b.len() > 128 {
        return Err(OpenHabError::IdentifierLength);
    }
    let mut i: usize = 0;
    while i < b.len()
        invariant
            i <= b@.len(),
            b@ == encode_utf8(value@),
            0 < b@.len() <= 128,
            forall|k: int| 0 <= k < i ==> is_identifier_byte(#[trigger] b@[k]),
        decreases b@.len() - i,
    {
        let c = b[i];
        if !(alnum(c) || c == 95 || c == 45 || c == 46) {
            assert(!is_identifier_byte(b@[i as int]));
            return Err(OpenHabError::IdentifierCharacters);
        }
        i = i + 1;
    }
    Ok(())
}

/// An OpenHAB switch state: `ON` or `OFF` around whitespace.
pub open spec fn switch_state(state: Seq<char>) -> Option<bool> {
    let t = trimmed(state);
    if t == "ON"@ {
        Some(true)
    } else if t == "OFF"@ {
        Some(false)
    } else {
        None
    }
}

/// Read a switch item's state; `name` names the item for the operator.
pub fn parse_switch(state: &str, name: &str) -> (res: Result<bool, OpenHabError>)
    ensures
        match switch_state(state@) {
            Some(on) => res == Ok::<bool, OpenHabError>(on),
            None => res == Err::<bool, OpenHabError>(OpenHabError::UnexpectedSwitchState),
        },
{
    let t = trim(state);
    proof {
        reveal_strlit("ON");
        reveal_strlit("OFF");
        assert("ON"@.len() != "OFF"@.len());
    }
    if same_text(t, "ON") {
        Ok(true)
    } else if same_text(t, "OFF") {
        Ok(false)
    } else {
        Err(OpenHabError::UnexpectedSwitchState)
    }
}

/// An item state that reports nothing: empty, `NULL`, `UNDEF` or `-`
/// around whitespace.
pub open spec fn nullish(state: Seq<char>) -> bool {
    let t = trimmed(state);
    t.len() == 0 || t == "NULL"@ || t == "UNDEF"@ || t == "-"@
}

fn is_nullish(state: &str) -> (r: bool)
    ensures
        r == nullish(state@),
{
    let t = trim(state);
    t.unicode_len() == 0 || same_text(t, "NULL") || same_text(t, "UNDEF") || same_text(t, "-")
}

/// What a status and reason of the feeder-request-v1 contract mean;
/// `None` for a pair the contract does not have.
pub open spec fn owner_meaning(status: OwnerStatus, reason: Seq<char>) -> Option<OwnerOutcome> {
    match status {
        OwnerStatus::Complete => if reason == "complete"@ {
            Some(OwnerOutcome::Complete)
        } else {
            None
        },
        OwnerStatus::Accepted => if reason == "accepted"@ {
            Some(OwnerOutcome::Pending)
        } else {
            None
        },
        OwnerStatus::Running => if reason == "pulse_started"@ {
            Some(OwnerOutcome::Pending)
        } else {
            None
        },
        OwnerStatus::Denied => if reason == "request_invalid"@ || reason == "request_stale"@ || reason
            == "ledger_restore_missing"@ || reason == "ledger_invalid"@ || reason
            == "ledger_recovery_failed"@ || reason == "duplicate"@ || reason == "busy"@ || reason
            == "cooldown"@ {
            Some(OwnerOutcome::Rejected)
        } else {
            None
        },
        OwnerStatus::Failed => if reason == "clock_invalid"@ || reason == "restart_uncertain"@ || reason
            == "ledger_readback_failed"@ || reason == "ledger_persist_failed"@ || reason
            == "execution_error"@ {
            Some(OwnerOutcome::Ambiguous)
        } else {
            None
        },
    }
}

fn meaning_of(status: OwnerStatus, reason: &str) -> (m: Option<OwnerOutcome>)
    ensures
        m == owner_meaning(status, reason@),
{
    match status {
        OwnerStatus::Complete => if same_text(reason, "complete") {
            Some(OwnerOutcome::Complete)
        } else {
            None
        },
        OwnerStatus::Accepted => if same_text(reason, "accepted") {
            Some(OwnerOutcome::Pending)
        } else {
            None
        },
        OwnerStatus::Running => if same_text(reason, "pulse_started") {
            Some(OwnerOutcome::Pending)
        } else {
            None
        },
        OwnerStatus::Denied => if same_text(reason, "request_invalid") || same_text(reason, "request_stale")
            || same_text(reason, "ledger_restore_missing") || same_text(reason, "ledger_invalid")
            || same_text(reason, "ledger_recovery_failed") || same_text(reason, "duplicate")
            || same_text(reason, "busy") || same_text(reason, "cooldown") {
            Some(OwnerOutcome::Rejected)
        } else {
            None
        },
        OwnerStatus::Failed => if same_text(reason, "clock_invalid") || same_text(
            reason,
            "restart_uncertain",
        ) || same_text(reason, "ledger_readback_failed") || same_text(reason, "ledger_persist_failed")
            || same_text(reason, "execution_error") {
            Some(OwnerOutcome::Ambiguous)
        } else {
            None
        },
    }
}

/// How long after the gateway's clock an owner result may be stamped.
pub const OWNER_CLOCK_SKEW_MILLIS: i64 = 30_000;

/// The reading of a feeder-request-v1 owner result (see
/// `parse_owner_result`).
pub open spec fn owner_result_outcome(
    raw: Seq<char>,
    parsed: Option<OwnerResult>,
    expected: u128,
    now_millis: int,
) -> Result<OwnerOutcome, OpenHabError> {
    if nullish(raw) {
        Ok(OwnerOutcome::Absent)
    } else {
        match parsed {
            None => Err(OpenHabError::InvalidOwnerResult),
            Some(r) => if r.request_id@ != uuid_text(expected) {
                Ok(OwnerOutcome::Absent)
            } else {
                match rfc3339_millis(r.at@) {
                    None => Err(OpenHabError::InvalidOwnerTimestamp),
                    Some(at) => if at > now_millis + OWNER_CLOCK_SKEW_MILLIS {
                        Err(OpenHabError::FutureOwnerResult)
                    } else {
                        match owner_meaning(r.status, r.reason@) {
                            Some(o) => Ok(o),
                            None => Err(OpenHabError::ContradictoryOwnerResult),
                        }
                    },
                }
            },
        }
    }
}

/// Read a feeder-request-v1 owner result for the request `expected` at
/// `now_millis`. `parsed` is the owner result that the trimmed state
/// holds as a JSON object, `None` where it holds none. A nullish state, or
/// a result for another request, reports nothing; the result's time must
/// be RFC 3339 and not ahead of the gateway's clock by more than the
/// allowed skew; its status and reason must be a pair of the contract.
pub fn parse_owner_result(
    raw: &str,
    parsed: Option<OwnerResult>,
    expected: u128,
    now_millis: i64,
) -> (res: Result<OwnerOutcome, OpenHabError>)
    ensures
        res == owner_result_outcome(raw@, parsed, expected, now_millis as int),
{
    if is_nullish(raw) {
        return Ok(OwnerOutcome::Absent);
    }
    let r = match parsed {
        None => return Err(OpenHabError::InvalidOwnerResult),
        Some(r) => r,
    };
    let expected_text = uuid_string(expected);
    if !same_text(r.request_id.as_str(), expected_text.as_str()) {
        return Ok(OwnerOutcome::Absent);
    }
    let at = match parse_rfc3339_millis(r.at.as_str()) {
        None => return Err(OpenHabError::InvalidOwnerTimestamp),
        Some(at) => at,
    };
    let future = (at as i128) > (now_millis as i128) + (OWNER_CLOCK_SKEW_MILLIS as i128);
    if future {
        return Err(OpenHabError::FutureOwnerResult);
    }
    match meaning_of(r.status, r.reason.as_str()) {
        Some(o) => Ok(o),
        None => Err(OpenHabError::ContradictoryOwnerResult),
    }
}

/// Read the canary item for the request `expected`: a nullish state
/// reports nothing, otherwise it must hold a UUID, and only the request's
/// own UUID completes it.
pub fn canary_outcome(state: &str, expected: u128) -> (res: Result<OwnerOutcome, OpenHabError>)
    ensures
        res == canary_outcome_spec(state@, expected),
{
    if is_nullish(state) {
        return Ok(OwnerOutcome::Absent);
    }
    match parse_uuid(trim(state)) {
        None => Err(OpenHabError::InvalidCanaryReceipt),
        Some(id) => Ok(
            if id == expected {
                OwnerOutcome::Complete
            } else {
                OwnerOutcome::Absent
            },
        ),
    }
}

/// The owner's answer on one request, by protocol.
pub fn feeder_result(
    protocol: OwnerProtocol,
    state: &str,
    parsed: Option<OwnerResult>,
    expected: u128,
    now_millis: i64,
) -> (res: Result<OwnerOutcome, OpenHabError>)
    ensures
        protocol == OwnerProtocol::FeederRequestV1 ==> res == owner_result_outcome(
            state@,
            parsed,
            expected,
            now_millis as int,
        ),
        protocol == OwnerProtocol::UuidCanary ==> res == canary_outcome_spec(state@, expected),
{
    match protocol {
        OwnerProtocol::FeederRequestV1 => parse_owner_result(state, parsed, expected, now_millis),
        OwnerProtocol::UuidCanary => canary_outcome(state, expected),
    }
}

/// The canary reading of `canary_outcome`.
pub open spec fn canary_outcome_spec(state: Seq<char>, expected: u128) -> Result<OwnerOutcome, OpenHabError> {
    if nullish(state) {
        Ok(OwnerOutcome::Absent)
    } else {
        match parsed_uuid(trimmed(state)) {
            None => Err(OpenHabError::InvalidCanaryReceipt),
            Some(id) => Ok(
                if id == expected {
                    OwnerOutcome::Complete
                } else {
                    OwnerOutcome::Absent
                },
            ),
        }
    }
}

/// The checks on the configured item names: each a valid identifier, and
/// the canary protocol only on the canary items.
pub open spec fn items_check(config: TrustedOpenHabConfig) -> Result<(), OpenHabError> {
    if identifier_check(config.request_item@) is Err {
        identifier_check(config.request_item@)
    } else if identifier_check(config.ack_item@) is Err {
        identifier_check(config.ack_item@)
    } else if identifier_check(config.override_item@) is Err {
        identifier_check(config.override_item@)
    } else if identifier_check(config.remote_enabled_item@) is Err {
        identifier_check(config.remote_enabled_item@)
    } else if config.protocol == OwnerProtocol::UuidCanary && (config.request_item@
        != "LightningGoatsCanaryRequest"@ || config.ack_item@ != "LightningGoatsCanaryAck"@) {
        Err(OpenHabError::CanaryItems)
    } else {
        match config.temperature_item {
            Some(t) => identifier_check(t@),
            None => Ok(()),
        }
    }
}

/// The checks on the OpenHAB base URL: `http` or `https` to `127.0.0.1`,
/// `localhost` or `::1`, without credentials, query or fragment. On
/// success, whether the path needs a trailing `/`.
pub open spec fn base_url_check(url: Option<UrlModel>) -> Result<bool, OpenHabError> {
    match url {
        None => Err(OpenHabError::InvalidUrl),
        Some(u) => if u.scheme != "http"@ && u.scheme != "https"@ {
            Err(OpenHabError::UnsupportedScheme)
        } else {
            match u.host {
                None => Err(OpenHabError::MissingHost),
                Some(h) => if h != "127.0.0.1"@ && h != "localhost"@ && h != "::1"@ {
                    Err(OpenHabError::NotLoopback)
                } else if u.username.len() > 0 || u.password is Some {
                    Err(OpenHabError::EmbeddedCredentials)
                } else if u.query is Some || u.fragment is Some {
                    Err(OpenHabError::QueryOrFragment)
                } else {
                    Ok(!(u.path.len() > 0 && u.path.last() == '/'))
                },
            }
        },
    }
}

/// The checks of the OpenHAB client: a nonblank token, then the items,
/// then the base URL as `reqwest::Url::parse` reads it.
pub open spec fn client_check(config: TrustedOpenHabConfig, token: Seq<char>) -> Result<bool, OpenHabError> {
    if blank(token) {
        Err(OpenHabError::EmptyToken)
    } else {
        match items_check(config) {
            Err(e) => Err(e),
            Ok(()) => base_url_check(parsed_url(config.url@)),
        }
    }
}

fn check_items(config: &TrustedOpenHabConfig) -> (res: Result<(), OpenHabError>)
    ensures
        res == items_check(*config),
{
    if let Err(e) = validate_identifier(config.request_item.as_str(), "OpenHAB feeder request item") {
        return Err(e);
    }
    if let Err(e) = validate_identifier(config.ack_item.as_str(), "OpenHAB feeder acknowledgement/result item") {
        return Err(e);
    }
    if let Err(e) = validate_identifier(config.override_item.as_str(), "OpenHAB override item") {
        return Err(e);
    }
    if let Err(e) = validate_identifier(config.remote_enabled_item.as_str(), "OpenHAB remote-enabled item") {
        return Err(e);
    }
    if config.protocol == OwnerProtocol::UuidCanary && (!same_text(
        config.request_item.as_str(),
        "LightningGoatsCanaryRequest",
    ) || !same_text(config.ack_item.as_str(), "LightningGoatsCanaryAck")) {
        return Err(OpenHabError::CanaryItems);
    }
    match &config.temperature_item {
        Some(t) => validate_identifier(t.as_str(), "OpenHAB temperature item"),
        None => Ok(()),
    }
}

/// Check the OpenHAB client settings (see `client_check`).
pub fn check_client_config(config: &TrustedOpenHabConfig, auth_token: &str) -> (res: Result<bool, OpenHabError>)
    ensures
        res == client_check(*config, auth_token@),
{
    if is_blank(auth_token) {
        return Err(OpenHabError::EmptyToken);
    }
    if let Err(e) = check_items(config) {
        return Err(e);
    }
    let u = match parse_url(config.url.as_str()) {
        None => return Err(OpenHabError::InvalidUrl),
        Some(u) => u,
    };
    if !same_text(u.scheme.as_str(), "http") && !same_text(u.scheme.as_str(), "https") {
        return Err(OpenHabError::UnsupportedScheme);
    }
    let host = match &u.host {
        None => return Err(OpenHabError::MissingHost),
        Some(h) => h,
    };
    if !same_text(host.as_str(), "127.0.0.1") && !same_text(host.as_str(), "localhost") && !same_text(
        host.as_str(),
        "::1",
    ) {
        return Err(OpenHabError::NotLoopback);
    }
    if u.username.unicode_len() > 0 || u.password.is_some() {
        return Err(OpenHabError::EmbeddedCredentials);
    }
    if u.query.is_some() || u.fragment.is_some() {
        return Err(OpenHabError::QueryOrFragment);
    }
    let n = u.path.as_str().unicode_len();
    Ok(!(n > 0 && u.path.as_str().get_char(n - 1) == '/'))
}

} // verus!
