use lightning_goats::config::{IpAddress, ListenAddress};
use lightning_goats::gateway::server::{
    GatewayDatabaseConfig, GatewayFeederConfig, GatewayServerConfig, GatewayServiceConfig,
    GatewayWeatherConfig,
};
use lightning_goats::gateway::store::{
    acknowledge_result, begin_request, check_gateway_database_url, parse_stored_status,
    AdmissionView, BeginRequestOutcome, StoredRequestStatus,
};
use lightning_goats::gateway::weather::{
    accept_weather_time, check_weather_url, latest_observation, observation_epoch,
    validate_observation_time,
};
use lightning_goats::gateway::server::{
    ack_wait_step, admission_step, existing_step, pending_step, refusal_code, FeedStep,
};
use lightning_goats::gateway::witness::{
    check_metadata, coverage_matches, witness_contains, witness_identities,
};
use lightning_goats::gateway::{
    check_gateway_base, is_private_ip, FeedOutcome, FeedRefusal, GatewayError, RefusalReason,
};
use lightning_goats::openhab::{
    canary_outcome, check_client_config, parse_owner_result, parse_switch, OpenHabError,
    OwnerOutcome, OwnerProtocol, OwnerResult, OwnerStatus, TrustedOpenHabConfig,
};

fn v4(a: u8, b: u8, c: u8, d: u8) -> Option<IpAddress> {
    Some(IpAddress::V4(a, b, c, d))
}

#[test]
fn allows_existing_wireguard_and_loopback_http() {
    check_gateway_base("http://10.8.0.6:8789/", v4(10, 8, 0, 6)).unwrap();
    check_gateway_base("http://127.0.0.1:8789/", v4(127, 0, 0, 1)).unwrap();
}

#[test]
fn rejects_public_plain_http_and_path_urls() {
    assert!(check_gateway_base("http://8.8.8.8:8789/", v4(8, 8, 8, 8)).is_err());
    assert!(check_gateway_base("http://10.8.0.6:8789/proxy/", v4(10, 8, 0, 6)).is_err());
}

#[test]
fn gateway_base_refusals_are_named() {
    assert_eq!(
        check_gateway_base("http://8.8.8.8:8789/", v4(8, 8, 8, 8)),
        Err(GatewayError::NotPrivate)
    );
    assert_eq!(
        check_gateway_base("http://10.8.0.6:8789/proxy/", v4(10, 8, 0, 6)),
        Err(GatewayError::NotRootOrigin)
    );
    assert_eq!(
        check_gateway_base("http://10.8.0.6:8789/?a=b", v4(10, 8, 0, 6)),
        Err(GatewayError::QueryOrFragment)
    );
    assert_eq!(
        check_gateway_base("http://u:p@10.8.0.6:8789/", v4(10, 8, 0, 6)),
        Err(GatewayError::EmbeddedCredentials)
    );
    assert_eq!(check_gateway_base("https://gateway.example/", None), Ok(()));
    assert!(is_private_ip(IpAddress::V4(172, 16, 0, 1)));
    assert!(!is_private_ip(IpAddress::V4(172, 32, 0, 1)));
    assert!(is_private_ip(IpAddress::V6(0xfd00, 0, 0, 0, 0, 0, 0, 1)));
}

fn openhab() -> TrustedOpenHabConfig {
    TrustedOpenHabConfig {
        url: "http://127.0.0.1:8080/".to_owned(),
        request_item: "GoatFeeder_ManualRequest".to_owned(),
        ack_item: "GoatFeeder_Result".to_owned(),
        protocol: OwnerProtocol::FeederRequestV1,
        override_item: "FeederOverride".to_owned(),
        remote_enabled_item: "LightningGoatsRemoteEnabled".to_owned(),
        temperature_item: None,
    }
}

fn config() -> GatewayServerConfig {
    GatewayServerConfig {
        service: GatewayServiceConfig {
            listen: ListenAddress { ip: IpAddress::V4(10, 8, 0, 6), port: 8789 },
        },
        database: GatewayDatabaseConfig {
            url: "sqlite:///var/lib/lightning-goats-gateway/gateway.db".to_owned(),
        },
        openhab: openhab(),
        weather: GatewayWeatherConfig {
            url: "http://127.0.0.1:5000/get_received_data".to_owned(),
            max_stale_seconds: 300,
        },
        feeder: GatewayFeederConfig {
            ack_timeout_seconds: 20,
            ack_poll_milliseconds: 250,
            min_feed_interval_seconds: 30,
            max_feeds_per_hour: 10,
        },
    }
}

#[test]
fn refuses_public_or_unspecified_listener() {
    let mut config = config();
    config.validate().unwrap();
    config.service.listen = ListenAddress { ip: IpAddress::V4(0, 0, 0, 0), port: 8789 };
    assert!(config.validate().is_err());
    config.service.listen = ListenAddress { ip: IpAddress::V4(8, 8, 8, 8), port: 8789 };
    assert!(config.validate().is_err());
}

#[test]
fn rejects_unsafe_local_rate_configuration() {
    let mut interval_config = config();
    interval_config.feeder.min_feed_interval_seconds = 0;
    assert!(interval_config.validate().is_err());
    let mut rate_config = config();
    rate_config.feeder.max_feeds_per_hour = 0;
    assert!(rate_config.validate().is_err());
}

#[test]
fn gateway_config_refusals_are_named() {
    let mut c = config();
    c.service.listen = ListenAddress { ip: IpAddress::V4(8, 8, 8, 8), port: 1 };
    assert_eq!(c.validate(), Err(GatewayError::PublicListener));
    let mut c = config();
    c.database.url = "sqlite::memory:".to_owned();
    assert_eq!(c.validate(), Err(GatewayError::DatabaseUrl));
    let mut c = config();
    c.feeder.max_feeds_per_hour = 0;
    assert_eq!(c.validate(), Err(GatewayError::FeedRate));
}

fn timestamp(epoch: i64) -> String {
    chrono::DateTime::from_timestamp(epoch, 0).unwrap().to_rfc3339()
}

#[test]
fn timestamps_use_actual_age_with_bounded_future_skew() {
    let now: i64 = 1_789_000_000;
    let max: u64 = 300;
    for delta in [-300, 0, 30] {
        assert_eq!(
            validate_observation_time(&timestamp(now + delta), now, max).unwrap(),
            now + delta
        );
    }
    for delta in [-301, 31] {
        assert!(validate_observation_time(&timestamp(now + delta), now, max).is_err());
    }
    for bad in ["yesterday", "2026-99-99 99:99:99", "1960-01-01T00:00:00Z"] {
        assert!(validate_observation_time(bad, now, max).is_err());
    }
    assert_eq!(
        observation_epoch("2026-09-10 12:00:00").unwrap(),
        observation_epoch("2026-09-10T14:00:00+02:00").unwrap()
    );
}

#[test]
fn observation_errors_are_named() {
    assert_eq!(observation_epoch("yesterday"), Err(GatewayError::InvalidObservationTime));
    assert_eq!(
        observation_epoch("1960-01-01T00:00:00Z"),
        Err(GatewayError::ObservationBeforeEpoch)
    );
    assert_eq!(observation_epoch("1970-01-01 00:01:40"), Ok(100));
    assert_eq!(
        validate_observation_time(&timestamp(1_000), 2_000, 300),
        Err(GatewayError::StaleObservation)
    );
}

#[test]
fn weather_mark_never_moves_back() {
    assert_eq!(accept_weather_time(None, 50), Ok(50));
    assert_eq!(accept_weather_time(Some(50), 50), Ok(50));
    assert_eq!(accept_weather_time(Some(50), 60), Ok(60));
    assert_eq!(accept_weather_time(Some(50), 49), Err(GatewayError::WeatherRegressed));
}

#[test]
fn latest_observation_picks_the_newest() {
    assert_eq!(latest_observation(&[]), None);
    let k = latest_observation(&[10, 30, 20]).unwrap();
    assert_eq!(k, 1);
}

#[test]
fn weather_url_must_be_local_and_bounded() {
    assert_eq!(check_weather_url("http://127.0.0.1:5000/get_received_data", 0), Err(GatewayError::ZeroStale));
    assert!(check_weather_url("http://127.0.0.1:5000/get_received_data", 300).is_ok());
}

#[test]
fn admission_answers_known_requests_and_blocks_on_pending() {
    let known = AdmissionView {
        existing: Some("acknowledged".to_owned()),
        any_pending: true,
        changed_within_interval: true,
        changed_within_hour: 99,
    };
    assert_eq!(begin_request(&known, 30, 10), Ok(BeginRequestOutcome::Acknowledged));
    let pending = AdmissionView { existing: Some("pending".to_owned()), ..known.clone() };
    assert_eq!(begin_request(&pending, 30, 10), Ok(BeginRequestOutcome::Pending));
    let corrupt = AdmissionView { existing: Some("done".to_owned()), ..known.clone() };
    assert_eq!(begin_request(&corrupt, 30, 10), Err(GatewayError::InvalidPersistedStatus));
    let blocked = AdmissionView {
        existing: None,
        any_pending: true,
        changed_within_interval: false,
        changed_within_hour: 0,
    };
    assert_eq!(begin_request(&blocked, 30, 10), Ok(BeginRequestOutcome::Blocked));
    let limited = AdmissionView { any_pending: false, changed_within_hour: 10, ..blocked.clone() };
    assert_eq!(begin_request(&limited, 30, 10), Ok(BeginRequestOutcome::RateLimited));
    let fresh = AdmissionView { any_pending: false, changed_within_hour: 9, ..blocked.clone() };
    assert_eq!(begin_request(&fresh, 30, 10), Ok(BeginRequestOutcome::New));
    assert_eq!(begin_request(&fresh, 4, 10), Err(GatewayError::InvalidLimits));
}

#[test]
fn stored_status_round_trips() {
    for s in [StoredRequestStatus::Pending, StoredRequestStatus::Acknowledged] {
        assert_eq!(parse_stored_status(s.as_str()), Ok(s));
    }
    assert_eq!(acknowledge_result(1, None), Ok(()));
    assert_eq!(acknowledge_result(0, Some(StoredRequestStatus::Acknowledged)), Ok(()));
    assert_eq!(
        acknowledge_result(0, Some(StoredRequestStatus::Pending)),
        Err(GatewayError::NotAcknowledged)
    );
    assert_eq!(check_gateway_database_url("sqlite::memory:"), Err(GatewayError::DatabaseUrl));
    assert_eq!(check_gateway_database_url("sqlite:///x.db"), Ok(()));
}

fn now_millis() -> i64 {
    1_800_000_000_000
}

fn result(id: u128, status: OwnerStatus, reason: &str, at: &str) -> OwnerResult {
    OwnerResult {
        request_id: uuid::Uuid::from_u128(id).to_string(),
        status,
        reason: reason.to_owned(),
        at: at.to_owned(),
    }
}

/// The owner result a state holds, read as the service reads it: a JSON
/// object with exactly the string members `requestId`, `status` (a
/// lowercase status word), `reason` and `at`.
fn owner_parse(raw: &str) -> Option<OwnerResult> {
    let value: serde_json::Value = serde_json::from_str(raw.trim()).ok()?;
    let object = value.as_object()?;
    if object.len() != 4 {
        return None;
    }
    let text = |k: &str| object.get(k).and_then(|v| v.as_str()).map(str::to_owned);
    let status = match text("status")?.as_str() {
        "accepted" => OwnerStatus::Accepted,
        "running" => OwnerStatus::Running,
        "complete" => OwnerStatus::Complete,
        "denied" => OwnerStatus::Denied,
        "failed" => OwnerStatus::Failed,
        _ => return None,
    };
    Some(OwnerResult { request_id: text("requestId")?, status, reason: text("reason")?, at: text("at")? })
}

fn owner(raw: &str, id: u128) -> Result<OwnerOutcome, OpenHabError> {
    parse_owner_result(raw, owner_parse(raw), id, now_millis())
}

#[test]
fn aliases_and_contradictory_results_cannot_confirm() {
    let id: u128 = 0x1234_5678_9abc_4def_8123_456789abcdef;
    let text = uuid::Uuid::from_u128(id).to_string();
    for raw in [
        text.clone(),
        format!("{{\"requestId\":\"{text}\",\"status\":\"completed\"}}"),
        format!("{{\"request_id\":\"{text}\",\"success\":true}}"),
        format!("{{\"requestId\":\"{text}\",\"status\":\"complete\",\"reason\":\"execution_error\",\"at\":\"2026-09-11T00:00:00Z\"}}"),
        format!("{{\"requestId\":\"{text}\",\"status\":\"failed\",\"reason\":\"execution_error\",\"success\":true,\"at\":\"2026-09-11T00:00:00Z\"}}"),
    ] {
        assert!(owner(&raw, id).is_err(), "{raw}");
    }
    let contradictory = format!("{{\"requestId\":\"{text}\",\"status\":\"complete\",\"reason\":\"execution_error\",\"at\":\"2026-09-11T00:00:00Z\"}}");
    assert_eq!(owner(&contradictory, id), Err(OpenHabError::ContradictoryOwnerResult));
}

#[test]
fn exact_owner_contract_distinguishes_progress_completion_and_uncertainty() {
    let id: u128 = 0x0f0e_0d0c_0b0a_4908_8706_050403020100;
    let text = uuid::Uuid::from_u128(id).to_string();
    let cases = [
        ("accepted", "accepted", OwnerOutcome::Pending),
        ("running", "pulse_started", OwnerOutcome::Pending),
        ("complete", "complete", OwnerOutcome::Complete),
        ("denied", "request_invalid", OwnerOutcome::Rejected),
        ("denied", "request_stale", OwnerOutcome::Rejected),
        ("denied", "ledger_restore_missing", OwnerOutcome::Rejected),
        ("denied", "ledger_invalid", OwnerOutcome::Rejected),
        ("denied", "ledger_recovery_failed", OwnerOutcome::Rejected),
        ("denied", "duplicate", OwnerOutcome::Rejected),
        ("denied", "busy", OwnerOutcome::Rejected),
        ("denied", "cooldown", OwnerOutcome::Rejected),
        ("failed", "clock_invalid", OwnerOutcome::Ambiguous),
        ("failed", "restart_uncertain", OwnerOutcome::Ambiguous),
        ("failed", "ledger_readback_failed", OwnerOutcome::Ambiguous),
        ("failed", "ledger_persist_failed", OwnerOutcome::Ambiguous),
        ("failed", "execution_error", OwnerOutcome::Ambiguous),
    ];
    for (status, reason, expected) in cases {
        let raw = format!(
            "{{\"requestId\":\"{text}\",\"status\":\"{status}\",\"reason\":\"{reason}\",\"at\":\"2026-09-11T00:00:00Z\"}}"
        );
        assert_eq!(owner(&raw, id).unwrap(), expected, "{raw}");
        assert_eq!(owner(&raw, id ^ 0xffff).unwrap(), OwnerOutcome::Absent, "{raw}");
    }
}

#[test]
fn nullish_result_is_absent_and_canary_cannot_bind_physical_items() {
    for state in ["", "NULL", "UNDEF", "-"] {
        assert_eq!(parse_owner_result(state, None, 7, now_millis()).unwrap(), OwnerOutcome::Absent);
    }
    let mut config = openhab();
    config.protocol = OwnerProtocol::UuidCanary;
    assert!(check_client_config(&config, "synthetic").is_err());
}

#[test]
fn rejects_remote_openhab_url() {
    let mut config = openhab();
    config.url = "http://10.8.0.6:8080/".to_owned();
    assert!(check_client_config(&config, "token").is_err());
}

#[test]
fn owner_results_for_the_request_are_read_by_the_contract() {
    let id: u128 = 42;
    let done = result(id, OwnerStatus::Complete, "complete", "2026-09-11T00:00:00Z");
    assert_eq!(parse_owner_result("{}", Some(done), id, now_millis()), Ok(OwnerOutcome::Complete));
    let other = result(43, OwnerStatus::Complete, "complete", "2026-09-11T00:00:00Z");
    assert_eq!(parse_owner_result("{}", Some(other), id, now_millis()), Ok(OwnerOutcome::Absent));
    let busy = result(id, OwnerStatus::Denied, "busy", "2026-09-11T00:00:00Z");
    assert_eq!(parse_owner_result("{}", Some(busy), id, now_millis()), Ok(OwnerOutcome::Rejected));
    let bad_time = result(id, OwnerStatus::Accepted, "accepted", "tomorrow");
    assert_eq!(
        parse_owner_result("{}", Some(bad_time), id, now_millis()),
        Err(OpenHabError::InvalidOwnerTimestamp)
    );
    let future = result(id, OwnerStatus::Accepted, "accepted", "2099-01-01T00:00:00Z");
    assert_eq!(
        parse_owner_result("{}", Some(future), id, now_millis()),
        Err(OpenHabError::FutureOwnerResult)
    );
    assert_eq!(parse_owner_result("garbage", None, id, now_millis()), Err(OpenHabError::InvalidOwnerResult));
}

#[test]
fn canary_receipt_echoes_the_request_uuid() {
    let id: u128 = 0xabcdef;
    let text = uuid::Uuid::from_u128(id).to_string();
    assert_eq!(canary_outcome(&text, id), Ok(OwnerOutcome::Complete));
    assert_eq!(canary_outcome(&text, id + 1), Ok(OwnerOutcome::Absent));
    assert_eq!(canary_outcome("NULL", id), Ok(OwnerOutcome::Absent));
    assert_eq!(canary_outcome("not-a-uuid", id), Err(OpenHabError::InvalidCanaryReceipt));
}

#[test]
fn switch_states_and_client_config() {
    assert_eq!(parse_switch(" ON ", "item"), Ok(true));
    assert_eq!(parse_switch("OFF", "item"), Ok(false));
    assert_eq!(parse_switch("on", "item"), Err(OpenHabError::UnexpectedSwitchState));
    assert_eq!(check_client_config(&openhab(), " "), Err(OpenHabError::EmptyToken));
    assert_eq!(check_client_config(&openhab(), "token"), Ok(false));
    let mut c = openhab();
    c.url = "http://localhost:8080/rest".to_owned();
    assert_eq!(check_client_config(&c, "token"), Ok(true));
    c.override_item = "bad item".to_owned();
    assert_eq!(check_client_config(&c, "token"), Err(OpenHabError::IdentifierCharacters));
}

#[test]
fn feed_requests_follow_the_gateway_protocol() {
    let refuse = |reason| FeedStep::Refuse(FeedRefusal { reason, retry_after_seconds: 30 });
    assert_eq!(admission_step(false, BeginRequestOutcome::New, 30), refuse(RefusalReason::Safety));
    assert_eq!(admission_step(true, BeginRequestOutcome::New, 30), FeedStep::Command);
    assert_eq!(admission_step(true, BeginRequestOutcome::Blocked, 30), refuse(RefusalReason::Unresolved));
    assert_eq!(admission_step(true, BeginRequestOutcome::RateLimited, 30), refuse(RefusalReason::Capacity));
    assert_eq!(admission_step(true, BeginRequestOutcome::Pending, 30), FeedStep::CheckAck);
    assert_eq!(
        existing_step(StoredRequestStatus::Acknowledged),
        FeedStep::Answer { code: 200, outcome: FeedOutcome::Confirmed }
    );
    assert_eq!(existing_step(StoredRequestStatus::Pending), FeedStep::CheckAck);
    assert_eq!(pending_step(Some(true)), FeedStep::Acknowledge);
    assert_eq!(pending_step(Some(false)), FeedStep::Answer { code: 202, outcome: FeedOutcome::Pending });
    assert_eq!(pending_step(None), FeedStep::Failure);
    assert_eq!(ack_wait_step(Some(false), false), None);
    assert_eq!(ack_wait_step(Some(false), true), Some(FeedStep::Answer { code: 504, outcome: FeedOutcome::Ambiguous }));
    assert_eq!(ack_wait_step(None, false), Some(FeedStep::Answer { code: 409, outcome: FeedOutcome::Ambiguous }));
    assert_eq!(refusal_code(RefusalReason::Capacity), 429);
    assert_eq!(refusal_code(RefusalReason::Safety), 423);
}

#[test]
fn witness_must_cover_the_gateway_exactly() {
    let a: u128 = 0xab;
    let b: u128 = 0x22;
    let text = |id: u128| uuid::Uuid::from_u128(id).to_string();
    assert_eq!(check_metadata(&vec![(1, text(a))], a), Ok(()));
    assert_eq!(check_metadata(&vec![(1, text(a))], b), Err(GatewayError::WitnessMismatch));
    assert_eq!(check_metadata(&vec![], a), Err(GatewayError::WitnessMismatch));
    let ids = witness_identities(&vec![(text(a), 1), (text(b), 0)]).unwrap();
    assert_eq!(ids, vec![(a, true), (b, false)]);
    assert_eq!(witness_identities(&vec![(text(a), 1), (text(a), 0)]), Err(GatewayError::WitnessCoverage));
    assert_eq!(witness_identities(&vec![(text(a).to_uppercase(), 1)]), Err(GatewayError::WitnessCoverage));
    assert_eq!(witness_identities(&vec![(text(a), 2)]), Err(GatewayError::WitnessCoverage));
    assert!(coverage_matches(&ids, &vec![a]));
    assert!(!coverage_matches(&ids, &vec![a, b]));
    assert!(!coverage_matches(&ids, &vec![]));
    assert!(witness_contains(&ids, b));
    assert!(!witness_contains(&ids, 0x33));
}
