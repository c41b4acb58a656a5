use lightning_goats::ledger::DurableEvent;
use lightning_goats::overlay::{durable_event_message, skipped_weather, OverlayError};
use lightning_goats::presentation::{
    difference_message, remaining_sats, safe_substitute, validate_catalog,
    validate_template_syntax, EventFields, MessageRenderer, RenderError, TemplateCatalog,
    TemplateError,
};
use serde_json::Value;

const NOW: i64 = 1_789_000_000;

fn catalog() -> TemplateCatalog {
    TemplateCatalog {
        sats_received: vec![
            "{goat_name} got {new_amount} sats! {difference_message}".to_owned(),
            "Thanks for {new_amount} sats, says {goat_name}. {difference} to go.".to_owned(),
        ],
        feeder_trigger: vec!["{goat_name} is eating thanks to {new_amount} sats!".to_owned()],
        interface_info: vec!["Send sats to feed the goats.".to_owned()],
    }
}

fn renderer() -> MessageRenderer {
    MessageRenderer::from_catalog(catalog()).unwrap()
}

fn event(seq: u64, event_type: &str, payload: &str) -> DurableEvent {
    DurableEvent { seq, event_type: event_type.to_owned(), payload_json: payload.to_owned() }
}

fn no_fields() -> EventFields {
    EventFields {
        amount_sats: None,
        feed_credit_sats: None,
        threshold_sats: None,
        address_user: None,
        message: None,
        weather_observed_at: None,
    }
}

fn payment(amount: u64, credit: u64, user: &str) -> EventFields {
    EventFields {
        amount_sats: Some(amount),
        feed_credit_sats: Some(credit),
        address_user: Some(user.to_owned()),
        ..no_fields()
    }
}

fn timestamp(epoch: i64) -> String {
    chrono::DateTime::from_timestamp(epoch, 0).unwrap().to_rfc3339()
}

#[test]
fn same_event_renders_identically_across_retries() {
    let renderer = renderer();
    let event = event(42, "payment_received", "{}");
    let fields = Some(payment(250, 750, "herd"));
    assert_eq!(
        renderer.render(&event, &fields, 1_000).unwrap(),
        renderer.render(&event, &fields, 1_000).unwrap()
    );
}

#[test]
fn individual_address_uses_that_goat_for_overlay_and_nostr() {
    let renderer = renderer();
    let rendered = renderer
        .render(&event(7, "payment_received", "{}"), &Some(payment(100, 100, "dexter")), 1_000)
        .unwrap();
    assert_eq!(rendered.overlay_goats[0].name, "Dexter");
    assert!(rendered.overlay_message.unwrap().contains("Dexter"));
    assert!(rendered.nostr_content.unwrap().contains("nostr:nprofile1"));
}

#[test]
fn informational_and_weather_messages_are_overlay_only() {
    let renderer = renderer();
    let info = renderer.render(&event(3, "interface_info", "{}"), &Some(no_fields()), 1_000).unwrap();
    assert!(info.nostr_content.is_none());
    assert_eq!(info.overlay_type.as_deref(), Some("interface_info"));
    assert!(info.overlay_message.is_some());

    let weather_fields = EventFields { message: Some("Sunny and 72°F".to_owned()), ..no_fields() };
    let weather =
        renderer.render(&event(4, "weather_status", "{}"), &Some(weather_fields), 1_000).unwrap();
    assert!(weather.nostr_content.is_none());
    assert_eq!(weather.overlay_message.as_deref(), Some("Sunny and 72°F"));
}

#[test]
fn safe_formatter_rejects_attribute_and_index_access() {
    assert!(validate_template_syntax("{x.__class__}").is_err());
    assert!(validate_template_syntax("{x[0]}").is_err());
}

#[test]
fn template_syntax_errors_are_named() {
    assert_eq!(validate_template_syntax("{x.__class__}"), Err(TemplateError::UnsafePlaceholder));
    assert_eq!(validate_template_syntax("open {"), Err(TemplateError::UnmatchedOpen));
    assert_eq!(validate_template_syntax("close }"), Err(TemplateError::UnmatchedClose));
    assert_eq!(validate_template_syntax("plain {ok_1} text"), Ok(()));
}

#[test]
fn substitution_fills_named_fields() {
    let values = vec![("name".to_owned(), "Nova".to_owned())];
    assert_eq!(safe_substitute("Hi {name}!", &values), Ok("Hi Nova!".to_owned()));
    assert_eq!(safe_substitute("Hi {other}", &values), Err(TemplateError::MissingField));
}

#[test]
fn progress_lines_count_feeds_and_remainder() {
    assert_eq!(difference_message(250, 1_000), "750 sats until feeder activation.");
    assert_eq!(difference_message(2_000, 1_000), "Feeder ready! 2 feeding(s) are funded.");
    assert_eq!(
        difference_message(2_340, 1_000),
        "Feeder ready! 2 feeding(s) are funded, with 340 sats already toward the following feeding."
    );
    assert_eq!(remaining_sats(250, 1_000), 750);
    assert_eq!(remaining_sats(2_340, 1_000), 660);
    assert_eq!(remaining_sats(2_000, 1_000), 1_000);
}

#[test]
fn catalogs_with_empty_or_unsafe_categories_are_refused() {
    let mut c = catalog();
    c.feeder_trigger.clear();
    assert_eq!(validate_catalog(&c), Err(RenderError::EmptyCategory));
    let mut c = catalog();
    c.interface_info = vec!["{a[1]}".to_owned()];
    assert_eq!(validate_catalog(&c), Err(RenderError::Template(TemplateError::UnsafePlaceholder)));
    let mut c = catalog();
    c.sats_received = vec!["   ".to_owned()];
    assert_eq!(validate_catalog(&c), Err(RenderError::TemplateLength));
    assert!(validate_catalog(&catalog()).is_ok());
}

#[test]
fn render_refuses_zero_threshold_and_missing_payload() {
    let r = renderer();
    let e = event(1, "payment_received", "{}");
    assert_eq!(r.render(&e, &Some(payment(1, 1, "herd")), 0), Err(RenderError::ZeroThreshold));
    assert_eq!(r.render(&e, &None, 1_000), Err(RenderError::InvalidPayload));
    let other = r.render(&event(2, "credit_intent", "{}"), &Some(no_fields()), 1_000).unwrap();
    assert!(other.nostr_content.is_none() && other.overlay_message.is_none());
}

#[test]
fn payment_event_is_presented_as_legacy_sats_received_message() {
    let payload = r#"{"amount_sats":250,"feed_credit_sats":750,"address_user":"dexter","type":"attacker-supplied","seq":999}"#;
    let message = durable_event_message(
        &event(42, "payment_received", payload),
        &Some(payment(250, 750, "dexter")),
        &renderer(),
        1_000,
        NOW,
    )
    .unwrap();
    let value: Value = serde_json::from_str(&message).unwrap();

    assert_eq!(value["type"], "sats_received");
    assert_eq!(value["source_type"], "payment_received");
    assert_eq!(value["seq"], 42);
    assert_eq!(value["amount_sats"], 250);
    assert!(value["message"].as_str().unwrap().contains("Dexter"));
    assert_eq!(value["goats"][0]["name"], "Dexter");
    assert_eq!(value["goats"][0]["imageUrl"], "images/dexter.png");
}

#[test]
fn informational_event_is_overlay_only_message() {
    let message = durable_event_message(
        &event(9, "interface_info", "{}"),
        &Some(no_fields()),
        &renderer(),
        1_000,
        NOW,
    )
    .unwrap();
    let value: Value = serde_json::from_str(&message).unwrap();
    assert_eq!(value["type"], "interface_info");
    assert!(value["message"].as_str().is_some_and(|message| !message.is_empty()));
}

#[test]
fn weather_payload_preserves_structured_data_and_adds_message() {
    let observed = timestamp(NOW);
    let payload = format!(
        r#"{{"message":"Sunny and 72°F","data":{{"temperature_f":72.0,"observed_at":"{observed}"}}}}"#
    );
    let fields = EventFields {
        message: Some("Sunny and 72°F".to_owned()),
        weather_observed_at: Some(observed),
        ..no_fields()
    };
    let message =
        durable_event_message(&event(10, "weather_status", &payload), &Some(fields), &renderer(), 1_000, NOW)
            .unwrap();
    let value: Value = serde_json::from_str(&message).unwrap();
    assert_eq!(value["type"], "weather_status");
    assert_eq!(value["message"], "Sunny and 72°F");
    assert_eq!(value["data"]["temperature_f"], 72.0);
}

#[test]
fn durable_event_rejects_non_object_payloads() {
    assert!(durable_event_message(&event(1, "bad", "[]"), &None, &renderer(), 1_000, NOW).is_err());
    assert_eq!(
        durable_event_message(&event(1, "bad", "{not json"), &None, &renderer(), 1_000, NOW),
        Err(OverlayError::InvalidPayloadJson)
    );
}

#[test]
fn stale_weather_replay_advances_cursor_without_displaying_old_message() {
    let payload = r#"{"message":"Old weather","data":{"observed_at":"2000-01-01T00:00:00Z"}}"#;
    let fields = EventFields {
        message: Some("Old weather".to_owned()),
        weather_observed_at: Some("2000-01-01T00:00:00Z".to_owned()),
        ..no_fields()
    };
    let message =
        durable_event_message(&event(7, "weather_status", payload), &Some(fields), &renderer(), 1000, NOW)
            .unwrap();
    let value: Value = serde_json::from_str(&message).unwrap();
    assert_eq!(value["type"], "event_skipped");
    assert_eq!(value["seq"], 7);
    assert!(value.get("message").is_none());
    assert_eq!(message, skipped_weather(7));
}
