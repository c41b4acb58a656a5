use base64::Engine;
use lightning_goats::config::{IpAddress, RuntimeMode};
use lightning_goats::ledger::DurableEvent;
use lightning_goats::messaging::{
    next_message_action, MessageAction, MessageError, MessageProcessorStep, MESSAGE_TAG,
};
use lightning_goats::nostr::private::{
    check_private_input, restore_private_wrap, validate_private, validate_private_relays,
    MAX_PRIVATE_CONTENT,
};
use lightning_goats::nostr::{NostrError, SignedNostrEvent};
use lightning_goats::overlay::{
    count_input, next_window_end, on_client_frame, on_heartbeat, replay_fits, window_sizes_ok,
    ClientFrame, FrameAction, OverlayError, OverlayResume, MAX_INPUTS_PER_WINDOW, MAX_MESSAGE,
    MAX_QUEUE,
};
use lightning_goats::presentation::{EventFields, MessageRenderer, RenderError, TemplateCatalog};

fn renderer() -> MessageRenderer {
    MessageRenderer::from_catalog(TemplateCatalog {
        sats_received: vec!["{goat_name} got {new_amount} sats! {difference_message}".to_owned()],
        feeder_trigger: vec!["{goat_name} is eating!".to_owned()],
        interface_info: vec!["Send sats to feed the goats.".to_owned()],
    })
    .unwrap()
}

fn fields() -> EventFields {
    EventFields {
        amount_sats: Some(100),
        feed_credit_sats: Some(100),
        threshold_sats: None,
        address_user: Some("dexter".to_owned()),
        message: None,
        weather_observed_at: None,
    }
}

fn event(seq: u64, event_type: &str) -> DurableEvent {
    DurableEvent { seq, event_type: event_type.to_owned(), payload_json: "{}".to_owned() }
}

#[test]
fn shadow_and_canary_modes_advance_without_signing() {
    let r = renderer();
    let e = event(5, "payment_received");
    for mode in [RuntimeMode::Shadow, RuntimeMode::Canary] {
        assert_eq!(
            next_message_action(Some(&e), &Some(fields()), &r, 1_000, mode, true),
            Ok(MessageAction::Advance(MessageProcessorStep::PublicationDisabled { seq: 5 }))
        );
    }
    assert_eq!(next_message_action(None, &None, &r, 1_000, RuntimeMode::Active, true), Ok(MessageAction::Idle));
    assert_eq!(
        next_message_action(None, &None, &r, 0, RuntimeMode::Active, true),
        Err(MessageError::ZeroThreshold)
    );
}

#[test]
fn overlay_only_events_are_skipped_and_payments_are_signed() {
    let r = renderer();
    let info = event(6, "interface_info");
    assert_eq!(
        next_message_action(Some(&info), &Some(fields()), &r, 1_000, RuntimeMode::Active, true),
        Ok(MessageAction::Advance(MessageProcessorStep::NonPublicSkipped { seq: 6 }))
    );
    let pay = event(7, "payment_received");
    match next_message_action(Some(&pay), &Some(fields()), &r, 1_000, RuntimeMode::Active, true).unwrap() {
        MessageAction::Sign { seq, content, tags } => {
            assert_eq!(seq, 7);
            assert!(content.contains("nostr:nprofile1"));
            assert_eq!(tags, vec![vec!["t".to_owned(), MESSAGE_TAG.to_owned()]]);
        }
        other => panic!("unexpected {other:?}"),
    }
    assert_eq!(
        next_message_action(Some(&pay), &Some(fields()), &r, 1_000, RuntimeMode::Active, false),
        Err(MessageError::NoSigner)
    );
    assert_eq!(
        next_message_action(Some(&pay), &None, &r, 1_000, RuntimeMode::Active, true),
        Err(MessageError::Render(RenderError::InvalidPayload))
    );
}

fn wrap(content: &str) -> SignedNostrEvent {
    SignedNostrEvent {
        id: "01".repeat(32),
        pubkey: "ee".repeat(32),
        created_at: 10,
        kind: 1059,
        tags: vec![vec!["p".to_owned(), "ab".repeat(32)]],
        content: content.to_owned(),
        sig: "02".repeat(64),
    }
}

fn nip44_payload() -> String {
    let mut bytes = vec![2u8];
    bytes.extend(std::iter::repeat(7u8).take(120));
    base64::engine::general_purpose::STANDARD.encode(bytes)
}

#[test]
fn private_inputs_and_restored_wraps_are_checked() {
    let recipient = "ab".repeat(32);
    assert_eq!(check_private_input(&recipient, "hello"), Ok(()));
    assert_eq!(check_private_input(&"AB".repeat(32), "hello"), Err(NostrError::InvalidPrivateInput));
    assert_eq!(check_private_input(&recipient, ""), Err(NostrError::InvalidPrivateInput));
    assert_eq!(
        check_private_input(&recipient, &"x".repeat(MAX_PRIVATE_CONTENT + 1)),
        Err(NostrError::InvalidPrivateInput)
    );
    assert_eq!(check_private_input("abc", "hello"), Err(NostrError::InvalidHex));

    let good = wrap(&nip44_payload());
    assert_eq!(validate_private(&good, &recipient), Ok(()));
    assert_eq!(validate_private(&wrap("not base64!"), &recipient), Err(NostrError::NotNip44));
    let short = base64::engine::general_purpose::STANDARD.encode([2u8; 10]);
    assert_eq!(validate_private(&wrap(&short), &recipient), Err(NostrError::NotNip44));
    let mut kind1 = good.clone();
    kind1.kind = 1;
    assert_eq!(validate_private(&kind1, &recipient), Err(NostrError::InvalidPrivateEvent));

    let raw = "{\"restored\":true}";
    let restored = restore_private_wrap(&recipient, raw, &Some((true, good.clone())), &"cc".repeat(32)).unwrap();
    assert_eq!(restored.event_id(), "01".repeat(32));
    assert_eq!(restored.ciphertext_json(), raw);
    assert_eq!(
        restore_private_wrap(&recipient, raw, &Some((false, good.clone())), &"cc".repeat(32)).err(),
        Some(NostrError::UnexpectedFields)
    );
    assert_eq!(
        restore_private_wrap(&recipient, raw, &Some((true, good)), &"ee".repeat(32)).err(),
        Some(NostrError::NotEphemeral)
    );
    assert_eq!(restore_private_wrap(&recipient, raw, &None, "x").err(), Some(NostrError::UnexpectedFields));
}

#[test]
fn private_relays_must_be_secure_or_local() {
    assert_eq!(validate_private_relays(&vec![("wss://relay.example".to_owned(), None)]), Ok(()));
    assert_eq!(
        validate_private_relays(&vec![("ws://127.0.0.1:7000".to_owned(), Some(IpAddress::V4(127, 0, 0, 1)))]),
        Ok(())
    );
    assert_eq!(validate_private_relays(&vec![]), Err(NostrError::InvalidRelays));
    assert_eq!(
        validate_private_relays(&vec![("ws://relay.example".to_owned(), None)]),
        Err(NostrError::InvalidRelays)
    );
}

#[test]
fn overlay_connections_are_bounded() {
    assert!(OverlayResume { version: None, stream: None, after: None }.validate().is_ok());
    assert!(OverlayResume { version: Some(1), stream: Some(9), after: Some(3) }.validate().is_ok());
    assert_eq!(
        OverlayResume { version: Some(2), stream: None, after: None }.validate(),
        Err(OverlayError::InvalidResume)
    );
    assert_eq!(
        OverlayResume { version: Some(1), stream: None, after: Some(3) }.validate(),
        Err(OverlayError::InvalidResume)
    );
    assert!(window_sizes_ok(&vec![10, 20]));
    assert!(!window_sizes_ok(&vec![MAX_MESSAGE + 1]));
    assert!(replay_fits(MAX_QUEUE - 5, 5));
    assert!(!replay_fits(MAX_QUEUE - 5, 6));
    assert_eq!(next_window_end(50, 10), 50);
    assert_eq!(next_window_end(500, 10), 110);
    assert_eq!(next_window_end(u64::MAX, u64::MAX - 3), u64::MAX);
    assert_eq!(count_input(0, 0), Ok((false, 1)));
    assert_eq!(count_input(10_000, MAX_INPUTS_PER_WINDOW), Ok((true, 1)));
    assert_eq!(count_input(9_999, MAX_INPUTS_PER_WINDOW), Err(OverlayError::InputRate));
}

#[test]
fn overlay_takes_control_frames_only() {
    let outstanding = Some(vec![0, 0, 0, 0, 0, 0, 0, 7]);
    assert_eq!(on_client_frame(ClientFrame::Text, outstanding.clone()), Err(OverlayError::ControlFramesOnly));
    assert_eq!(on_client_frame(ClientFrame::Binary, None), Err(OverlayError::ControlFramesOnly));
    assert_eq!(on_client_frame(ClientFrame::Close, outstanding.clone()), Ok((FrameAction::Finish, outstanding.clone())));
    assert_eq!(on_client_frame(ClientFrame::Ended, None), Ok((FrameAction::Finish, None)));
    assert_eq!(
        on_client_frame(ClientFrame::Ping(vec![1, 2, 3]), outstanding.clone()),
        Ok((FrameAction::SendPong(vec![1, 2, 3]), outstanding.clone()))
    );
}

#[test]
fn only_the_matching_pong_settles_the_outstanding_ping() {
    let outstanding = Some(vec![0, 0, 0, 0, 0, 0, 0, 7]);
    assert_eq!(
        on_client_frame(ClientFrame::Pong(vec![0, 0, 0, 0, 0, 0, 0, 7]), outstanding.clone()),
        Ok((FrameAction::Continue, None))
    );
    assert_eq!(
        on_client_frame(ClientFrame::Pong(vec![0, 0, 0, 0, 0, 0, 0, 8]), outstanding.clone()),
        Ok((FrameAction::Continue, outstanding.clone()))
    );
    assert_eq!(
        on_client_frame(ClientFrame::Pong(vec![7]), None),
        Ok((FrameAction::Continue, None))
    );
}

#[test]
fn heartbeat_pings_with_the_next_big_endian_nonce() {
    assert_eq!(on_heartbeat(6, true), None);
    assert_eq!(on_heartbeat(6, false), Some((7, vec![0, 0, 0, 0, 0, 0, 0, 7])));
    assert_eq!(on_heartbeat(0x0102_0304_0506_0707, false), Some((0x0102_0304_0506_0708, vec![1, 2, 3, 4, 5, 6, 7, 8])));
    assert_eq!(on_heartbeat(u64::MAX, false), Some((0, vec![0; 8])));
    assert_eq!(on_heartbeat(41, false).map(|(n, p)| (n, p)), Some((42, 42u64.to_be_bytes().to_vec())));
}
