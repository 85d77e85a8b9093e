use media_gateway::control::{ControlCommand, ControlCommandRequest, ControlService};

#[test]
fn reconnect_requires_snapshot_when_cursor_history_is_expired() {
    let mut control = ControlService::new(2);
    let session_id = control.seed_test_session("item-a".into(), "media-a".into(), "display-a".into());
    for (index, expected) in (0..3).enumerate() {
        control
            .execute_command(
                &session_id,
                ControlCommandRequest {
                    request_id: format!("req-{index}"),
                    expected_session_revision: Some(expected),
                    command: ControlCommand::Pause,
                },
            )
            .unwrap();
    }
    let expired = control.events_after(&session_id, 0).unwrap();
    assert!(expired.snapshot_required);
    assert_eq!(expired.reason, Some("cursor_expired"));
    let reconnect = control.events_after(&session_id, 1).unwrap();
    assert!(!reconnect.snapshot_required);
    assert_eq!(reconnect.events.len(), 2);
    assert_eq!(reconnect.events[0].cursor, 2);
    assert_eq!(reconnect.events[1].cursor, 3);
    assert_eq!(control.snapshot(&session_id).unwrap().session_revision, 3);
    assert!(
        control
            .events_after(&session_id, 4)
            .unwrap()
            .snapshot_required
    );
}

#[test]
fn stale_expected_revision_is_rejected_and_replay_is_idempotent() {
    let mut control = ControlService::default();
    let session_id = control.seed_test_session("item-a".into(), "media-a".into(), "display-a".into());
    let first = control
        .execute_command(
            &session_id,
            ControlCommandRequest {
                request_id: "req-1".into(),
                expected_session_revision: Some(0),
                command: ControlCommand::Pause,
            },
        )
        .unwrap();
    assert_eq!(first.session_revision, 1);
    let replay = control
        .execute_command(
            &session_id,
            ControlCommandRequest {
                request_id: "req-1".into(),
                expected_session_revision: Some(0),
                command: ControlCommand::Pause,
            },
        )
        .unwrap();
    assert_eq!(replay.session_revision, 1);
    assert!(control
        .execute_command(
            &session_id,
            ControlCommandRequest {
                request_id: "req-2".into(),
                expected_session_revision: Some(0),
                command: ControlCommand::Play,
            },
        )
        .is_err());
    assert_eq!(control.snapshot(&session_id).unwrap().session_revision, 1);
    assert!(control.snapshot("missing").is_err());
}

#[test]
fn sessions_are_isolated_and_snapshot_is_canonical_non_secret_view() {
    let mut control = ControlService::default();
    let a = control.seed_test_session(
        "item-a".into(),
        "https://cdn.invalid/raw-secret-a".into(),
        "display-a".into(),
    );
    let b = control.seed_test_session(
        "item-b".into(),
        "https://cdn.invalid/raw-secret-b".into(),
        "display-b".into(),
    );
    assert_ne!(a, b);
    let snapshot = control.snapshot(&a).unwrap();
    assert_eq!(snapshot.session_id, a);
    assert_eq!(snapshot.session_revision, 0);
    assert_eq!(snapshot.state, "playing");
    assert_eq!(snapshot.current_item.item_id, "item-a");
    assert_eq!(snapshot.current_item.item_revision, 1);
    assert_eq!(snapshot.current_item.media_generation, 0);
    assert_eq!(snapshot.position_ms, 0);
    assert_eq!(snapshot.telemetry_sequence, 0);
    assert_eq!(snapshot.active_display.display_id, "display-a");
    assert_eq!(snapshot.active_display.generation, 1);
    assert!(snapshot.handoff.is_none());
    assert!(!format!("{snapshot:?}").contains("raw-secret"));
    assert_eq!(control.snapshot(&b).unwrap().current_item.item_id, "item-b");
    assert!(control.snapshot("s-missing").is_err());
    assert!(a.starts_with("s-1-") && b.starts_with("s-2-"));
}
