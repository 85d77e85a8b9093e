use media_gateway::probe::{ProbeStore, ProbeTelemetryRequest, MAX_PROBE_RECORDS};

#[test]
fn probe_request_id_is_idempotent_and_cursor_is_replayable() {
    let mut probe = ProbeStore::new();
    let (first, duplicate) = probe.issue_play("case-a-1".into());
    assert!(!duplicate);
    let (second, duplicate) = probe.issue_play("case-a-1".into());
    assert!(duplicate);
    assert_eq!(first.sequence, second.sequence);
    assert_eq!(probe.events_after(0).events.len(), 1);
    assert_eq!(probe.events_after(first.sequence).events.len(), 0);
}

#[test]
fn probe_telemetry_is_bounded_and_redacts_header_like_text() {
    let mut probe = ProbeStore::new();
    let sequence = probe.append_telemetry(ProbeTelemetryRequest {
        kind: "play_attempt".into(),
        command_id: Some("case-a-1".into()),
        attempt_id: Some("attempt-1".into()),
        result: Some("reject".into()),
        error_name: Some("NotAllowedError".into()),
        error_message: Some("Cookie Bearer secret".into()),
        muted: Some(false),
        detail: None,
    });
    assert_eq!(sequence, 1);
    let (_, _, telemetry) = probe.state_snapshot();
    assert_eq!(telemetry.len(), 1);
    assert!(!telemetry[0]
        .error_message
        .as_deref()
        .unwrap()
        .contains("Bearer secret"));
}

#[test]
fn probe_log_keeps_the_newest_commands_and_reports_truncation() {
    let mut probe = ProbeStore::new();
    for index in 0..(MAX_PROBE_RECORDS + 2) {
        probe.issue_play(format!("req-{index}"));
    }
    let all = probe.events_after(0);
    assert_eq!(all.events.len(), MAX_PROBE_RECORDS);
    assert_eq!(all.events[0].sequence, 3);
    assert_eq!(all.cursor, (MAX_PROBE_RECORDS + 2) as u64);
    assert!(all.truncated);
    assert!(!probe.events_after(2).truncated);
    let (again, duplicate) = probe.issue_play("req-0".into());
    assert!(!duplicate);
    assert_eq!(again.sequence, (MAX_PROBE_RECORDS + 3) as u64);
    probe.reset();
    assert_eq!(probe.events_after(0).cursor, 0);
    assert!(!probe.events_after(0).truncated);
}

#[test]
fn probe_events_and_snapshot_report_play_commands() {
    let mut probe = ProbeStore::new();
    probe.issue_play("kind-a".into());
    probe.issue_play("kind-b".into());
    let (replayed, duplicate) = probe.issue_play("kind-a".into());
    assert!(duplicate);
    assert_eq!(replayed.kind, "play");
    let events = probe.events_after(0).events;
    assert_eq!(events.len(), 2);
    assert!(events.iter().all(|event| event.kind == "play"));
    let (cursor, commands, _) = probe.state_snapshot();
    assert_eq!(cursor, 2);
    assert_eq!(commands.len(), 2);
    assert!(commands.iter().all(|command| command.kind == "play"));
}
