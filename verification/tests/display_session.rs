use media_gateway::control::{ControlCommand, ControlCommandRequest, ControlService};
use media_gateway::control_view::{
    BrowserViewInput, ControlView, ControlViewInput, PlaybackObservationView, SiteViewInput,
};
use media_gateway::display_session::{
    DisplayCallback, DisplayContextResponse, DisplayRegistration, DisplaySessionError,
    DisplaySessionService, WebDisplayObservation,
};

const NOW: u64 = 1_700_000_000_000;

fn registration(session_id: &str, display_id: &str) -> DisplayRegistration {
    DisplayRegistration {
        session_id: Some(session_id.into()),
        display_id: display_id.into(),
        label: "Living room browser".into(),
        capabilities: vec!["video".into(), "audio".into()],
        previous_registration_id: None,
        previous_lease_token: None,
    }
}

fn callback(
    lease_token: String,
    context: &DisplayContextResponse,
    observation: Option<WebDisplayObservation>,
    position_ms: Option<u64>,
    telemetry_sequence: Option<u64>,
) -> DisplayCallback {
    DisplayCallback {
        lease_token,
        session_id: context.session_id.clone(),
        item_id: context.item_id.clone(),
        item_revision: context.item_revision,
        session_revision: context.session_revision,
        display_id: context.display_id.clone(),
        display_generation: context.display_generation,
        telemetry_sequence,
        position_ms,
        observation,
        error_code: None,
    }
}

fn seeded(item: &str, media: &str, display: &str) -> (ControlService, String) {
    let mut control = ControlService::default();
    let session = control.seed_test_session(item.into(), media.into(), display.into());
    (control, session)
}

#[test]
fn registration_heartbeat_and_context_are_server_owned_and_bounded() {
    let (control, session) = seeded("item-a", "secret-media", "display-a");
    let mut service = DisplaySessionService::new(5_000);
    let now = NOW;
    let registered = service
        .register_at(&control, registration(&session, "display-a"), now)
        .unwrap();
    assert_ne!(registered.registration_id, "display-a");
    assert_eq!(registered.page_lease_epoch, 1);
    assert!(
        registered
            .context
            .as_ref()
            .expect("attached context")
            .is_current_display
    );
    assert!(!format!("{registered:?}").contains("secret-media"));

    let heartbeat = service
        .heartbeat_at("display-a", &registered.lease_token, now + 1_000)
        .unwrap();
    assert_eq!(heartbeat.page_lease_epoch, 1);
    assert_eq!(control.snapshot(&session).unwrap().session_revision, 0);
    let context = service
        .context_at(
            &control,
            "display-a",
            &registered.lease_token,
            None,
            now + 1_000,
        )
        .unwrap();
    assert_eq!(context.display_generation, 1);
    assert!(!format!("{context:?}").contains("secret-media"));
}

#[test]
fn registration_liveness_is_independent_from_playback_attachment() {
    let (control, session) = seeded("item-a", "media", "display-a");
    let mut service = DisplaySessionService::default();
    let registered = service
        .register(
            &control,
            DisplayRegistration {
                session_id: None,
                display_id: "display-a".into(),
                label: "Idle browser".into(),
                capabilities: vec!["video".into(), "audio".into(), "subtitles".into()],
                previous_registration_id: None,
                previous_lease_token: None,
            },
        )
        .unwrap();
    assert!(registered.context.is_none());
    assert!(matches!(
        service.context(&control, "display-a", &registered.lease_token),
        Err(DisplaySessionError::SessionNotAttached)
    ));

    let context = service
        .context_for_session(
            &control,
            "display-a",
            &registered.lease_token,
            Some(&session),
        )
        .unwrap();
    assert_eq!(context.session_id, session);
    assert_eq!(
        context.media_capabilities,
        vec!["video", "audio", "subtitles"]
    );
}

#[test]
fn same_item_callback_accepts_informationally_stale_command_revision() {
    let (mut control, session) = seeded("item-a", "media", "display-a");
    let mut service = DisplaySessionService::default();
    let registered = service
        .register(&control, registration(&session, "display-a"))
        .unwrap();
    let context = registered.context.as_ref().expect("attached context");
    let old_revision = context.session_revision;
    control
        .execute_command(
            &session,
            ControlCommandRequest {
                request_id: "pause-before-telemetry".into(),
                expected_session_revision: Some(old_revision),
                command: ControlCommand::Pause,
            },
        )
        .unwrap();

    let mut callback = callback(
        registered.lease_token.clone(),
        context,
        Some(WebDisplayObservation::Paused),
        Some(2_000),
        Some(1),
    );
    callback.session_revision = old_revision;
    assert!(
        service
            .callback(&mut control, callback)
            .unwrap()
            .telemetry_accepted
    );
}

#[test]
fn candidate_sequence_is_local_and_cannot_change_active_telemetry() {
    let (mut control, session) = seeded("item-a", "media", "display-a");
    let mut service = DisplaySessionService::default();
    let active = service
        .register(&control, registration(&session, "display-a"))
        .unwrap();
    service
        .callback(
            &mut control,
            callback(
                active.lease_token.clone(),
                active.context.as_ref().expect("attached context"),
                Some(WebDisplayObservation::Playing),
                Some(100_000),
                Some(100),
            ),
        )
        .unwrap();
    let handoff = control
        .execute_command(
            &session,
            ControlCommandRequest {
                request_id: "local-candidate-sequence".into(),
                expected_session_revision: Some(0),
                command: ControlCommand::BeginHandoff {
                    target_display_id: "display-b".into(),
                },
            },
        )
        .unwrap();
    let candidate = service
        .register(&control, registration(&session, "display-b"))
        .unwrap();
    let mut context = candidate.context.expect("attached context");
    context.session_revision = handoff.session_revision;
    let result = service
        .callback(
            &mut control,
            callback(
                candidate.lease_token,
                &context,
                Some(WebDisplayObservation::Playing),
                Some(101_000),
                Some(1),
            ),
        )
        .unwrap();
    assert!(result.candidate_observation);
    let snapshot = control.snapshot(&session).unwrap();
    assert_eq!(snapshot.position_ms, 100_000);
    assert_eq!(snapshot.telemetry_sequence, 100);
    assert_eq!(snapshot.active_display.display_id, "display-a");
    assert_eq!(
        snapshot.handoff.unwrap().candidate_position_ms,
        Some(101_000)
    );
}

#[test]
fn reconnect_supersedes_old_lease_and_rejects_old_callback() {
    let (mut control, session) = seeded("item-a", "media", "display-a");
    let mut service = DisplaySessionService::default();
    let now = NOW;
    let first = service
        .register_at(&control, registration(&session, "display-a"), now)
        .unwrap();
    let old_context = first.context.clone().expect("attached context");
    let second = service
        .register_at(
            &control,
            DisplayRegistration {
                previous_registration_id: Some(first.registration_id.clone()),
                previous_lease_token: Some(first.lease_token.clone()),
                ..registration(&session, "display-a")
            },
            now + 1_000,
        )
        .unwrap();
    assert_eq!(second.page_lease_epoch, 2);
    let old = service.callback_at(
        &mut control,
        callback(
            first.lease_token,
            &old_context,
            Some(WebDisplayObservation::Paused),
            None,
            None,
        ),
        now + 1_000,
    );
    assert!(matches!(old, Err(DisplaySessionError::LeaseInvalid)));
    assert_eq!(control.snapshot(&session).unwrap().position_ms, 0);
}

#[test]
fn stale_context_matrix_is_rejected_before_side_effects() {
    let (mut control, session) = seeded("item-a", "media", "display-a");
    let mut service = DisplaySessionService::default();
    let registered = service
        .register(&control, registration(&session, "display-a"))
        .unwrap();
    let context = registered.context.expect("attached context");
    let mut wrong_session = callback(
        registered.lease_token.clone(),
        &context,
        Some(WebDisplayObservation::Playing),
        Some(1_000),
        Some(1),
    );
    wrong_session.session_id = "other-session".into();
    assert!(matches!(
        service.callback(&mut control, wrong_session),
        Err(DisplaySessionError::StaleContext)
    ));
    for (item_id, item_revision, display_generation, session_revision) in [
        (
            "old-item",
            context.item_revision,
            context.display_generation,
            context.session_revision,
        ),
        (
            context.item_id.as_str(),
            context.item_revision + 1,
            context.display_generation,
            context.session_revision,
        ),
        (
            context.item_id.as_str(),
            context.item_revision,
            context.display_generation + 1,
            context.session_revision,
        ),
    ] {
        let result = service.callback(
            &mut control,
            DisplayCallback {
                lease_token: registered.lease_token.clone(),
                session_id: session.clone(),
                item_id: item_id.into(),
                item_revision,
                session_revision,
                display_id: "display-a".into(),
                display_generation,
                telemetry_sequence: Some(1),
                position_ms: Some(1_000),
                observation: Some(WebDisplayObservation::Playing),
                error_code: None,
            },
        );
        assert!(matches!(result, Err(DisplaySessionError::StaleContext)));
    }
    assert_eq!(control.snapshot(&session).unwrap().position_ms, 0);
}

#[test]
fn current_position_callback_routes_through_r007_and_candidate_cannot_commit() {
    let (mut control, session) = seeded("item-a", "media", "display-a");
    let mut service = DisplaySessionService::default();
    let registered = service
        .register(&control, registration(&session, "display-a"))
        .unwrap();
    let accepted = service
        .callback(
            &mut control,
            callback(
                registered.lease_token.clone(),
                registered.context.as_ref().expect("attached context"),
                Some(WebDisplayObservation::Playing),
                Some(12_000),
                Some(1),
            ),
        )
        .unwrap();
    assert!(accepted.telemetry_accepted);
    assert_eq!(control.snapshot(&session).unwrap().position_ms, 12_000);
    assert_eq!(control.snapshot(&session).unwrap().session_revision, 0);

    let handoff = control
        .execute_command(
            &session,
            ControlCommandRequest {
                request_id: "handoff".into(),
                expected_session_revision: Some(0),
                command: ControlCommand::BeginHandoff {
                    target_display_id: "display-b".into(),
                },
            },
        )
        .unwrap();
    let target = service
        .register(&control, registration(&session, "display-b"))
        .unwrap();
    let mut candidate = target.context.expect("attached context");
    candidate.session_revision = handoff.session_revision;
    let candidate_result = service
        .callback(
            &mut control,
            callback(
                target.lease_token,
                &candidate,
                Some(WebDisplayObservation::Playing),
                Some(13_000),
                Some(2),
            ),
        )
        .unwrap();
    assert!(candidate_result.candidate_observation);
    assert_eq!(
        control
            .snapshot(&session)
            .unwrap()
            .active_display
            .display_id,
        "display-a"
    );
    assert!(control.snapshot(&session).unwrap().handoff.is_some());
}

#[test]
fn accepted_control_view_consumes_generic_web_display_facts_without_branching() {
    let (mut control, session) = seeded("item-a", "media", "display-a");
    let mut service = DisplaySessionService::default();
    let registered = service
        .register(&control, registration(&session, "display-a"))
        .unwrap();
    service
        .callback(
            &mut control,
            callback(
                registered.lease_token.clone(),
                registered.context.as_ref().expect("attached context"),
                Some(WebDisplayObservation::Playing),
                Some(5_000),
                Some(1),
            ),
        )
        .unwrap();
    let input = ControlViewInput {
        playback: control.snapshot(&session).unwrap(),
        event_cursor: None,
        site: SiteViewInput::default(),
        browser: BrowserViewInput::default(),
        display: service.display_view_input(&control, "display-a").unwrap(),
    };
    let view = ControlView::project(input);
    assert_eq!(view.active_display.adapter_type.as_deref(), Some("web"));
    assert!(view.active_display.online);
    assert_eq!(
        view.active_display.observation,
        Some(PlaybackObservationView::Playing)
    );
    assert_eq!(view.now_playing.position_ms, 5_000);
}

#[test]
fn expired_lease_is_offline_and_cannot_be_renewed() {
    let (control, session) = seeded("item-a", "media", "display-a");
    let mut service = DisplaySessionService::new(1_000);
    let now = NOW;
    let registered = service
        .register_at(&control, registration(&session, "display-a"), now)
        .unwrap();
    assert!(matches!(
        service.heartbeat_at("display-a", &registered.lease_token, now + 2_000),
        Err(DisplaySessionError::LeaseExpired)
    ));
    let facts = service
        .display_view_input_at(&control, "display-a", now + 2_000)
        .unwrap();
    assert!(!facts.instance.unwrap().online);
}

#[test]
fn live_listing_is_sorted_and_omits_expired_leases() {
    let (control, session) = seeded("item-a", "media", "display-a");
    let mut service = DisplaySessionService::new(1_000);
    service
        .register_at(&control, registration(&session, "display-c"), NOW)
        .unwrap();
    service
        .register_at(&control, registration(&session, "display-a"), NOW + 500)
        .unwrap();
    service
        .register_at(&control, registration(&session, "display-b"), NOW + 900)
        .unwrap();
    let listed: Vec<String> = service
        .live_displays_at(NOW + 999)
        .into_iter()
        .map(|view| view.display_id)
        .collect();
    assert_eq!(listed, vec!["display-a", "display-b", "display-c"]);
    let later: Vec<String> = service
        .live_displays_at(NOW + 1_200)
        .into_iter()
        .map(|view| view.display_id)
        .collect();
    assert_eq!(later, vec!["display-a", "display-b"]);
    assert!(service.live_displays_at(NOW + 5_000).is_empty());
}
