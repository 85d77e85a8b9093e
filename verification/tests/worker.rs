use media_gateway::browser::{
    cdp_event_step, pointer_button, CdpAction, CdpEvent, status_error, BrowserAuthMode, BrowserError, BrowserEventKind, BrowserInput,
    BrowserNavigationRequest, BrowserSession, BrowserStatus, PanelFeature, PointerButton,
    ProfileAttachmentRef, R008NavigationPolicy, BROWSER_EVENT_VERSION,
};
use media_gateway::security::{EgressPolicy, IpAddress, SocketAddress, UrlParts};
use media_gateway::worker::FakeBrowserWorker;

fn policy() -> R008NavigationPolicy {
    R008NavigationPolicy::public_web(EgressPolicy::new())
}

fn session(worker: &mut FakeBrowserWorker) -> BrowserSession {
    worker.open_session(BrowserAuthMode::Passive)
}

fn url(value: &str) -> UrlParts {
    UrlParts::parse(value).unwrap()
}

/// What resolving an IPv4 literal host gives: that address, at the URL's
/// port or its scheme's default.
fn resolved(target: &UrlParts) -> Vec<SocketAddress> {
    let Some(host) = target.host_str() else {
        return Vec::new();
    };
    let Some(port) = target.port_or_known_default() else {
        return Vec::new();
    };
    let octets: Vec<u8> = host.split('.').filter_map(|part| part.parse().ok()).collect();
    if octets.len() != 4 {
        return Vec::new();
    }
    vec![SocketAddress {
        ip: IpAddress::V4([octets[0], octets[1], octets[2], octets[3]]),
        port,
    }]
}

fn navigate(
    worker: &mut FakeBrowserWorker,
    session: &BrowserSession,
    target: &str,
    policy: &R008NavigationPolicy,
) -> Result<(), BrowserError> {
    let parsed = url(target);
    let addresses = resolved(&parsed);
    worker.navigate(session.id(), BrowserNavigationRequest::new(parsed), policy, addresses)
}

#[test]
fn fake_worker_has_deterministic_generic_lifecycle_and_ordering() {
    let mut worker = FakeBrowserWorker::new();
    let session = session(&mut worker);
    let profile = worker.issue_profile_attachment(30_000);
    worker.attach_profile(session.id(), profile).unwrap();
    navigate(&mut worker, &session, "https://1.1.1.1/video", &policy()).unwrap();
    worker
        .send_input(
            session.id(),
            BrowserInput::Text {
                value: "password-sentinel-7f3e".into(),
            },
        )
        .unwrap();
    worker.close(session.id()).unwrap();

    let events = worker.poll_events(session.id(), 0).unwrap();
    let rendered: Vec<String> = events.iter().map(|event| event.debug_string()).collect();
    assert!(!rendered.concat().contains("password-sentinel-7f3e"));
    assert_eq!(events.first().unwrap().version, BROWSER_EVENT_VERSION);
    assert!(matches!(
        events[0].kind,
        BrowserEventKind::WorkerOpened { .. }
    ));
    assert!(
        events
            .windows(2)
            .all(|pair| pair[0].sequence < pair[1].sequence)
    );
    assert!(
        events
            .iter()
            .any(|event| matches!(event.kind, BrowserEventKind::Ready))
    );
    assert!(
        events
            .iter()
            .any(|event| matches!(event.kind, BrowserEventKind::WorkerClosed))
    );
}

#[test]
fn profile_refs_are_opaque_and_expiry_is_rejected_and_cleaned() {
    let mut worker = FakeBrowserWorker::new();
    let session = session(&mut worker);
    let expired = worker.issue_profile_attachment(0);
    assert_eq!(worker.profile_count(), 1);
    assert_eq!(
        worker.attach_profile(session.id(), expired),
        Err(BrowserError::SessionExpired)
    );
    assert_eq!(worker.profile_count(), 0);
    let missing = ProfileAttachmentRef::from_vault_issued("not-a-vault-path");
    assert_eq!(
        worker.attach_profile(session.id(), missing),
        Err(BrowserError::ProfileAttachFailed)
    );
}

#[test]
fn navigation_uses_r008_policy_and_denies_local_file_and_private_targets() {
    let mut worker = FakeBrowserWorker::new();
    let session = session(&mut worker);
    let r008 = policy();
    for target in [
        "file:///etc/passwd",
        "http://127.0.0.1:8080/",
        "http://169.254.169.254/latest",
    ] {
        let result = navigate(&mut worker, &session, target, &r008);
        assert_eq!(result, Err(BrowserError::NavigationDenied), "{target}");
    }
    let events = worker.poll_events(session.id(), 0).unwrap();
    assert!(
        !events
            .iter()
            .any(|event| matches!(event.kind, BrowserEventKind::NavigationStarted { .. }))
    );
}

#[test]
fn configured_local_service_is_explicit_and_not_user_selectable() {
    let mut worker = FakeBrowserWorker::new();
    let session = session(&mut worker);
    let mut egress = EgressPolicy::new();
    egress
        .configure_local_service("configured-test-service", &url("http://127.0.0.1:8096/"))
        .unwrap();
    let mut second = EgressPolicy::new();
    second
        .configure_local_service("configured-test-service", &url("http://127.0.0.1:8096/"))
        .unwrap();
    let public = R008NavigationPolicy::public_web(second);
    let trusted_local =
        R008NavigationPolicy::configured_local_service(egress, "configured-test-service");
    assert!(
        navigate(&mut worker, &session, "http://127.0.0.1:8096/health", &trusted_local).is_ok()
    );
    assert_eq!(
        navigate(&mut worker, &session, "http://127.0.0.1:8096/health", &public),
        Err(BrowserError::NavigationDenied)
    );
}

#[test]
fn cancel_crash_timeout_and_close_have_explicit_outcomes_and_cleanup() {
    let mut worker = FakeBrowserWorker::new();
    let first = session(&mut worker);
    let target = url("https://1.1.1.1/cancel");
    let addresses = resolved(&target);
    let request = BrowserNavigationRequest::new(target);
    worker.cancel(first.id(), request.operation_id()).unwrap();
    assert_eq!(
        worker.navigate(first.id(), request, &policy(), addresses),
        Err(BrowserError::OperationCancelled)
    );
    worker.crash(first.id()).unwrap();
    assert_eq!(worker.status(first.id()), Ok(BrowserStatus::Crashed));
    assert_eq!(
        worker.send_input(first.id(), BrowserInput::Submit),
        Err(BrowserError::WorkerCrashed)
    );

    let second = session(&mut worker);
    worker.timeout(second.id()).unwrap();
    assert_eq!(worker.status(second.id()), Ok(BrowserStatus::TimedOut));
    assert_eq!(worker.close(second.id()), Err(BrowserError::WorkerTimeout));
}

#[test]
fn panel_is_bound_short_lived_reconnectable_and_deny_by_default() {
    let mut worker = FakeBrowserWorker::new();
    let session = session(&mut worker);
    let panel = worker.open_panel(session.id(), 30_000).unwrap();
    assert!(!panel.permissions().allows(PanelFeature::Clipboard));
    assert!(!panel.permissions().allows(PanelFeature::FileUpload));
    assert!(!panel.permissions().allows(PanelFeature::Audio));
    worker
        .panel_control(
            &panel,
            BrowserInput::Pointer {
                x: 10,
                y: 20,
                button: PointerButton::Primary,
            },
        )
        .unwrap();
    worker.disconnect_panel(&panel).unwrap();
    assert_eq!(
        worker.panel_control(&panel, BrowserInput::Submit),
        Err(BrowserError::PanelDisconnected)
    );
    let reconnected = worker.reconnect_panel(&panel, 30_000).unwrap();
    assert_eq!(
        worker.panel_control(&panel, BrowserInput::Submit),
        Err(BrowserError::SessionExpired)
    );
    worker
        .panel_control(&reconnected, BrowserInput::Submit)
        .unwrap();
}

#[test]
fn panel_expiry_and_worker_failure_disconnect_and_cleanup() {
    let mut worker = FakeBrowserWorker::new();
    let session = session(&mut worker);
    let expired = worker.open_panel(session.id(), 0).unwrap();
    assert_eq!(
        worker.panel_control(&expired, BrowserInput::Submit),
        Err(BrowserError::SessionExpired)
    );
    assert_eq!(worker.panel_count(), 0);

    let panel = worker.open_panel(session.id(), 30_000).unwrap();
    worker.timeout(session.id()).unwrap();
    assert_eq!(
        worker.panel_control(&panel, BrowserInput::Submit),
        Err(BrowserError::PanelDisconnected)
    );
}

#[test]
fn two_sessions_are_isolated() {
    let mut worker = FakeBrowserWorker::new();
    let one = session(&mut worker);
    let two = session(&mut worker);
    let profile = worker.issue_profile_attachment(30_000);
    worker.attach_profile(one.id(), profile).unwrap();
    assert_eq!(worker.detach_profile(two.id()), Ok(()));
    let one_events = worker.poll_events(one.id(), 0).unwrap();
    let two_events = worker.poll_events(two.id(), 0).unwrap();
    assert!(
        one_events
            .iter()
            .any(|event| matches!(event.kind, BrowserEventKind::ProfileAttached))
    );
    assert!(
        !two_events
            .iter()
            .any(|event| matches!(event.kind, BrowserEventKind::ProfileAttached))
    );
}

#[test]
fn events_are_numbered_from_one_and_polled_after_a_cursor() {
    let mut worker = FakeBrowserWorker::new();
    let session = session(&mut worker);
    navigate(&mut worker, &session, "https://1.1.1.1/a", &policy()).unwrap();
    let all = worker.poll_events(session.id(), 0).unwrap();
    let sequences: Vec<u64> = all.iter().map(|event| event.sequence).collect();
    assert_eq!(sequences, vec![1, 2, 3, 4, 5]);
    let names: Vec<&str> = all.iter().map(|event| event.kind.name()).collect();
    assert_eq!(
        names,
        vec!["worker_opened", "navigation_started", "loading", "navigation_changed", "ready"]
    );
    let later = worker.poll_events(session.id(), 3).unwrap();
    assert_eq!(later.iter().map(|event| event.sequence).collect::<Vec<_>>(), vec![4, 5]);
    assert!(worker.poll_events(session.id(), 9).unwrap().is_empty());
}

#[test]
fn input_is_reported_by_kind_only() {
    let mut worker = FakeBrowserWorker::new();
    let session = session(&mut worker);
    worker
        .send_input(session.id(), BrowserInput::Key { key: "k-sentinel".into() })
        .unwrap();
    let events = worker.poll_events(session.id(), 1).unwrap();
    assert_eq!(events.len(), 2);
    assert_eq!(
        events[0].kind.debug_string(),
        "BrowserEventKind::InputAccepted { kind: Key }"
    );
    assert_eq!(
        events[1].kind.debug_string(),
        "BrowserEventKind::InputResult { kind: Key, accepted: true }"
    );
}

#[test]
fn refused_navigation_is_reported_and_unknown_sessions_are_invalid() {
    let mut worker = FakeBrowserWorker::new();
    let session = session(&mut worker);
    assert_eq!(
        navigate(&mut worker, &session, "http://10.0.0.1/", &policy()),
        Err(BrowserError::NavigationDenied)
    );
    let events = worker.poll_events(session.id(), 1).unwrap();
    assert_eq!(events.len(), 1);
    assert_eq!(events[0].kind.name(), "network_denied");

    let mut other = FakeBrowserWorker::new();
    let stranger = other.open_session(BrowserAuthMode::Interactive);
    assert_eq!(worker.status(stranger.id()), Err(BrowserError::InvalidSession));
    assert_eq!(worker.poll_events(stranger.id(), 0).err(), Some(BrowserError::InvalidSession));
    assert_eq!(
        worker.detach_profile(stranger.id()),
        Err(BrowserError::InvalidSession)
    );
    assert_eq!(
        worker.open_panel(stranger.id(), 1_000).err(),
        Some(BrowserError::InvalidSession)
    );
}

#[test]
fn cleanup_drops_expired_profiles_and_panels_only() {
    let mut worker = FakeBrowserWorker::new();
    let session = session(&mut worker);
    worker.issue_profile_attachment_at(1_000, 500);
    worker.issue_profile_attachment_at(1_000, 5_000);
    worker.open_panel_at(1_000, session.id(), 100).unwrap();
    worker.open_panel_at(1_000, session.id(), 10_000).unwrap();
    assert_eq!(worker.cleanup_expired_at(2_000), 2);
    assert_eq!(worker.profile_count(), 1);
    assert_eq!(worker.panel_count(), 1);
    assert_eq!(worker.cleanup_expired_at(2_000), 0);
}

#[test]
fn panel_with_a_wrong_token_is_refused_and_expiry_is_checked_at_the_given_time() {
    let mut worker = FakeBrowserWorker::new();
    let session = session(&mut worker);
    let panel = worker.open_panel_at(1_000, session.id(), 1_000).unwrap();
    assert_eq!(worker.panel_control_at(1_500, &panel, BrowserInput::Submit), Ok(()));
    assert_eq!(
        worker.panel_control_at(2_000, &panel, BrowserInput::Submit),
        Err(BrowserError::SessionExpired)
    );
    assert_eq!(worker.panel_count(), 0);
}

#[test]
fn status_errors_and_pointer_buttons_have_fixed_names() {
    assert_eq!(status_error(BrowserStatus::Closed), BrowserError::SessionClosed);
    assert_eq!(status_error(BrowserStatus::Crashed), BrowserError::WorkerCrashed);
    assert_eq!(status_error(BrowserStatus::TimedOut), BrowserError::WorkerTimeout);
    assert_eq!(status_error(BrowserStatus::Open), BrowserError::WorkerUnavailable);
    assert_eq!(pointer_button(PointerButton::Primary), "left");
    assert_eq!(pointer_button(PointerButton::Secondary), "right");
    assert_eq!(pointer_button(PointerButton::Auxiliary), "middle");
}

#[test]
fn devtools_events_are_answered_by_the_navigation_policy() {
    let allowed_url = url("https://1.1.1.1/a");
    let step = cdp_event_step(
        CdpEvent::RequestPaused { request_id: "r1".into(), url: Some("https://1.1.1.1/a".into()) },
        &policy(),
        resolved(&allowed_url),
    );
    assert!(matches!(&step.action, CdpAction::ContinueRequest(id) if id == "r1"));
    assert!(step.event.is_none());
    assert_eq!(step.result, Ok(false));

    let private_url = url("http://127.0.0.1/");
    let step = cdp_event_step(
        CdpEvent::RequestPaused { request_id: "r2".into(), url: Some("http://127.0.0.1/".into()) },
        &policy(),
        resolved(&private_url),
    );
    assert!(matches!(&step.action, CdpAction::FailRequest(id) if id == "r2"));
    assert_eq!(step.event.as_ref().map(|kind| kind.name()), Some("network_denied"));
    assert_eq!(step.result, Err(BrowserError::NavigationDenied));

    let step = cdp_event_step(
        CdpEvent::RequestPaused { request_id: "r3".into(), url: None },
        &policy(),
        Vec::new(),
    );
    assert!(matches!(&step.action, CdpAction::FailRequest(id) if id == "r3"));

    let step = cdp_event_step(
        CdpEvent::FrameNavigated {
            url: Some("https://site.test/watch?x=1".into()),
            title: Some("Title".into()),
        },
        &policy(),
        Vec::new(),
    );
    assert!(matches!(step.action, CdpAction::Nothing));
    assert!(matches!(
        &step.event,
        Some(BrowserEventKind::NavigationChanged { url, title: Some(t) })
            if url.as_str() == "https://site.test/watch?x=1" && t == "Title"
    ));
    let step = cdp_event_step(
        CdpEvent::FrameNavigated { url: Some("not a url".into()), title: None },
        &policy(),
        Vec::new(),
    );
    assert!(step.event.is_none());

    let step = cdp_event_step(CdpEvent::LoadEventFired, &policy(), Vec::new());
    assert_eq!(step.event.as_ref().map(|kind| kind.name()), Some("ready"));
    assert_eq!(step.result, Ok(true));
    let step = cdp_event_step(CdpEvent::Other, &policy(), Vec::new());
    assert!(step.event.is_none() && matches!(step.action, CdpAction::Nothing));
    assert_eq!(step.result, Ok(false));
}
