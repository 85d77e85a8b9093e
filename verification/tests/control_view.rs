use media_gateway::auth::AccountState;
use media_gateway::browser::{BrowserError, BrowserStatus};
use media_gateway::control::{
    ControlDisplaySnapshot, ControlHandoffSnapshot, ControlItemSnapshot, ControlSnapshot,
};
use media_gateway::control_view::{
    ActionRequiredKind, BrowserViewInput, ControlView, ControlViewInput, NativePanelInput,
    NativePanelStatus, PendingActionView, PendingIntentInput, SiteViewInput,
};
use media_gateway::display_adapter::{DisplayAdapterError, DisplayInstance};
use media_gateway::display_session::DisplayViewInput;

fn playback(state: &str) -> ControlSnapshot {
    ControlSnapshot {
        session_id: "session-1".into(),
        session_revision: 9,
        state: match state {
            "playing" => "playing",
            "paused" => "paused",
            "stopped" => "stopped",
            _ => panic!("invalid test state"),
        },
        current_item: ControlItemSnapshot {
            item_id: "item-1".into(),
            item_revision: 4,
            media_generation: 2,
        },
        position_ms: 12_000,
        telemetry_sequence: 7,
        active_display: ControlDisplaySnapshot {
            display_id: "display-1".into(),
            generation: 6,
        },
        handoff: None,
    }
}

fn base_input() -> ControlViewInput {
    let mut input = ControlViewInput::new(playback("playing"));
    input.site = SiteViewInput {
        site_id: Some("site-a".into()),
        label: Some("Source A".into()),
        account_ref: Some("account-a".into()),
        account_state: Some(AccountState::Valid),
        pending_intent: None,
    };
    input.browser = BrowserViewInput {
        sequence: 11,
        status: Some(BrowserStatus::Open),
        error: None,
        panel: NativePanelInput {
            available: true,
            error: None,
            capabilities: vec!["search".into()],
        },
    };
    input.display = DisplayViewInput {
        instance: Some(DisplayInstance {
            id: "display-1".into(),
            adapter_type: "generic-adapter".into(),
            label: "Living room".into(),
            online: true,
            capabilities: vec!["pause".into()],
        }),
        status: None,
        error: None,
    };
    input.event_cursor = Some(20);
    input
}

#[test]
fn projection_is_read_only_safe_and_preserves_domain_freshness() {
    let view = ControlView::project(base_input());
    assert_eq!(view.now_playing.item_id, "item-1");
    assert!(view.playback_controls.can_pause);
    assert!(!view.playback_controls.can_play);
    assert_eq!(view.freshness.playback.session_revision, 9);
    assert_eq!(view.freshness.playback.item_revision, 4);
    assert_eq!(view.freshness.playback.media_generation, 2);
    assert_eq!(view.freshness.event_cursor, Some(20));
    let rendered = format!("{view:?}");
    assert!(!rendered.contains("resolved_media"));
    assert!(!rendered.contains("control_revision"));
}

#[test]
fn action_precedence_is_deterministic_and_does_not_reset_playback() {
    let mut input = base_input();
    input.site.account_state = Some(AccountState::LoginRequired);
    input.browser.status = Some(BrowserStatus::Crashed);
    input.browser.panel.error = Some(BrowserError::PanelDisconnected);
    input.display.instance.as_mut().unwrap().online = false;
    input.display.error = Some(DisplayAdapterError::ServerUnavailable);
    input.playback = playback("playing");
    let view = ControlView::project(input);
    assert_eq!(
        view.action_required.unwrap().kind,
        ActionRequiredKind::SiteAuthentication
    );
    assert_eq!(view.now_playing.state, "playing");
    assert_eq!(view.now_playing.position_ms, 12_000);
}

#[test]
fn independent_failures_keep_unrelated_sections_available() {
    let mut input = base_input();
    input.browser.status = Some(BrowserStatus::Crashed);
    input.browser.error = Some(BrowserError::WorkerCrashed);
    input.browser.panel = NativePanelInput {
        available: false,
        error: Some(BrowserError::WorkerCrashed),
        capabilities: Vec::new(),
    };
    let browser_failed = ControlView::project(input.clone());
    assert_eq!(browser_failed.now_playing.state, "playing");
    assert!(browser_failed.playback_controls.can_pause);
    assert_eq!(browser_failed.active_display.display_id, "display-1");

    input.browser = BrowserViewInput::default();
    input.display.instance.as_mut().unwrap().online = false;
    input.display.error = Some(DisplayAdapterError::TargetOffline);
    let display_failed = ControlView::project(input);
    assert_eq!(display_failed.site.site_id.as_deref(), Some("site-a"));
    assert_eq!(
        display_failed.native_site_panel.status,
        NativePanelStatus::NotAttached
    );
    assert_eq!(display_failed.now_playing.item_id, "item-1");
}

#[test]
fn reconnect_rebuild_from_fresh_snapshots_is_equal_without_history() {
    let first = ControlView::project(base_input());
    let mut newer_input = base_input();
    newer_input.playback.session_revision = 10;
    newer_input.playback.position_ms = 13_000;
    newer_input.playback.telemetry_sequence = 8;
    newer_input.event_cursor = Some(21);
    let after_update = ControlView::project(newer_input.clone());
    let rebuilt = ControlView::project(newer_input);
    assert_ne!(first, after_update);
    assert_eq!(after_update, rebuilt);
    assert!(after_update.is_fresh_for(&first));
    assert!(!first.is_fresh_for(&after_update));
}

#[test]
fn pending_intent_and_sensitive_source_boundaries_are_redacted() {
    let mut input = base_input();
    input.site.account_state = Some(AccountState::LoginRequired);
    input.site.pending_intent = Some(PendingIntentInput {
        intent_id: "intent-1".into(),
        action: PendingActionView::Resume,
        expected_session_revision: Some(9),
        has_display_ref: true,
    });
    let view = ControlView::project(input);
    let rendered = format!("{view:?}");
    for sentinel in [
        "Cookie: secret-sentinel",
        "Bearer secret-sentinel",
        "https://cdn.invalid/signed?token=secret-sentinel",
        "password-secret-sentinel",
        "panel-token-secret-sentinel",
    ] {
        assert!(!rendered.contains(sentinel));
    }
    assert!(!format!("{view:?}").contains("secret-sentinel"));
}

#[test]
fn handoff_is_projected_as_domain_state_and_controls_are_derived() {
    let mut input = base_input();
    input.playback.handoff = Some(ControlHandoffSnapshot {
        transition_id: 2,
        item_id: "item-1".into(),
        item_revision: 4,
        from_display_id: "display-1".into(),
        from_generation: 6,
        target_display_id: "display-2".into(),
        candidate_generation: 7,
        candidate_position_ms: Some(10_000),
    });
    let view = ControlView::project(input);
    assert!(!view.playback_controls.can_handoff);
    assert_eq!(view.action_required.unwrap().code, "HANDOFF_PENDING");
    assert_eq!(view.playback_context.handoff.unwrap().transition_id, 2);
}
