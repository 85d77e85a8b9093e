use media_gateway::browser::{
    BrowserCommand, BrowserEvent, BrowserEventKind, BrowserInput, BrowserNavigationRequest,
    BrowserOperationId, ProfileAttachmentRef, BROWSER_EVENT_VERSION,
};
use media_gateway::security::UrlParts;

#[test]
fn debug_does_not_expose_sensitive_input_or_command_payloads() {
    let sentinel = "verification-code-sentinel-93a1";
    let input = BrowserInput::Text {
        value: sentinel.into(),
    };
    let command = BrowserCommand::Input {
        input: input.clone(),
    };
    assert!(!input.debug_string().contains(sentinel));
    assert!(!command.debug_string().contains(sentinel));

    let profile = ProfileAttachmentRef::from_vault_issued("vault/cookie-db-sentinel");
    let attach = BrowserCommand::AttachProfile { profile };
    assert!(!attach.debug_string().contains("cookie-db-sentinel"));

    let request = BrowserNavigationRequest::new(
        UrlParts::parse("https://1.1.1.1/video?token=url-secret-sentinel").unwrap(),
    );
    let navigate = BrowserCommand::Navigate { request };
    assert!(!navigate.debug_string().contains("url-secret-sentinel"));
    assert!(navigate.debug_string().contains("https://1.1.1.1/video"));
}

#[test]
fn debug_does_not_expose_sensitive_event_navigation_urls() {
    let sentinel = "event-secret-sentinel-7c42";
    let started = BrowserEvent {
        version: BROWSER_EVENT_VERSION,
        sequence: 1,
        kind: BrowserEventKind::NavigationStarted {
            url: UrlParts::parse(&format!("https://example.test/watch?token={sentinel}#fragment"))
                .unwrap(),
        },
    };
    let changed = BrowserEvent {
        version: BROWSER_EVENT_VERSION,
        sequence: 2,
        kind: BrowserEventKind::NavigationChanged {
            url: UrlParts::parse(&format!("https://example.test/watch?token={sentinel}#fragment"))
                .unwrap(),
            title: Some("event-title-sentinel".into()),
        },
    };
    let diagnostics = format!("{} {}", started.debug_string(), changed.debug_string());
    assert!(!diagnostics.contains(sentinel));
    assert!(!diagnostics.contains("event-title-sentinel"));
    assert!(diagnostics.contains("https://example.test/watch"));
    assert!(diagnostics.contains("[REDACTED]"));
}

#[test]
fn event_projection_contains_only_generic_names() {
    let event = BrowserEvent {
        version: 1,
        sequence: 1,
        kind: BrowserEventKind::Ready,
    };
    assert_eq!(event.kind.name(), "ready");
    assert_eq!(
        event.debug_string(),
        "BrowserEvent { version: 1, sequence: 1, kind: BrowserEventKind::Ready }"
    );
}

#[test]
fn command_diagnostics_name_operations_without_payloads() {
    let request = BrowserNavigationRequest::with_operation_id(
        BrowserOperationId(42),
        UrlParts::parse("https://example.test/a?b=c").unwrap(),
    );
    assert_eq!(request.operation_id(), BrowserOperationId(42));
    assert_eq!(
        request.debug_string(),
        "BrowserNavigationRequest { operation_id: 42, url: https://example.test/a }"
    );
    assert_eq!(
        BrowserCommand::PollEvents { after_sequence: 7 }.debug_string(),
        "BrowserCommand::PollEvents { after_sequence: 7 }"
    );
    assert_eq!(
        BrowserCommand::Cancel {
            operation_id: BrowserOperationId(3)
        }
        .debug_string(),
        "BrowserCommand::Cancel { operation_id: 3 }"
    );
    assert_eq!(BrowserCommand::Close.debug_string(), "BrowserCommand::Close");
}

#[test]
fn chromium_command_line_is_structured_with_loopback_debugging() {
    let command = media_gateway::browser::chromium_command("chromium", 9222, "/tmp/profile-a");
    let argv = command.argv();
    assert_eq!(argv.len(), 18);
    assert_eq!(argv[0], "chromium");
    assert_eq!(argv[1], "--headless=new");
    assert_eq!(argv[13], "--remote-debugging-address=127.0.0.1");
    assert_eq!(argv[15], "--remote-debugging-port=9222");
    assert_eq!(argv[16], "--user-data-dir=/tmp/profile-a");
    assert_eq!(argv[17], "about:blank");
}
