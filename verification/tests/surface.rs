use media_gateway::auth_api::{bounded_ref, bounded_text, InputDto, MAX_CANDIDATE_REF};
use media_gateway::browser::{
    BrowserError, BrowserInput, InputKind, PanelControlToken, PanelFeature, PanelPermissions,
    PointerButton, ProfileAttachmentRef,
};
use media_gateway::gateway::{
    egress_error_code, escape_html_attribute, parse_single_range, sanitize_text, stream_path,
    valid_control_selector, Binding,
};
use media_gateway::security::EgressPolicyError;

#[test]
fn dto_conversion_never_accepts_secret_like_reference() {
    assert!(!bounded_ref("cookie-session", MAX_CANDIDATE_REF));
    assert!(!bounded_ref("Bearer-token", MAX_CANDIDATE_REF));
    assert!(bounded_ref("candidate-1", MAX_CANDIDATE_REF));
}

#[test]
fn debug_does_not_expose_profile_or_panel_token() {
    let profile = ProfileAttachmentRef::from_vault_issued("vault/path/cookie.sqlite");
    assert!(!profile.debug_string().contains("cookie.sqlite"));
    let token = PanelControlToken::from_issued("fixture-panel-token");
    assert!(!token.debug_string().contains("fixture-panel-token"));
}

#[test]
fn single_range_parser_rejects_multi_range() {
    assert_eq!(parse_single_range("bytes=2-5", 10), Some((2, 5)));
    assert_eq!(parse_single_range("bytes=2-", 10), Some((2, 9)));
    assert_eq!(parse_single_range("bytes=0-1,4-5", 10), None);
}

#[test]
fn single_range_parser_clamps_and_refuses_out_of_range() {
    assert_eq!(parse_single_range("bytes=2-50", 10), Some((2, 9)));
    assert_eq!(parse_single_range("bytes=+3-4", 10), Some((3, 4)));
    assert_eq!(parse_single_range("bytes=10-", 10), None);
    assert_eq!(parse_single_range("bytes=5-2", 10), None);
    assert_eq!(parse_single_range("bytes=-5", 10), None);
    assert_eq!(parse_single_range("items=1-2", 10), None);
    assert_eq!(parse_single_range("bytes=1", 10), None);
    assert_eq!(parse_single_range("bytes=99999999999999999999999-", 10), None);
}

#[test]
fn bounded_text_refuses_empty_long_and_control_text() {
    assert!(bounded_text("ok", 2));
    assert!(!bounded_text("", 2));
    assert!(!bounded_text("abc", 2));
    assert!(!bounded_text("a\u{7}", 8));
}

#[test]
fn input_dto_accepts_only_bounded_input() {
    let accepted = InputDto::Pointer { x: -10_000, y: 10_000, button: "primary".into() }
        .into_input();
    assert!(
        accepted
            == Ok(BrowserInput::Pointer { x: -10_000, y: 10_000, button: PointerButton::Primary })
    );
    let refused = match (InputDto::Pointer { x: 10_001, y: 0, button: "primary".into() })
        .into_input()
    {
        Err(e) => e,
        Ok(_) => panic!("pointer outside the range was accepted"),
    };
    assert_eq!(refused.code, "AUTH_INPUT_INVALID");
    assert_eq!(refused.status, 400);
    assert!(InputDto::Pointer { x: 0, y: 0, button: "middle".into() }
        .into_input()
        .is_err());
    assert!(InputDto::Key { key: String::new() }.into_input().is_err());
    assert!(matches!(
        InputDto::Text { value: "code".into() }.into_input().map(|i| i.kind()),
        Ok(InputKind::Text)
    ));
    assert!(InputDto::Submit.into_input() == Ok(BrowserInput::Submit));
}

#[test]
fn browser_input_diagnostics_redact_typed_values() {
    let sentinel = "verification-code-sentinel-93a1";
    let input = BrowserInput::Text { value: sentinel.into() };
    assert!(!input.debug_string().contains(sentinel));
    let key = BrowserInput::Key { key: sentinel.into() };
    assert!(!key.debug_string().contains(sentinel));
    let pointer = BrowserInput::Pointer { x: -3, y: 4, button: PointerButton::Secondary };
    assert_eq!(
        pointer.debug_string(),
        "BrowserInput::Pointer { x: -3, y: 4, button: Secondary }"
    );
}

#[test]
fn panel_permissions_deny_every_feature_and_errors_have_codes() {
    for feature in [PanelFeature::Clipboard, PanelFeature::FileUpload, PanelFeature::Audio] {
        assert!(!PanelPermissions.allows(feature));
    }
    assert_eq!(BrowserError::PanelDisconnected.code(), "PANEL_DISCONNECTED");
    assert_eq!(BrowserError::InvalidInput.code(), "INVALID_INPUT");
}

#[test]
fn stream_paths_carry_token_and_binding_only() {
    let binding = Binding::new("session", "item", 7, "english");
    assert_eq!(
        stream_path("tok", &binding),
        "/stream/tok/session/item/7/english"
    );
}

#[test]
fn html_attribute_escaping_is_complete() {
    assert_eq!(
        escape_html_attribute("a&\"<b>"),
        "a&amp;&quot;&lt;b&gt;"
    );
    assert_eq!(escape_html_attribute("plain"), "plain");
}

#[test]
fn control_selectors_are_bounded_identifiers() {
    assert!(valid_control_selector("s-1:abc_DEF.9"));
    assert!(!valid_control_selector(""));
    assert!(!valid_control_selector("has space"));
    assert!(!valid_control_selector(&"a".repeat(129)));
    assert!(valid_control_selector(&"a".repeat(128)));
}

#[test]
fn probe_text_is_sanitised_bounded_and_redacted() {
    assert_eq!(
        sanitize_text("Cookie Bearer secret", 256),
        "[redacted-header] [redacted] secret"
    );
    assert_eq!(sanitize_text("Authorization: Bearer abc def", 256), "Authorization: Bearer [redacted] def");
    assert_eq!(sanitize_text("  a\tb  ", 256), "a b");
    assert_eq!(sanitize_text("abc\u{1}def", 4), "abcd");
    assert_eq!(sanitize_text("cookie: x y", 256), "[redacted-header] [redacted] y");
}

#[test]
fn egress_errors_have_stable_codes() {
    assert_eq!(egress_error_code(EgressPolicyError::DnsLookupFailed), "EGRESS_DNS_FAILED");
    assert_eq!(
        egress_error_code(EgressPolicyError::LocalServiceOriginMismatch),
        "EGRESS_TARGET_REJECTED"
    );
    assert_eq!(egress_error_code(EgressPolicyError::InvalidScheme), "EGRESS_SCHEME_REJECTED");
}
