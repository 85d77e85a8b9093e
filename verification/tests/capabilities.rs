use media_gateway::capabilities::{
    issue_path, issue_path_at, subtitle_track_view, CapabilityError, CapabilityStore,
    ResolvedSubtitle,
};
use media_gateway::delivery::{StreamProtocol, UpstreamResource};
use media_gateway::gateway::{Binding, GatewayError};
use media_gateway::security::{EgressScope, UrlParts};

fn subtitle(url: &str, content_type: &str, headers: Vec<(String, String)>) -> ResolvedSubtitle {
    ResolvedSubtitle {
        id: "english".into(),
        url: UrlParts::parse(url).unwrap(),
        content_type: content_type.into(),
        language: Some("en".into()),
        label: Some("English".into()),
        public_headers: headers,
        upstream_access_ref: Some("server-only-ref".into()),
    }
}

fn resource() -> UpstreamResource {
    UpstreamResource {
        url: UrlParts::parse("https://media.example.test/a.mp4").unwrap(),
        protocol: StreamProtocol::HttpFile,
        public_headers: Vec::new(),
        secret_headers: Vec::new(),
        egress_scope: EgressScope::PublicWeb,
    }
}

#[test]
fn subtitle_view_issues_only_an_opaque_gateway_path() {
    let mut store = CapabilityStore::new(8);
    let view = subtitle_track_view(
        &mut store,
        subtitle("https://example.test/captions.vtt", "text/vtt", Vec::new()),
        Binding::new("session", "item", 1, "english"),
        EgressScope::PublicWeb,
        30_000,
    )
    .unwrap()
    .unwrap();
    assert_eq!(view.format, "webvtt");
    assert!(view.gateway_path.starts_with("/stream/"));
    assert!(!view.gateway_path.contains("example.test"));
    assert!(!view.gateway_path.contains("server-only-ref"));
    assert_eq!(store.len(), 1);
}

#[test]
fn subtitle_view_rejects_unsupported_content_and_secret_headers() {
    let mut store = CapabilityStore::new(8);
    assert!(matches!(
        subtitle_track_view(
            &mut store,
            subtitle("https://example.test/captions.srt", "text/srt", Vec::new()),
            Binding::new("session", "item", 1, "bad"),
            EgressScope::PublicWeb,
            30_000,
        ),
        Err(GatewayError::UnsupportedSubtitleContentType)
    ));
    assert!(matches!(
        subtitle_track_view(
            &mut store,
            subtitle(
                "https://example.test/captions.srt",
                "text/vtt",
                vec![("Authorization".into(), "Bearer fixture-secret".into())]
            ),
            Binding::new("session", "item", 1, "bad"),
            EgressScope::PublicWeb,
            30_000,
        ),
        Err(GatewayError::SecretHeader)
    ));
    assert!(matches!(
        subtitle_track_view(
            &mut store,
            subtitle("file:///captions.vtt", "TEXT/VTT", Vec::new()),
            Binding::new("session", "item", 1, "bad"),
            EgressScope::PublicWeb,
            30_000,
        ),
        Err(GatewayError::InvalidSubtitle)
    ));
    assert_eq!(store.len(), 0);
}

#[test]
fn capabilities_are_bound_expire_and_are_evicted_oldest_first() {
    let mut store = CapabilityStore::new(2);
    let binding = Binding::new("session", "item", 1, "primary");
    let path = issue_path_at(&mut store, binding.clone(), resource(), 1_000, 10_000, "tok-a".into())
        .unwrap();
    assert_eq!(path, "/stream/tok-a/session/item/1/primary");
    assert_eq!(store.check_at("tok-a", &binding, 10_500), Ok(()));
    assert_eq!(
        store.check_at("tok-a", &Binding::new("session", "item", 2, "primary"), 10_500),
        Err(CapabilityError::BindingMismatch)
    );
    assert_eq!(store.check_at("tok-x", &binding, 10_500), Err(CapabilityError::NotFound));
    assert_eq!(
        store.record("tok-a").unwrap().resource.url.as_str(),
        "https://media.example.test/a.mp4"
    );
    issue_path_at(&mut store, binding.clone(), resource(), 5_000, 10_600, "tok-b".into()).unwrap();
    issue_path_at(&mut store, binding.clone(), resource(), 5_000, 10_700, "tok-c".into()).unwrap();
    assert_eq!(store.len(), 2);
    assert_eq!(store.check_at("tok-a", &binding, 10_800), Err(CapabilityError::NotFound));
    assert_eq!(store.check_at("tok-b", &binding, 10_800), Ok(()));
    assert_eq!(store.check_at("tok-b", &binding, 15_600), Err(CapabilityError::Expired));
    assert_eq!(store.check_at("tok-b", &binding, 15_600), Err(CapabilityError::NotFound));
    store.revoke("tok-c");
    assert_eq!(store.len(), 0);
    assert!(issue_path(&mut store, binding, resource(), 60_000).is_some());
    assert_eq!(store.max_entries(), 2);
}
