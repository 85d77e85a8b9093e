use media_gateway::control::{ControlCommand, ControlCommandRequest, ControlService};
use media_gateway::delivery::{
    assign_input_tracks, resource_from_resolved, BrokerMaterialization, validate_request, DeliveryAuthority, DeliveryInputCapability,
    DeliveryRequest, HeaderEntry, HttpFileDeliveryBroker, MediaShapeV1, MediaTrack,
    MediaTrackKind, PlaybackDeliveryAuthority, ResolvedStream, StreamProtocol, UpstreamResource,
    MEDIA_SHAPE_VERSION,
};
use media_gateway::gateway::GatewayError;
use media_gateway::media::{
    ffmpeg_command, unix_seconds, DeliveryBinding, DeliveryError, DEFAULT_DELIVERY_TIMEOUT_MS,
    DEFAULT_DELIVERY_TTL_MS, MAX_DELIVERY_INPUT_BYTES, MAX_DELIVERY_OUTPUT_BYTES, MAX_DELIVERY_TIMEOUT_MS,
};
use media_gateway::outputs::{check_finished_output, MediaDeliverySupervisor};
use media_gateway::security::{EgressPolicy, EgressScope, UrlParts};

fn resource(protocol: StreamProtocol) -> UpstreamResource {
    UpstreamResource {
        url: UrlParts::parse("https://media.example.test/input").unwrap(),
        protocol,
        public_headers: Vec::new(),
        secret_headers: Vec::new(),
        egress_scope: EgressScope::PublicWeb,
    }
}

fn track(id: &str, kind: MediaTrackKind, container: &str, access_ref: &str, now: u64) -> MediaTrack {
    MediaTrack {
        id: id.into(),
        kind,
        group_id: Some("group-1".into()),
        protocol: StreamProtocol::HttpFile,
        codec: None,
        container: Some(container.into()),
        mime_type: None,
        width: None,
        height: None,
        bitrate: Some(1000),
        language: None,
        access_ref: Some(access_ref.into()),
        expires_at: Some(now + 60),
    }
}

fn request(now: u64) -> DeliveryRequest {
    let binding = DeliveryBinding::new("session-1", "item-1", 1, 4, 2, "group-1");
    let shape = MediaShapeV1 {
        version: MEDIA_SHAPE_VERSION,
        tracks: vec![
            track("video-1", MediaTrackKind::Video, "mp4", "video-ref", now),
            track("audio-1", MediaTrackKind::Audio, "m4a", "audio-ref", now),
        ],
    };
    let video_cap = DeliveryInputCapability::new_server_owned(
        "video-1".into(),
        "video-ref".into(),
        resource(StreamProtocol::HttpFile),
    )
    .ok()
    .unwrap();
    let audio_cap = DeliveryInputCapability::new_server_owned(
        "audio-1".into(),
        "audio-ref".into(),
        resource(StreamProtocol::HttpFile),
    )
    .ok()
    .unwrap();
    DeliveryRequest {
        binding,
        shape,
        inputs: vec![video_cap, audio_cap],
        timeout_ms: DEFAULT_DELIVERY_TIMEOUT_MS,
        output_ttl_ms: DEFAULT_DELIVERY_TTL_MS,
        max_output_bytes: MAX_DELIVERY_OUTPUT_BYTES,
    }
}

#[test]
fn validation_rejects_secret_refs_and_incomplete_groups() {
    assert!(DeliveryInputCapability::new_server_owned(
        "video-1".into(),
        "cookie-ref".into(),
        resource(StreamProtocol::HttpFile),
    )
    .is_err());
    let mut incomplete_request = request(unix_seconds());
    incomplete_request.shape.tracks.pop();
    assert_eq!(
        validate_request(&incomplete_request, unix_seconds()),
        Err(DeliveryError::IncompleteTrackGroup)
    );
    let mut dash_request = request(unix_seconds());
    dash_request.shape.tracks[0].protocol = StreamProtocol::Dash;
    assert_eq!(
        validate_request(&dash_request, unix_seconds()),
        Err(DeliveryError::UnsupportedShape)
    );
}

#[test]
fn ffmpeg_argv_whitelists_only_local_files_before_inputs() {
    let command = ffmpeg_command(
        "ffmpeg",
        "/workspace/video-input",
        "/workspace/audio-input",
        "/workspace/delivery.mp4",
        MAX_DELIVERY_OUTPUT_BYTES,
    );
    let args: Vec<String> = command.argv();
    let whitelists: Vec<usize> = args
        .iter()
        .enumerate()
        .filter_map(|(index, arg)| (arg == "-protocol_whitelist").then_some(index))
        .collect();
    let inputs: Vec<usize> = args
        .iter()
        .enumerate()
        .filter_map(|(index, arg)| (arg == "-i").then_some(index))
        .collect();
    assert_eq!(whitelists.len(), 2);
    assert_eq!(inputs.len(), 2);
    for (whitelist, input) in whitelists.into_iter().zip(inputs) {
        assert_eq!(args[whitelist + 1], "file");
        assert!(whitelist < input);
        assert_eq!(args[input - 2], "-f");
        assert_eq!(args[input - 1], "mp4");
    }
    assert!(args.iter().all(|arg| !arg.contains("://")));
    assert_eq!(args[args.len() - 4], "134217728");
}

#[test]
fn a_complete_fresh_request_is_valid() {
    let now = 1_000_000;
    assert_eq!(validate_request(&request(now), now), Ok(()));
}

#[test]
fn request_limits_and_expiry_are_enforced() {
    let now = 1_000_000;
    let mut zero_revision = request(now);
    zero_revision.binding.item_revision = 0;
    assert_eq!(validate_request(&zero_revision, now), Err(DeliveryError::InvalidRequest));
    let mut long_timeout = request(now);
    long_timeout.timeout_ms = MAX_DELIVERY_TIMEOUT_MS + 1;
    assert_eq!(validate_request(&long_timeout, now), Err(DeliveryError::InvalidRequest));
    let mut wrong_version = request(now);
    wrong_version.shape.version = MEDIA_SHAPE_VERSION + 1;
    assert_eq!(validate_request(&wrong_version, now), Err(DeliveryError::InvalidRequest));
    assert_eq!(validate_request(&request(now), now + 60), Err(DeliveryError::ExpiredInput));
    let mut two_videos = request(now);
    two_videos.shape.tracks[1].kind = MediaTrackKind::Video;
    assert_eq!(
        validate_request(&two_videos, now),
        Err(DeliveryError::IncompleteTrackGroup)
    );
    let mut muxed = request(now);
    muxed.shape.tracks[0].kind = MediaTrackKind::Muxed;
    assert_eq!(validate_request(&muxed, now), Err(DeliveryError::UnsupportedShape));
    let mut other_group = request(now);
    other_group.shape.tracks[1].group_id = Some("group-2".into());
    assert_eq!(validate_request(&other_group, now), Err(DeliveryError::UnsupportedShape));
}

#[test]
fn inputs_must_match_their_tracks_and_carry_no_secrets() {
    let now = 1_000_000;
    let mut wrong_ref = request(now);
    wrong_ref.shape.tracks[0].access_ref = Some("other-ref".into());
    assert_eq!(
        validate_request(&wrong_ref, now),
        Err(DeliveryError::InputCapabilityRejected)
    );
    let mut secret = request(now);
    let mut res = resource(StreamProtocol::HttpFile);
    res.public_headers.push(HeaderEntry {
        name: "Authorization".into(),
        value: Some("Bearer hidden".into()),
    });
    secret.inputs[1] =
        DeliveryInputCapability::new_server_owned("audio-1".into(), "audio-ref".into(), res)
            .ok()
            .unwrap();
    assert_eq!(validate_request(&secret, now), Err(DeliveryError::SecretMaterial));
    let mut control = request(now);
    let mut res = resource(StreamProtocol::HttpFile);
    res.public_headers.push(HeaderEntry {
        name: "x-note".into(),
        value: Some("a\tb".into()),
    });
    control.inputs[0] =
        DeliveryInputCapability::new_server_owned("video-1".into(), "video-ref".into(), res)
            .ok()
            .unwrap();
    assert_eq!(
        validate_request(&control, now),
        Err(DeliveryError::InputCapabilityRejected)
    );
    let credentialed = UpstreamResource {
        url: UrlParts::parse("https://user:pw@media.example.test/input").unwrap(),
        ..resource(StreamProtocol::HttpFile)
    };
    assert!(DeliveryInputCapability::new_server_owned(
        "video-1".into(),
        "video-ref".into(),
        credentialed
    )
    .is_err());
}

#[test]
fn resolved_secret_headers_are_rejected() {
    let stream = ResolvedStream {
        id: "x".into(),
        protocol: StreamProtocol::HttpFile,
        url: UrlParts::parse("https://example.com/a.mp4").unwrap(),
        public_headers: vec![("Authorization".into(), "Bearer leak".into())],
        upstream_access_ref: None,
    };
    assert!(matches!(
        resource_from_resolved(stream, EgressScope::PublicWeb),
        Err(GatewayError::SecretHeader)
    ));
}

#[test]
fn bearer_like_values_and_secret_header_names_are_rejected() {
    for header in [
        ("x-trace", "Bearer hidden-secret"),
        ("Cookie", "session=hidden-secret"),
        ("X-Api-Key", "hidden-secret"),
    ] {
        let stream = ResolvedStream {
            id: "x".into(),
            protocol: StreamProtocol::HttpFile,
            url: UrlParts::parse("https://example.com/a.mp4").unwrap(),
            public_headers: vec![(header.0.into(), header.1.into())],
            upstream_access_ref: None,
        };
        assert!(matches!(
            resource_from_resolved(stream, EgressScope::PublicWeb),
            Err(GatewayError::SecretHeader)
        ));
    }
}

#[test]
fn resolved_public_headers_are_lowercased_and_kept() {
    let stream = ResolvedStream {
        id: "x".into(),
        protocol: StreamProtocol::HttpFile,
        url: UrlParts::parse("https://example.com/a.mp4").unwrap(),
        public_headers: vec![
            ("Referer".into(), "https://example.com/".into()),
            ("X-Bad Name".into(), "v".into()),
        ],
        upstream_access_ref: None,
    };
    assert!(matches!(
        resource_from_resolved(stream, EgressScope::PublicWeb),
        Err(GatewayError::InvalidHeader)
    ));
    let stream = ResolvedStream {
        id: "x".into(),
        protocol: StreamProtocol::HttpFile,
        url: UrlParts::parse("https://example.com/a.mp4").unwrap(),
        public_headers: vec![("Referer".into(), "https://example.com/".into())],
        upstream_access_ref: None,
    };
    let resource = resource_from_resolved(stream, EgressScope::PublicWeb).ok().unwrap();
    assert_eq!(resource.public_headers.len(), 1);
    assert_eq!(resource.public_headers[0].name, "referer");
    assert_eq!(
        resource.public_headers[0].value.as_deref(),
        Some("https://example.com/")
    );
    assert!(resource.secret_headers.is_empty());
}

#[test]
fn broker_timeout_is_bounded() {
    assert_eq!(HttpFileDeliveryBroker::new().request_timeout_ms, DEFAULT_DELIVERY_TIMEOUT_MS);
    assert_eq!(HttpFileDeliveryBroker::with_timeout(0).effective_timeout_ms(), 1);
    assert_eq!(
        HttpFileDeliveryBroker::with_timeout(u64::MAX).effective_timeout_ms(),
        MAX_DELIVERY_TIMEOUT_MS
    );
    assert_eq!(HttpFileDeliveryBroker::with_timeout(5_000).effective_timeout_ms(), 5_000);
}

#[test]
fn playback_authority_tracks_the_current_generation() {
    let mut control = ControlService::default();
    let session = control.seed_test_session("item-1".into(), "media".into(), "display-1".into());
    let snapshot = control.snapshot(&session).unwrap();
    let binding = DeliveryBinding::new(
        &session,
        "item-1",
        snapshot.current_item.item_revision,
        snapshot.current_item.media_generation,
        snapshot.active_display.generation,
        "group-1",
    );
    let other_session = DeliveryBinding::new(
        "other",
        "item-1",
        snapshot.current_item.item_revision,
        snapshot.current_item.media_generation,
        snapshot.active_display.generation,
        "group-1",
    );
    control
        .execute_command(
            &session,
            ControlCommandRequest {
                request_id: "pause".into(),
                expected_session_revision: Some(0),
                command: ControlCommand::Pause,
            },
        )
        .unwrap();
    let authority = PlaybackDeliveryAuthority::new(control, &session);
    assert!(authority.matches(&binding));
    assert!(!authority.matches(&other_session));
    let mut stale = binding.clone();
    stale.display_generation += 1;
    assert!(!authority.matches(&stale));
}

fn binding() -> DeliveryBinding {
    DeliveryBinding::new("session-1", "item-1", 1, 4, 2, "group-1")
}

fn publish(
    supervisor: &mut MediaDeliverySupervisor,
    suffix: &str,
    now: u64,
) -> Result<String, DeliveryError> {
    supervisor
        .publish_at(
            &binding(),
            format!("/tmp/ws-{suffix}/delivery.mp4"),
            format!("/tmp/ws-{suffix}"),
            1024,
            suffix,
            false,
            true,
            now,
            1_000,
        )
        .map(|result| result.gateway_path)
}

#[test]
fn published_output_is_bound_revocable_and_expires() {
    let mut supervisor = MediaDeliverySupervisor::new(EgressPolicy::new());
    let path = publish(&mut supervisor, "abc", 10_000).unwrap();
    assert_eq!(path, "/media/delivery/d1-abc/session-1/item-1/1/4/2/group-1");
    assert_eq!(supervisor.published_output_count(), 1);
    assert_eq!(
        supervisor.serve_lookup_at("d1-abc", &binding(), true, 10_500),
        Ok("/tmp/ws-abc/delivery.mp4".to_string())
    );
    let mut other = binding();
    other.group_id = "group-2".into();
    assert_eq!(
        supervisor.serve_lookup_at("d1-abc", &other, true, 10_500),
        Err(DeliveryError::CapabilityBindingMismatch)
    );
    assert_eq!(supervisor.published_output_count(), 0);
    assert_eq!(supervisor.take_released(), vec!["/tmp/ws-abc".to_string()]);

    let path = publish(&mut supervisor, "def", 20_000).unwrap();
    assert!(supervisor.revoke(&path));
    assert!(!supervisor.revoke(&path));
    assert_eq!(
        supervisor.serve_lookup_at("d2-def", &binding(), true, 20_001),
        Err(DeliveryError::OutputUnavailable)
    );

    publish(&mut supervisor, "ghi", 30_000).unwrap();
    assert_eq!(
        supervisor.serve_lookup_at("d3-ghi", &binding(), false, 30_001),
        Err(DeliveryError::StaleGeneration)
    );
    publish(&mut supervisor, "jkl", 40_000).unwrap();
    assert_eq!(
        supervisor.serve_lookup_at("d4-jkl", &binding(), true, 41_000),
        Err(DeliveryError::OutputUnavailable)
    );
    assert_eq!(supervisor.published_output_count(), 0);
}

#[test]
fn registry_evicts_the_oldest_output_when_full() {
    let mut supervisor = MediaDeliverySupervisor::new(EgressPolicy::new());
    for index in 0..33 {
        publish(&mut supervisor, &format!("t{index}"), 50_000).unwrap();
    }
    assert_eq!(supervisor.published_output_count(), 32);
    assert_eq!(
        supervisor.serve_lookup_at("d1-t0", &binding(), true, 50_001),
        Err(DeliveryError::OutputUnavailable)
    );
    assert_eq!(supervisor.published_output_count(), 31);
    assert_eq!(
        supervisor.serve_lookup_at("d2-t1", &binding(), true, 50_001),
        Err(DeliveryError::OutputUnavailable)
    );
    assert!(supervisor
        .serve_lookup_at("d3-t2", &binding(), true, 50_001)
        .is_ok());
    assert!(supervisor
        .serve_lookup_at("d33-t32", &binding(), true, 50_001)
        .is_ok());
}

#[test]
fn stale_and_cancelled_publications_release_their_workspace() {
    let mut supervisor = MediaDeliverySupervisor::new(EgressPolicy::new());
    let cancelled = supervisor.publish_at(
        &binding(),
        "/tmp/ws-x/delivery.mp4".into(),
        "/tmp/ws-x".into(),
        10,
        "x",
        true,
        true,
        1,
        1_000,
    );
    assert_eq!(cancelled.err(), Some(DeliveryError::Cancelled));
    let stale = supervisor.publish_at(
        &binding(),
        "/tmp/ws-y/delivery.mp4".into(),
        "/tmp/ws-y".into(),
        10,
        "y",
        false,
        false,
        1,
        1_000,
    );
    assert_eq!(stale.err(), Some(DeliveryError::StaleGeneration));
    assert_eq!(supervisor.published_output_count(), 0);
    assert_eq!(
        supervisor.take_released(),
        vec!["/tmp/ws-x".to_string(), "/tmp/ws-y".to_string()]
    );
}

#[test]
fn concurrency_is_bounded_and_finish_checks_are_ordered() {
    let mut supervisor = MediaDeliverySupervisor::new(EgressPolicy::new());
    assert_eq!(supervisor.begin_delivery(&request(1_000), 1_000, false, true), Ok(()));
    assert_eq!(supervisor.begin_delivery(&request(1_000), 1_000, false, true), Ok(()));
    assert_eq!(
        supervisor.begin_delivery(&request(1_000), 1_000, false, true),
        Err(DeliveryError::ConcurrencyLimitExceeded)
    );
    supervisor.release_delivery();
    assert_eq!(
        supervisor.begin_delivery(&request(1_000), 1_000, true, true),
        Err(DeliveryError::Cancelled)
    );
    assert_eq!(
        supervisor.begin_delivery(&request(1_000), 1_000, false, false),
        Err(DeliveryError::StaleGeneration)
    );
    assert_eq!(supervisor.begin_delivery(&request(1_000), 1_000, false, true), Ok(()));

    assert_eq!(check_finished_output(true, false, None, 10, true), Err(DeliveryError::Cancelled));
    assert_eq!(
        check_finished_output(false, false, Some(5), 10, false),
        Err(DeliveryError::StaleGeneration)
    );
    assert_eq!(
        check_finished_output(false, true, None, 10, false),
        Err(DeliveryError::OutputUnavailable)
    );
    assert_eq!(
        check_finished_output(false, true, Some(0), 10, false),
        Err(DeliveryError::OutputLimitExceeded)
    );
    assert_eq!(
        check_finished_output(false, true, Some(11), 10, false),
        Err(DeliveryError::OutputLimitExceeded)
    );
    assert_eq!(
        check_finished_output(false, true, Some(5), 10, true),
        Err(DeliveryError::TimedOut)
    );
    assert_eq!(check_finished_output(false, true, Some(5), 10, false), Ok(5));
}

#[test]
fn broker_materialization_accepts_only_bounded_single_files() {
    let ok = BrokerMaterialization::from_server_owned_path(
        "/var/lib/gateway/input.mp4".into(),
        1024,
        StreamProtocol::HttpFile,
        "mp4".into(),
    )
    .ok()
    .unwrap();
    assert_eq!(ok.size_bytes(), 1024);
    assert_eq!(ok.container(), "mp4");
    assert_eq!(ok.protocol(), StreamProtocol::HttpFile);
    for (path, size, protocol, container) in [
        ("", 1024, StreamProtocol::HttpFile, "mp4"),
        ("/x", 0, StreamProtocol::HttpFile, "mp4"),
        ("/x", MAX_DELIVERY_INPUT_BYTES + 1, StreamProtocol::HttpFile, "mp4"),
        ("/x", 1024, StreamProtocol::Hls, "mp4"),
        ("/x", 1024, StreamProtocol::HttpFile, ""),
        ("/x", 1024, StreamProtocol::HttpFile, "mp4;rm"),
    ] {
        assert_eq!(
            BrokerMaterialization::from_server_owned_path(path.into(), size, protocol, container.into())
                .err(),
            Some(DeliveryError::BrokerRejected)
        );
    }
    assert!(BrokerMaterialization::from_server_owned_path(
        "/x".into(),
        MAX_DELIVERY_INPUT_BYTES,
        StreamProtocol::HttpFile,
        "mp4".into()
    )
    .is_ok());
}

#[test]
fn inputs_are_assigned_to_their_video_and_audio_tracks() {
    let now = unix_seconds();
    assert_eq!(assign_input_tracks(&request(now)), Ok((0, 1)));
    let mut swapped = request(now);
    swapped.inputs.swap(0, 1);
    assert_eq!(assign_input_tracks(&swapped), Ok((1, 0)));
    let mut unknown = request(now);
    unknown.shape.tracks[1].id = "audio-2".into();
    assert_eq!(
        assign_input_tracks(&unknown),
        Err(DeliveryError::InputCapabilityRejected)
    );
    let mut muxed = request(now);
    muxed.shape.tracks[0].kind = MediaTrackKind::Muxed;
    assert_eq!(assign_input_tracks(&muxed), Err(DeliveryError::UnsupportedShape));
    let mut two_video = request(now);
    two_video.shape.tracks[1].kind = MediaTrackKind::Video;
    assert_eq!(
        assign_input_tracks(&two_video),
        Err(DeliveryError::IncompleteTrackGroup)
    );
}
