use media_gateway::security::{
    is_public_web_ip, redact_text, redact_url, EgressPolicy, EgressPolicyError, EgressScope,
    IpAddress, SiteAccessCapability, SiteAccessError, SocketAddress, StructuredCommand, UrlParts,
};

fn ip(value: &str) -> IpAddress {
    if value.contains(':') {
        let segments = match value {
            "::" => [0, 0, 0, 0, 0, 0, 0, 0],
            "::1" => [0, 0, 0, 0, 0, 0, 0, 1],
            "::ffff:127.0.0.1" => [0, 0, 0, 0, 0, 0xffff, 0x7f00, 0x0001],
            "fc00::1" => [0xfc00, 0, 0, 0, 0, 0, 0, 1],
            "fe80::1" => [0xfe80, 0, 0, 0, 0, 0, 0, 1],
            "2001:db8::1" => [0x2001, 0x0db8, 0, 0, 0, 0, 0, 1],
            "ff02::1" => [0xff02, 0, 0, 0, 0, 0, 0, 1],
            "2001:4860:4860::8888" => [0x2001, 0x4860, 0x4860, 0, 0, 0, 0, 0x8888],
            _ => panic!("unlisted address {value}"),
        };
        IpAddress::V6(segments)
    } else {
        let octets: Vec<u8> = value.split('.').map(|part| part.parse().unwrap()).collect();
        IpAddress::V4([octets[0], octets[1], octets[2], octets[3]])
    }
}

fn url(value: &str) -> UrlParts {
    UrlParts::parse(value).unwrap()
}

#[test]
fn forbidden_ip_matrix_is_rejected() {
    for value in [
        "0.0.0.0",
        "10.0.0.1",
        "100.64.0.1",
        "127.0.0.1",
        "169.254.169.254",
        "192.0.2.1",
        "192.168.1.1",
        "198.18.0.1",
        "224.0.0.1",
        "255.255.255.255",
        "::",
        "::1",
        "::ffff:127.0.0.1",
        "fc00::1",
        "fe80::1",
        "2001:db8::1",
        "ff02::1",
    ] {
        assert!(!is_public_web_ip(ip(value)), "{value}");
    }
    for value in ["8.8.8.8", "1.1.1.1", "2001:4860:4860::8888"] {
        assert!(is_public_web_ip(ip(value)), "{value}");
    }
}

#[test]
fn site_capability_is_site_host_and_expiry_scoped() {
    let cap = SiteAccessCapability::issue(
        "video-site",
        Some("account-a".into()),
        vec!["media.example.test".into()],
        "cap-a",
        60_000,
    );
    assert!(cap
        .authorize("video-site", &url("https://media.example.test/a"))
        .is_ok());
    assert_eq!(
        cap.authorize("other-site", &url("https://media.example.test/a")),
        Err(SiteAccessError::SiteMismatch)
    );
    assert_eq!(
        cap.authorize("video-site", &url("https://other.example.test/a")),
        Err(SiteAccessError::HostNotAllowed)
    );
    let expired = SiteAccessCapability::issue(
        "video-site",
        None,
        vec!["media.example.test".into()],
        "cap-expired",
        0,
    );
    assert_eq!(
        expired.authorize("video-site", &url("https://media.example.test/a")),
        Err(SiteAccessError::Expired)
    );
}

#[test]
fn redaction_removes_secret_and_signed_query_material() {
    let secret = "fixture-secret-7f9b";
    let diagnostic = format!("upstream Authorization: Bearer {secret}");
    assert!(!redact_text(&diagnostic, &[secret]).contains(secret));
    let parsed = url("https://cdn.example.test/a.m3u8?token=fixture-secret-7f9b");
    assert_eq!(redact_url(&parsed), "https://cdn.example.test/a.m3u8");
}

#[test]
fn structured_command_preserves_argument_boundaries() {
    let command = StructuredCommand::new("ffmpeg")
        .arg("-i")
        .arg("https://example.test/a?title=hello;echo-pwned")
        .arg("output file.mp4");
    let args: Vec<String> = command.argv();
    assert_eq!(
        args,
        vec![
            "ffmpeg",
            "-i",
            "https://example.test/a?title=hello;echo-pwned",
            "output file.mp4"
        ]
    );
}

#[test]
fn configured_local_service_plan_is_named_and_origin_bound() {
    let mut policy = EgressPolicy::new();
    policy
        .configure_local_service("jellyfin", &url("http://127.0.0.1:8096/"))
        .unwrap();
    let scope = EgressScope::ConfiguredLocalService("jellyfin".into());
    let plan = policy
        .plan_target(&url("http://127.0.0.1:8096/Items"), &scope)
        .unwrap();
    assert_eq!(plan.host, "127.0.0.1");
    assert_eq!(plan.port, 8096);
    assert!(!plan.require_public);
    assert_eq!(
        policy
            .plan_target(&url("http://169.254.169.254/latest"), &scope)
            .err(),
        Some(EgressPolicyError::LocalServiceOriginMismatch)
    );
    assert_eq!(
        policy
            .plan_target(
                &url("http://127.0.0.1:8096/Items"),
                &EgressScope::ConfiguredLocalService("user-selected".into())
            )
            .err(),
        Some(EgressPolicyError::LocalServiceNotConfigured)
    );
}

#[test]
fn public_web_plan_rejects_private_resolutions() {
    let policy = EgressPolicy::new();
    let plan = policy
        .plan_target(&url("https://media.example.test/a"), &EgressScope::PublicWeb)
        .unwrap();
    assert!(plan.require_public);
    let private = vec![SocketAddress { ip: ip("10.0.0.1"), port: 443 }];
    assert_eq!(
        EgressPolicy::accept_resolved(&plan, private).err(),
        Some(EgressPolicyError::TargetRejected)
    );
    let public = vec![SocketAddress { ip: ip("8.8.8.8"), port: 443 }];
    let target = EgressPolicy::accept_resolved(&plan, public).unwrap();
    assert_eq!(target.host(), "media.example.test");
    assert_eq!(target.addresses().len(), 1);
    assert_eq!(
        policy
            .plan_target(&url("file:///etc/passwd"), &EgressScope::PublicWeb)
            .err(),
        Some(EgressPolicyError::InvalidScheme)
    );
}
