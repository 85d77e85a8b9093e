use media_gateway::http_surface::{
    check_http_surface, is_json_content_type, is_state_changing, SurfaceRejection,
};
use media_gateway::security::{HttpAuthorityPolicy, UrlParts};

fn policy() -> HttpAuthorityPolicy {
    let mut policy = HttpAuthorityPolicy::new();
    policy
        .configure(&UrlParts::parse("http://127.0.0.1:8080").unwrap())
        .unwrap();
    policy
}

#[test]
fn reads_are_allowed_for_the_configured_host() {
    let p = policy();
    assert_eq!(check_http_surface(&p, Some("127.0.0.1:8080"), None, "GET", None), Ok(()));
    assert_eq!(
        check_http_surface(
            &p,
            Some("127.0.0.1:8080"),
            Some("http://127.0.0.1:8080"),
            "GET",
            None
        ),
        Ok(())
    );
}

#[test]
fn missing_invalid_and_foreign_hosts_are_refused() {
    let p = policy();
    assert_eq!(
        check_http_surface(&p, None, None, "GET", None),
        Err(SurfaceRejection::InvalidHost)
    );
    assert_eq!(
        check_http_surface(&p, Some("bad host/"), None, "GET", None),
        Err(SurfaceRejection::InvalidHost)
    );
    assert_eq!(
        check_http_surface(&p, Some("evil.test"), None, "GET", None),
        Err(SurfaceRejection::HostNotAllowed)
    );
    assert_eq!(
        check_http_surface(&p, Some("127.0.0.1:9090"), None, "GET", None),
        Err(SurfaceRejection::HostNotAllowed)
    );
}

#[test]
fn cross_origin_requests_are_refused() {
    let p = policy();
    assert_eq!(
        check_http_surface(
            &p,
            Some("127.0.0.1:8080"),
            Some("http://evil.test"),
            "GET",
            None
        ),
        Err(SurfaceRejection::OriginMismatch)
    );
}

#[test]
fn state_changing_requests_need_json_and_an_origin() {
    let p = policy();
    let host = Some("127.0.0.1:8080");
    let origin = Some("http://127.0.0.1:8080");
    assert_eq!(
        check_http_surface(&p, host, origin, "POST", Some("text/plain")),
        Err(SurfaceRejection::ContentTypeRequired)
    );
    assert_eq!(
        check_http_surface(&p, host, origin, "DELETE", None),
        Err(SurfaceRejection::ContentTypeRequired)
    );
    assert_eq!(
        check_http_surface(&p, host, None, "POST", Some("application/json")),
        Err(SurfaceRejection::OriginRequired)
    );
    assert_eq!(
        check_http_surface(&p, host, origin, "PATCH", Some(" Application/JSON ; charset=utf-8")),
        Ok(())
    );
}

#[test]
fn rejections_carry_their_status_and_code() {
    let expected = [
        (SurfaceRejection::InvalidHost, 400, "invalid_host"),
        (SurfaceRejection::HostNotAllowed, 421, "host_not_allowed"),
        (SurfaceRejection::OriginMismatch, 403, "origin_mismatch"),
        (SurfaceRejection::ContentTypeRequired, 415, "content_type_required"),
        (SurfaceRejection::OriginRequired, 403, "origin_required"),
    ];
    for (rejection, status, code) in expected {
        assert_eq!(rejection.status(), status);
        assert_eq!(rejection.code(), code);
    }
}

#[test]
fn json_media_type_and_methods_are_read_exactly() {
    assert!(is_json_content_type("application/json"));
    assert!(is_json_content_type("application/json;charset=utf-8"));
    assert!(!is_json_content_type("application/jsonx"));
    assert!(!is_json_content_type("text/json"));
    assert!(!is_json_content_type(""));
    assert!(is_state_changing("PUT"));
    assert!(!is_state_changing("GET"));
    assert!(!is_state_changing("post"));
}
