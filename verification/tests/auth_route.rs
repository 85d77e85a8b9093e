use media_gateway::auth_api::parse_navigation_url;
use media_gateway::auth_route::{
    CancelLedger, OperationDecision, OperationLedger, RequestFingerprint, StartDecision,
    StartLedger,
};

#[test]
fn start_requests_replay_their_attempt_and_refuse_reuse() {
    let mut ledger = StartLedger::new();
    assert_eq!(ledger.decide("start-1", "fixture", "account"), StartDecision::StartNew);
    ledger.record("start-1", "fixture", "account", "a-1");
    assert_eq!(
        ledger.decide("start-1", "fixture", "account"),
        StartDecision::Replay("a-1".into())
    );
    assert_eq!(ledger.decide("start-1", "fixture", "other"), StartDecision::Mismatch);
    ledger.record("start-2", "fixture", "other", "a-2");
    ledger.record("start-3", "fixture", "account", "a-1");
    ledger.forget_attempt("a-1");
    assert_eq!(ledger.decide("start-1", "fixture", "account"), StartDecision::StartNew);
    assert_eq!(ledger.decide("start-3", "fixture", "account"), StartDecision::StartNew);
    assert_eq!(
        ledger.decide("start-2", "fixture", "other"),
        StartDecision::Replay("a-2".into())
    );
    ledger.forget("start-2");
    assert_eq!(ledger.decide("start-2", "fixture", "other"), StartDecision::StartNew);
}

#[test]
fn operation_requests_are_idempotent_and_ordered() {
    let mut ledger = OperationLedger::new();
    assert_eq!(
        ledger.decide_navigate("nav-1", 0, "https://example.test/"),
        OperationDecision::Stale
    );
    assert_eq!(
        ledger.decide_navigate("nav-1", 3, "https://example.test/"),
        OperationDecision::Proceed
    );
    ledger.record_navigation("nav-1", 3, "https://example.test/", 3);
    assert_eq!(ledger.last_operation(), 3);
    assert_eq!(
        ledger.decide_navigate("nav-1", 3, "https://example.test/"),
        OperationDecision::Replay
    );
    assert_eq!(
        ledger.decide_navigate("nav-1", 4, "https://example.test/"),
        OperationDecision::Mismatch
    );
    assert_eq!(
        ledger.decide_navigate("nav-2", 3, "https://example.test/b"),
        OperationDecision::Stale
    );
    assert_eq!(
        ledger.decide_navigate("nav-2", 4, "https://example.test/b"),
        OperationDecision::Proceed
    );
    assert_eq!(ledger.decide_input("in-1", "text"), OperationDecision::Proceed);
    ledger.record("in-1", RequestFingerprint::Input { input: "text".into() });
    assert_eq!(ledger.decide_input("in-1", "text"), OperationDecision::Replay);
    assert_eq!(ledger.decide_input("in-1", "other"), OperationDecision::Mismatch);
    let candidate = RequestFingerprint::Candidate {
        operation_id: 3,
        candidate_session_id: "c-1".into(),
        source: "https://example.test/watch".into(),
        schema_version: 1,
        sequence: 2,
    };
    assert_eq!(
        ledger.decide_candidate("cand-1", &candidate, true),
        OperationDecision::AlreadyAccepted
    );
    assert_eq!(
        ledger.decide_candidate("cand-1", &candidate, false),
        OperationDecision::Proceed
    );
    ledger.record("cand-1", candidate.duplicate());
    assert_eq!(
        ledger.decide_candidate("cand-1", &candidate, true),
        OperationDecision::Replay
    );
}

#[test]
fn answered_cancellations_are_remembered_per_attempt() {
    let mut ledger = CancelLedger::new();
    assert!(!ledger.answered("a-1", "cancel-1"));
    ledger.record("a-1", "cancel-1");
    assert!(ledger.answered("a-1", "cancel-1"));
    assert!(!ledger.answered("a-2", "cancel-1"));
    assert!(!ledger.answered("a-1", "cancel-2"));
}

#[test]
fn navigation_targets_must_be_plain_http_urls() {
    let ok = parse_navigation_url("https://site.test/login?next=/home").unwrap();
    assert_eq!(ok.as_str(), "https://site.test/login?next=/home");
    for bad in [
        "",
        "not a url",
        "file:///etc/passwd",
        "https://user:pw@site.test/",
        "https://user@site.test/",
        "https://site.test/\u{7}",
    ] {
        let error = parse_navigation_url(bad).err().unwrap();
        assert_eq!(error.status, 400, "{bad:?}");
        assert_eq!(error.code, "AUTH_NAVIGATION_INVALID", "{bad:?}");
    }
    let long = format!("https://site.test/{}", "a".repeat(5000));
    assert!(parse_navigation_url(&long).is_err());
}
