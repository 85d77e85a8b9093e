use media_gateway::auth::{
    AccountState, CandidateValidation, CleanupResult, SecretMaterial, SessionVault, VaultError,
};

#[test]
fn secret_material_debug_is_redacted_inside_the_vault_boundary() {
    let material = SecretMaterial::new(
        Some("cookie-secret-sentinel".into()),
        Some("Bearer authorization-secret-sentinel".into()),
        Some("local-storage-secret-sentinel".into()),
        Some(b"profile-secret-sentinel".to_vec()),
    );
    let diagnostic = material.debug_string();
    assert!(!diagnostic.contains("secret-sentinel"));
    assert!(diagnostic.contains("[REDACTED]"));
}

#[test]
fn active_vault_session_issues_opaque_profile_attachment_ref() {
    let mut vault = SessionVault::isolated_test();
    vault
        .register_account("site-a", "account-a", "fixture")
        .unwrap();
    let candidate = vault
        .create_fixture_candidate_session("site-a", "account-a", "profile")
        .unwrap();
    vault
        .validate_and_swap(&candidate, CandidateValidation::Valid)
        .unwrap();
    let profile = vault.issue_profile_attachment_ref(&candidate).unwrap();
    let diagnostic = profile.debug_string();
    assert!(!diagnostic.contains("profile"));
}

#[test]
fn register_account_refuses_empty_and_duplicate_references() {
    let mut vault = SessionVault::isolated_test();
    assert_eq!(
        vault.register_account("", "account-a", "x").unwrap_err(),
        VaultError::InvalidReference
    );
    assert_eq!(
        vault.register_account("site-a", "", "x").unwrap_err(),
        VaultError::InvalidReference
    );
    let account = vault.register_account("site-a", "account-a", "Label").unwrap();
    assert_eq!(account.state(), AccountState::Unknown);
    assert_eq!(account.label(), "Label");
    assert!(account.active_session().is_none());
    assert_eq!(
        vault.register_account("site-a", "account-a", "again").unwrap_err(),
        VaultError::InvalidReference
    );
    assert_eq!(
        vault.account("site-a", "missing").unwrap_err(),
        VaultError::AccountNotFound
    );
}

#[test]
fn invalid_candidate_preserves_active_session_and_valid_swap_replaces_it() {
    let mut vault = SessionVault::isolated_test();
    vault.register_account("site-a", "account-a", "A").unwrap();
    let first = vault
        .create_fixture_candidate_session("site-a", "account-a", "first")
        .unwrap();
    let swapped = vault
        .validate_and_swap(&first, CandidateValidation::Valid)
        .unwrap();
    assert_eq!(swapped.cleanup, CleanupResult::NoPreviousSession);
    assert!(swapped.replaced_session.is_none());

    let bad = vault
        .create_fixture_candidate_session("site-a", "account-a", "bad")
        .unwrap();
    assert_eq!(
        vault
            .validate_and_swap(&bad, CandidateValidation::Invalid)
            .unwrap_err(),
        VaultError::CandidateRejected
    );
    assert!(!vault.has_session(&bad));
    let active = vault.active_session("site-a", "account-a").unwrap().unwrap();
    assert_eq!(active.session_id(), first.session_id());
    match vault.read_secret(&first) {
        Ok(secret) => assert_eq!(secret.cookie_header(), Some("session-cookie-first")),
        Err(e) => panic!("active session not readable: {e:?}"),
    }

    let second = vault
        .create_fixture_candidate_session("site-a", "account-a", "second")
        .unwrap();
    assert!(matches!(
        vault.read_secret(&second),
        Err(VaultError::SessionNotActive)
    ));
    let swapped = vault
        .validate_and_swap(&second, CandidateValidation::Valid)
        .unwrap();
    assert_eq!(swapped.cleanup, CleanupResult::PreviousSessionRemoved);
    assert_eq!(
        swapped.replaced_session.unwrap().session_id(),
        first.session_id()
    );
    assert!(!vault.has_session(&first));
    match vault.read_secret(&second) {
        Ok(secret) => assert_eq!(
            secret.authorization_header(),
            Some("Bearer session-token-second")
        ),
        Err(e) => panic!("swapped-in session not readable: {e:?}"),
    }
    assert_eq!(
        vault.account("site-a", "account-a").unwrap().state(),
        AccountState::Valid
    );
}

#[test]
fn swapping_in_another_account_logs_the_first_one_out() {
    let mut vault = SessionVault::isolated_test();
    vault.register_account("site-a", "account-a", "A").unwrap();
    vault.register_account("site-a", "account-b", "B").unwrap();
    let a = vault
        .create_fixture_candidate_session("site-a", "account-a", "a")
        .unwrap();
    vault.validate_and_swap(&a, CandidateValidation::Valid).unwrap();
    let b = vault
        .create_fixture_candidate_session("site-a", "account-b", "b")
        .unwrap();
    let swapped = vault.validate_and_swap(&b, CandidateValidation::Valid).unwrap();
    assert_eq!(
        swapped.replaced_session.unwrap().session_id(),
        a.session_id()
    );
    let first = vault.account("site-a", "account-a").unwrap();
    assert_eq!(first.state(), AccountState::LoginRequired);
    assert!(first.active_session().is_none());
    assert!(!vault.has_session(&a));
}

#[test]
fn cancel_logout_and_expiry_have_explicit_outcomes() {
    let mut vault = SessionVault::isolated_test();
    vault.register_account("site-a", "account-a", "A").unwrap();
    let candidate = vault
        .create_fixture_candidate_session("site-a", "account-a", "c")
        .unwrap();
    vault.cancel_candidate(&candidate).unwrap();
    assert_eq!(
        vault.cancel_candidate(&candidate).unwrap_err(),
        VaultError::CandidateNotFound
    );
    let active = vault
        .create_fixture_candidate_session("site-a", "account-a", "d")
        .unwrap();
    vault
        .validate_and_swap(&active, CandidateValidation::Valid)
        .unwrap();
    assert_eq!(
        vault.cancel_candidate(&active).unwrap_err(),
        VaultError::CandidateNotFound
    );
    let expired = vault.mark_expired("site-a", "account-a").unwrap();
    assert_eq!(expired.state(), AccountState::Expired);
    let out = vault.logout("site-a", "account-a").unwrap();
    assert_eq!(out.state(), AccountState::LoginRequired);
    assert!(out.active_session().is_none());
    assert!(matches!(
        vault.read_secret(&active),
        Err(VaultError::SessionNotActive)
    ));
    assert_eq!(
        vault.logout("site-a", "missing").unwrap_err(),
        VaultError::AccountNotFound
    );
    assert_eq!(
        vault
            .create_fixture_candidate_session("site-a", "missing", "x")
            .unwrap_err(),
        VaultError::AccountNotFound
    );
    assert_eq!(
        vault
            .create_candidate_session(
                "site-a",
                "account-a",
                SecretMaterial::new(None, None, None, None)
            )
            .unwrap_err(),
        VaultError::EmptySecretMaterial
    );
}

#[test]
fn a_session_stays_held_until_cancelled_rejected_replaced_or_logged_out() {
    let mut vault = SessionVault::isolated_test();
    vault.register_account("site-a", "account-a", "A").unwrap();
    vault.register_account("site-a", "account-b", "B").unwrap();

    let cancelled = vault
        .create_fixture_candidate_session("site-a", "account-a", "one")
        .unwrap();
    assert!(vault.has_session(&cancelled));
    vault.set_account_state("site-a", "account-a", AccountState::Checking).unwrap();
    assert!(vault.has_session(&cancelled));
    vault.cancel_candidate(&cancelled).unwrap();
    assert!(!vault.has_session(&cancelled));

    let rejected = vault
        .create_fixture_candidate_session("site-a", "account-a", "two")
        .unwrap();
    assert_eq!(
        vault
            .validate_and_swap(&rejected, CandidateValidation::Invalid)
            .unwrap_err(),
        VaultError::CandidateRejected
    );
    assert!(!vault.has_session(&rejected));

    let first = vault
        .create_fixture_candidate_session("site-a", "account-a", "three")
        .unwrap();
    vault.validate_and_swap(&first, CandidateValidation::Valid).unwrap();
    assert!(vault.has_session(&first));
    let replacement = vault
        .create_fixture_candidate_session("site-a", "account-b", "four")
        .unwrap();
    assert!(vault.has_session(&first));
    vault
        .validate_and_swap(&replacement, CandidateValidation::Valid)
        .unwrap();
    assert!(!vault.has_session(&first));
    assert!(vault.has_session(&replacement));

    vault.logout("site-a", "account-b").unwrap();
    assert!(!vault.has_session(&replacement));
}
