use passkey_auth::ceremony::{AttestedCredential, CeremonyEngine};
use passkey_auth::error::AuthError;
use passkey_auth::shared_types::User;

const TTL: u64 = 300_000;

fn alice() -> User {
    User {
        pid: "11111111-2222-3333-4444-555555555555".to_string(),
        email: "alice@example.com".to_string(),
        name: "Alice".to_string(),
        created_at: None,
        updated_at: None,
    }
}

fn attested(cid: &str, counter: u32) -> AttestedCredential {
    AttestedCredential {
        credential_id: cid.to_string(),
        public_key: format!("key-of-{}", cid),
        sign_counter: counter,
        backup_eligible: true,
        backup_state: false,
        device_type: "multi_device".to_string(),
        user_verified: true,
    }
}

fn register(engine: &mut CeremonyEngine, cid: &str, counter: u32) {
    let start = engine.begin_registration(Some(&alice()), "reg-challenge".to_string(), 0).unwrap();
    engine
        .finish_registration(&start.session_id, None, |_| Some(attested(cid, counter)), 10)
        .unwrap();
}

fn authenticate(engine: &mut CeremonyEngine, cid: &str, reported: u32) -> Result<u32, AuthError> {
    let start = engine
        .begin_authentication(Some(&alice().pid), "auth-challenge".to_string(), 20)
        .unwrap();
    engine
        .finish_authentication(&start.session_id, Some(&cid.to_string()), |_, _, _| Some(reported), 30)
        .map(|c| c.sign_counter)
}

#[test]
fn registration_round_trip_is_findable() {
    let mut engine = CeremonyEngine::new(TTL);
    let start = engine.begin_registration(Some(&alice()), "reg-challenge".to_string(), 1_000).unwrap();
    assert_eq!(start.challenge, "reg-challenge");
    assert!(start.exclude_credential_ids.is_empty());
    let mut seen = String::new();
    let cred = engine
        .finish_registration(
            &start.session_id,
            Some("laptop".to_string()),
            |challenge| {
                seen = challenge;
                Some(attested("cred-1", 0))
            },
            2_000,
        )
        .unwrap();
    assert_eq!(seen, "reg-challenge");
    assert_eq!(cred.user_id, alice().pid);
    assert_eq!(cred.display_name, Some("laptop".to_string()));
    assert_eq!(cred.created_at, 2_000);
    let found = engine.credentials.find_by_credential_id(&"cred-1".to_string()).unwrap();
    assert_eq!(found.credential_id, "cred-1");
    assert_eq!(found.id, cred.id);
}

#[test]
fn begin_registration_lists_existing_credentials() {
    let mut engine = CeremonyEngine::new(TTL);
    register(&mut engine, "cred-1", 0);
    let start = engine.begin_registration(Some(&alice()), "c".to_string(), 50).unwrap();
    assert_eq!(start.exclude_credential_ids, vec!["cred-1".to_string()]);
}

#[test]
fn begin_registration_for_unknown_user() {
    let mut engine = CeremonyEngine::new(TTL);
    let err = engine.begin_registration(None, "c".to_string(), 0).unwrap_err();
    assert_eq!(err, AuthError::UnknownUser);
    assert_eq!(engine.sessions.len(), 0);
}

#[test]
fn second_finish_with_same_session_fails() {
    let mut engine = CeremonyEngine::new(TTL);
    let start = engine.begin_registration(Some(&alice()), "c".to_string(), 0).unwrap();
    engine
        .finish_registration(&start.session_id, None, |_| Some(attested("cred-1", 0)), 10)
        .unwrap();
    let err = engine
        .finish_registration(&start.session_id, None, |_| Some(attested("cred-2", 0)), 11)
        .unwrap_err();
    assert_eq!(err, AuthError::SessionExpiredOrUnknown);
    assert!(engine.credentials.find_by_credential_id(&"cred-2".to_string()).is_none());
}

#[test]
fn finish_registration_after_deadline() {
    let mut engine = CeremonyEngine::new(TTL);
    let start = engine.begin_registration(Some(&alice()), "c".to_string(), 0).unwrap();
    let err = engine
        .finish_registration(&start.session_id, None, |_| Some(attested("cred-1", 0)), TTL)
        .unwrap_err();
    assert_eq!(err, AuthError::SessionExpiredOrUnknown);
    assert_eq!(engine.credentials.len(), 0);
    assert_eq!(engine.sessions.len(), 0);
}

#[test]
fn invalid_attestation_consumes_session_and_stores_nothing() {
    let mut engine = CeremonyEngine::new(TTL);
    let start = engine.begin_registration(Some(&alice()), "c".to_string(), 0).unwrap();
    let err = engine.finish_registration(&start.session_id, None, |_| None, 10).unwrap_err();
    assert_eq!(err, AuthError::InvalidAttestation);
    assert_eq!(engine.credentials.len(), 0);
    assert_eq!(engine.sessions.len(), 0);
}

#[test]
fn registering_same_authenticator_twice() {
    let mut engine = CeremonyEngine::new(TTL);
    register(&mut engine, "cred-1", 0);
    let start = engine.begin_registration(Some(&alice()), "c".to_string(), 40).unwrap();
    let err = engine
        .finish_registration(&start.session_id, None, |_| Some(attested("cred-1", 7)), 41)
        .unwrap_err();
    assert_eq!(err, AuthError::DuplicateCredential);
    assert_eq!(engine.credentials.len(), 1);
}

#[test]
fn registration_session_cannot_finish_authentication() {
    let mut engine = CeremonyEngine::new(TTL);
    register(&mut engine, "cred-1", 0);
    let start = engine.begin_registration(Some(&alice()), "c".to_string(), 40).unwrap();
    let err = engine
        .finish_authentication(&start.session_id, Some(&"cred-1".to_string()), |_, _, _| Some(1), 41)
        .unwrap_err();
    assert_eq!(err, AuthError::SessionExpiredOrUnknown);
    assert_eq!(engine.sessions.len(), 0);
}

#[test]
fn begin_authentication_allow_list() {
    let mut engine = CeremonyEngine::new(TTL);
    register(&mut engine, "cred-1", 0);
    let known = engine.begin_authentication(Some(&alice().pid), "a".to_string(), 20).unwrap();
    assert_eq!(known.allow_credential_ids, vec!["cred-1".to_string()]);
    let discoverable = engine.begin_authentication(None, "b".to_string(), 20).unwrap();
    assert!(discoverable.allow_credential_ids.is_empty());
    assert_eq!(discoverable.challenge, "b");
}

#[test]
fn authentication_counter_policy() {
    let mut engine = CeremonyEngine::new(TTL);
    register(&mut engine, "cred-1", 5);
    assert_eq!(authenticate(&mut engine, "cred-1", 5), Err(AuthError::ReplayDetected));
    assert_eq!(authenticate(&mut engine, "cred-1", 4), Err(AuthError::ReplayDetected));
    let stored = engine.credentials.find_by_credential_id(&"cred-1".to_string()).unwrap();
    assert_eq!(stored.sign_counter, 5);
    assert_eq!(authenticate(&mut engine, "cred-1", 6), Ok(6));
    let stored = engine.credentials.find_by_credential_id(&"cred-1".to_string()).unwrap();
    assert_eq!(stored.sign_counter, 6);
}

// Expected behaviour, not a bug: zero-counter authenticators get no replay
// detection.
#[test]
fn zero_counter_authenticator_accepted_repeatedly() {
    let mut engine = CeremonyEngine::new(TTL);
    register(&mut engine, "cred-z", 0);
    for _ in 0..3 {
        assert_eq!(authenticate(&mut engine, "cred-z", 0), Ok(0));
    }
}

#[test]
fn authentication_with_unknown_credential() {
    let mut engine = CeremonyEngine::new(TTL);
    assert_eq!(authenticate(&mut engine, "ghost", 1), Err(AuthError::UnknownCredential));
    assert_eq!(engine.sessions.len(), 0);
}

#[test]
fn authentication_with_bad_signature() {
    let mut engine = CeremonyEngine::new(TTL);
    register(&mut engine, "cred-1", 0);
    let start = engine.begin_authentication(Some(&alice().pid), "a".to_string(), 20).unwrap();
    let mut seen = (String::new(), String::new());
    let err = engine
        .finish_authentication(
            &start.session_id,
            Some(&"cred-1".to_string()),
            |challenge, user, key| {
                seen = (challenge, key);
                assert_eq!(user, Some(alice().pid));
                None
            },
            21,
        )
        .unwrap_err();
    assert_eq!(err, AuthError::InvalidAssertion);
    assert_eq!(seen, ("a".to_string(), "key-of-cred-1".to_string()));
}

#[test]
fn racing_authentications_exactly_one_succeeds() {
    let mut engine = CeremonyEngine::new(TTL);
    register(&mut engine, "cred-1", 0);
    let start = engine.begin_authentication(Some(&alice().pid), "a".to_string(), 20).unwrap();
    let engine = std::sync::Mutex::new(engine);
    let results: Vec<Result<u32, AuthError>> = (0..4u32)
        .map(|n| {
            let mut guard = engine.lock().unwrap();
            guard
                .finish_authentication(&start.session_id, Some(&"cred-1".to_string()), |_, _, _| Some(n + 1), 21)
                .map(|c| c.sign_counter)
        })
        .collect();
    let successes = results.iter().filter(|r| r.is_ok()).count();
    assert_eq!(successes, 1);
    assert!(results
        .iter()
        .filter(|r| r.is_err())
        .all(|r| *r == Err(AuthError::SessionExpiredOrUnknown)));
}

#[test]
fn expired_sessions_are_swept() {
    let mut engine = CeremonyEngine::new(100);
    let start = engine.begin_registration(Some(&alice()), "c".to_string(), 0).unwrap();
    assert_eq!(engine.sessions.sweep_expired(200), 1);
    let err = engine
        .finish_registration(&start.session_id, None, |_| Some(attested("cred-1", 0)), 50)
        .unwrap_err();
    assert_eq!(err, AuthError::SessionExpiredOrUnknown);
}

#[test]
fn assertion_naming_no_credential() {
    let mut engine = CeremonyEngine::new(TTL);
    register(&mut engine, "cred-1", 0);
    let start = engine.begin_authentication(None, "d".to_string(), 20).unwrap();
    let err = engine
        .finish_authentication(&start.session_id, None, |_, _, _| Some(1), 21)
        .unwrap_err();
    assert_eq!(err, AuthError::InvalidAssertion);
    assert_eq!(engine.sessions.len(), 0);
}

#[test]
fn discoverable_session_hands_no_user_to_verifier() {
    let mut engine = CeremonyEngine::new(TTL);
    register(&mut engine, "cred-1", 0);
    let start = engine.begin_authentication(None, "d".to_string(), 20).unwrap();
    let mut bound = Some(String::new());
    let cred = engine
        .finish_authentication(
            &start.session_id,
            Some(&"cred-1".to_string()),
            |_, user, _| {
                bound = user;
                Some(3)
            },
            21,
        )
        .unwrap();
    assert_eq!(bound, None);
    assert_eq!(cred.sign_counter, 3);
}
