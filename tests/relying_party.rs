use passkey_auth::ceremony::CeremonyEngine;
use passkey_auth::error::AuthError;
use passkey_auth::credential::Credential;
use passkey_auth::relying_party::{
    device_type_for, finish_passkey_authentication, finish_passkey_registration,
    start_passkey_authentication, start_passkey_registration, RelyingParty,
};
use passkey_auth::shared_types::User;

fn relying_party() -> RelyingParty {
    RelyingParty::new(&"auth.example.com".to_string(), &"https://auth.example.com".to_string(), 60_000)
        .unwrap()
}

fn bob() -> User {
    User {
        pid: "6f1c2a0e-8b7d-4e3a-9c55-0a1b2c3d4e5f".to_string(),
        email: "bob@example.com".to_string(),
        name: "Bob".to_string(),
        created_at: None,
        updated_at: None,
    }
}

#[test]
fn device_types() {
    assert_eq!(device_type_for(true), "multi_device");
    assert_eq!(device_type_for(false), "single_device");
}

#[test]
fn registration_options_carry_a_challenge() {
    let rp = relying_party();
    let mut engine = CeremonyEngine::new(300_000);
    let (start, options) = start_passkey_registration(&mut engine, &rp, Some(&bob()), 0).unwrap();
    assert!(options.contains("challenge"));
    assert!(!start.challenge.is_empty());
    assert_ne!(start.challenge, options);
    assert_eq!(engine.sessions.len(), 1);
}

#[test]
fn registration_for_unresolved_user() {
    let rp = relying_party();
    let mut engine = CeremonyEngine::new(300_000);
    let err = start_passkey_registration(&mut engine, &rp, None, 0).unwrap_err();
    assert_eq!(err, AuthError::UnknownUser);
}

#[test]
fn registration_with_malformed_response_consumes_session() {
    let rp = relying_party();
    let mut engine = CeremonyEngine::new(300_000);
    let (start, _) = start_passkey_registration(&mut engine, &rp, Some(&bob()), 0).unwrap();
    let err = finish_passkey_registration(
        &mut engine,
        &rp,
        &start.session_id,
        &"{}".to_string(),
        None,
        10,
    )
    .unwrap_err();
    assert_eq!(err, AuthError::InvalidAttestation);
    assert_eq!(engine.sessions.len(), 0);
    assert_eq!(engine.credentials.len(), 0);
}

#[test]
fn authentication_options_without_passkeys() {
    let rp = relying_party();
    let mut engine = CeremonyEngine::new(300_000);
    let (start, options) = start_passkey_authentication(&mut engine, &rp, Some(&bob().pid), 0).unwrap();
    assert!(start.allow_credential_ids.is_empty());
    assert!(options.contains("challenge"));
    assert_ne!(start.challenge, options);
    assert_eq!(engine.sessions.len(), 1);
}

#[test]
fn authentication_with_malformed_response_consumes_session() {
    let rp = relying_party();
    let mut engine = CeremonyEngine::new(300_000);
    let start = engine.begin_authentication(None, "{}".to_string(), 0).unwrap();
    let err = finish_passkey_authentication(&mut engine, &rp, &start.session_id, &"not json".to_string(), 5)
        .unwrap_err();
    assert_eq!(err, AuthError::InvalidAssertion);
    assert_eq!(engine.sessions.len(), 0);
    let again = finish_passkey_authentication(&mut engine, &rp, &start.session_id, &"not json".to_string(), 6)
        .unwrap_err();
    assert_eq!(again, AuthError::SessionExpiredOrUnknown);
}

#[test]
fn registration_for_user_id_that_is_no_uuid() {
    let rp = relying_party();
    let mut engine = CeremonyEngine::new(300_000);
    let mut user = bob();
    user.pid = "not-a-uuid".to_string();
    let err = start_passkey_registration(&mut engine, &rp, Some(&user), 0).unwrap_err();
    assert_eq!(err, AuthError::ChallengeUnavailable);
    assert_eq!(engine.sessions.len(), 0);
}

#[test]
fn relying_party_configuration_is_checked() {
    let id = "auth.example.com".to_string();
    assert!(RelyingParty::new(&id, &"not a url".to_string(), 60_000).is_none());
    assert!(RelyingParty::new(&id, &"https://other.example.org".to_string(), 60_000).is_none());
    assert!(RelyingParty::new(&id, &"https://login.auth.example.com".to_string(), u32::MAX).is_some());
}

#[test]
fn discoverable_authentication_options() {
    let rp = relying_party();
    let mut engine = CeremonyEngine::new(300_000);
    let (start, options) = start_passkey_authentication(&mut engine, &rp, None, 0).unwrap();
    assert!(start.allow_credential_ids.is_empty());
    assert!(options.contains("challenge"));
    assert_eq!(engine.sessions.len(), 1);
}

#[test]
fn assertion_id_is_read_from_raw_id() {
    let rp = relying_party();
    let mut engine = CeremonyEngine::new(300_000);
    engine
        .credentials
        .put(Credential {
            id: 0,
            user_id: bob().pid,
            credential_id: "AQID".to_string(),
            public_key: "{}".to_string(),
            sign_counter: 0,
            backup_eligible: false,
            backup_state: false,
            device_type: "single_device".to_string(),
            user_verified: true,
            display_name: None,
            created_at: 0,
            updated_at: 0,
        })
        .unwrap();
    let (start, _) = start_passkey_authentication(&mut engine, &rp, None, 0).unwrap();
    let response = r#"{"id":"AQID","rawId":"AQID","response":{"authenticatorData":"AA","clientDataJSON":"AA","signature":"AA","userHandle":null},"type":"public-key"}"#;
    let err = finish_passkey_authentication(&mut engine, &rp, &start.session_id, &response.to_string(), 5)
        .unwrap_err();
    assert_eq!(err, AuthError::InvalidAssertion);
    let (start, _) = start_passkey_authentication(&mut engine, &rp, None, 10).unwrap();
    let unknown = response.replace("AQID", "BAUG");
    let err = finish_passkey_authentication(&mut engine, &rp, &start.session_id, &unknown, 15)
        .unwrap_err();
    assert_eq!(err, AuthError::UnknownCredential);
    assert_eq!(engine.credentials.find_by_credential_id(&"AQID".to_string()).unwrap().sign_counter, 0);
}
