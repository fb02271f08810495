use passkey_auth::error::AuthError;
use passkey_auth::security::{check_api_key, security_headers};
use passkey_auth::shared_types::ApiResponse;

#[test]
fn enumeration_errors_look_alike() {
    let unknown_user = AuthError::UnknownUser.to_validation_error();
    let unknown_cred = AuthError::UnknownCredential.to_validation_error();
    assert_eq!(unknown_user.code, unknown_cred.code);
    assert_eq!(unknown_user.message, unknown_cred.message);
    assert_eq!(unknown_user.code, "AUTHENTICATION_FAILED");
    assert_eq!(AuthError::ReplayDetected.code(), "AUTHENTICATION_FAILED");
    assert_eq!(AuthError::UnknownUser.status(), 401);
}

#[test]
fn rate_limited_maps_to_429() {
    assert_eq!(AuthError::RateLimited.status(), 429);
    assert_eq!(AuthError::RateLimited.code(), "RATE_LIMITED");
    assert_eq!(AuthError::RateLimited.message(), "Too many requests");
}

#[test]
fn other_error_codes() {
    assert_eq!(AuthError::DuplicateCredential.status(), 409);
    assert_eq!(AuthError::InvalidAttestation.code(), "REGISTRATION_FAILED");
    assert_eq!(AuthError::SessionExpiredOrUnknown.code(), "SESSION_EXPIRED");
    assert_eq!(AuthError::ChallengeUnavailable.status(), 503);
}

#[test]
fn failure_envelope() {
    let r: ApiResponse<u32> = ApiResponse::failure(AuthError::SessionExpiredOrUnknown);
    assert!(!r.success);
    assert!(r.data.is_none());
    let errors = r.errors.unwrap();
    assert_eq!(errors.len(), 1);
    assert_eq!(errors[0].code, "SESSION_EXPIRED");
    assert_eq!(errors[0].field, "webauthn");
    assert_eq!(r.message, "The ceremony expired; start again");
}

#[test]
fn success_envelope() {
    let r = ApiResponse::success(7u32, "ok".to_string());
    assert!(r.success);
    assert_eq!(r.data, Some(7));
    assert!(r.errors.is_none());
}

#[test]
fn header_table_contents() {
    let headers = security_headers();
    assert_eq!(headers.len(), 7);
    assert!(headers.contains(&("X-Frame-Options", "DENY")));
    assert!(headers.contains(&("X-Content-Type-Options", "nosniff")));
    assert!(headers.contains(&("X-API-Version", "v1.0")));
}

#[test]
fn api_key_decisions() {
    let key = Some("dev-api-key-12345".to_string());
    let xhr = Some("XMLHttpRequest".to_string());
    assert_eq!(check_api_key(key.clone(), xhr.clone()), Ok(()));
    assert_eq!(check_api_key(None, xhr.clone()), Err(401));
    assert_eq!(check_api_key(Some("wrong".to_string()), xhr), Err(401));
    assert_eq!(check_api_key(key, None), Err(400));
}
