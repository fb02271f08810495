use vstd::prelude::*;

use crate::shared_types::ValidationError;

verus! {

/// Every way an authentication ceremony or a guarded request can fail.
///
/// All of them end the current attempt: none is retried internally.
#[derive(Debug, Clone, Copy, PartialEq, Eq, Structural)]
pub enum AuthError {
    /// The user named at the start of a registration does not resolve.
    UnknownUser,
    /// The authenticator's credential id is already registered.
    DuplicateCredential,
    /// No live ceremony session of the expected kind has this id.
    SessionExpiredOrUnknown,
    /// The attestation did not verify against the session's challenge.
    InvalidAttestation,
    /// The asserted credential id is not registered.
    UnknownCredential,
    /// The assertion did not verify against the stored key and challenge.
    InvalidAssertion,
    /// The reported signature counter did not move forward.
    ReplayDetected,
    /// The client exceeded its request budget for the current window.
    RateLimited,
    /// The freshly drawn session id is already in use.
    SessionIdCollision,
    /// The relying party could not issue a challenge for the ceremony.
    ChallengeUnavailable,
}

/// The code a caller is shown for `e`. Unknown users and credentials, and
/// failed or replayed assertions, all read as one generic failure, so that a
/// caller cannot probe which users or credentials exist.
pub open spec fn public_code(e: AuthError) -> Seq<char> {
    match e {
        AuthError::UnknownUser => "AUTHENTICATION_FAILED"@,
        AuthError::UnknownCredential => "AUTHENTICATION_FAILED"@,
        AuthError::InvalidAssertion => "AUTHENTICATION_FAILED"@,
        AuthError::ReplayDetected => "AUTHENTICATION_FAILED"@,
        AuthError::InvalidAttestation => "REGISTRATION_FAILED"@,
        AuthError::DuplicateCredential => "DUPLICATE_CREDENTIAL"@,
        AuthError::SessionExpiredOrUnknown => "SESSION_EXPIRED"@,
        AuthError::SessionIdCollision => "SESSION_EXPIRED"@,
        AuthError::ChallengeUnavailable => "CEREMONY_UNAVAILABLE"@,
        AuthError::RateLimited => "RATE_LIMITED"@,
    }
}

/// The message a caller is shown for `e`; it reveals no more than the code.
pub open spec fn public_message(e: AuthError) -> Seq<char> {
    match e {
        AuthError::UnknownUser => "Authentication failed"@,
        AuthError::UnknownCredential => "Authentication failed"@,
        AuthError::InvalidAssertion => "Authentication failed"@,
        AuthError::ReplayDetected => "Authentication failed"@,
        AuthError::InvalidAttestation => "Registration failed"@,
        AuthError::DuplicateCredential => "This authenticator is already registered"@,
        AuthError::SessionExpiredOrUnknown => "The ceremony expired; start again"@,
        AuthError::SessionIdCollision => "The ceremony expired; start again"@,
        AuthError::ChallengeUnavailable => "The ceremony could not be started"@,
        AuthError::RateLimited => "Too many requests"@,
    }
}

/// The HTTP status a caller is answered with for `e`.
pub open spec fn public_status(e: AuthError) -> u16 {
    match e {
        AuthError::RateLimited => 429,
        AuthError::DuplicateCredential => 409,
        AuthError::InvalidAttestation => 400,
        AuthError::ChallengeUnavailable => 503,
        _ => 401,
    }
}

impl AuthError {
    pub fn code(&self) -> (r: &'static str)
        ensures
            r@ == public_code(*self),
    {
        match self {
            AuthError::UnknownUser => "AUTHENTICATION_FAILED",
            AuthError::UnknownCredential => "AUTHENTICATION_FAILED",
            AuthError::InvalidAssertion => "AUTHENTICATION_FAILED",
            AuthError::ReplayDetected => "AUTHENTICATION_FAILED",
            AuthError::InvalidAttestation => "REGISTRATION_FAILED",
            AuthError::DuplicateCredential => "DUPLICATE_CREDENTIAL",
            AuthError::SessionExpiredOrUnknown => "SESSION_EXPIRED",
            AuthError::SessionIdCollision => "SESSION_EXPIRED",
            AuthError::ChallengeUnavailable => "CEREMONY_UNAVAILABLE",
            AuthError::RateLimited => "RATE_LIMITED",
        }
    }

    pub fn message(&self) -> (r: &'static str)
        ensures
            r@ == public_message(*self),
    {
        match self {
            AuthError::UnknownUser => "Authentication failed",
            AuthError::UnknownCredential => "Authentication failed",
            AuthError::InvalidAssertion => "Authentication failed",
            AuthError::ReplayDetected => "Authentication failed",
            AuthError::InvalidAttestation => "Registration failed",
            AuthError::DuplicateCredential => "This authenticator is already registered",
            AuthError::SessionExpiredOrUnknown => "The ceremony expired; start again",
            AuthError::SessionIdCollision => "The ceremony expired; start again",
            AuthError::ChallengeUnavailable => "The ceremony could not be started",
            AuthError::RateLimited => "Too many requests",
        }
    }

    pub fn status(&self) -> (r: u16)
        ensures
            r == public_status(*self),
    {
        match self {
            AuthError::RateLimited => 429,
            AuthError::DuplicateCredential => 409,
            AuthError::InvalidAttestation => 400,
            AuthError::ChallengeUnavailable => 503,
            _ => 401,
        }
    }

    /// The caller-facing error entry for this error.
    pub fn to_validation_error(&self) -> (r: ValidationError)
        ensures
            r.field@ == "webauthn"@,
            r.code@ == public_code(*self),
            r.message@ == public_message(*self),
    {
        ValidationError {
            field: "webauthn".to_owned(),
            message: self.message().to_owned(),
            code: self.code().to_owned(),
        }
    }
}

/// Callers cannot tell an unknown user from an unknown credential, nor
/// either from a bad or replayed assertion.
pub proof fn lemma_no_enumeration()
    ensures
        public_code(AuthError::UnknownUser) == public_code(AuthError::UnknownCredential),
        public_code(AuthError::UnknownCredential) == public_code(AuthError::InvalidAssertion),
        public_code(AuthError::InvalidAssertion) == public_code(AuthError::ReplayDetected),
        public_message(AuthError::UnknownUser) == public_message(AuthError::UnknownCredential),
        public_message(AuthError::UnknownCredential) == public_message(AuthError::InvalidAssertion),
        public_message(AuthError::InvalidAssertion) == public_message(AuthError::ReplayDetected),
        public_status(AuthError::UnknownUser) == public_status(AuthError::UnknownCredential),
{
}

} // verus!
