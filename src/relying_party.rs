use vstd::prelude::*;

use std::time::Duration;
use webauthn_rs::prelude::{
    AuthenticationResult, Credential as KeyRecord, CredentialID, DiscoverableAuthentication,
    DiscoverableKey, Passkey, PasskeyAuthentication, PasskeyRegistration, PublicKeyCredential,
    RegisterPublicKeyCredential, Url, Uuid,
};
use webauthn_rs::{Webauthn, WebauthnBuilder};

use crate::ceremony::{
    authentication_session, credential_ids, ids_of, lemma_registration_round_trip,
    registration_session, AttestedCredential, AuthenticationStart, CeremonyEngine,
    RegistrationStart,
};
use crate::credential::{
    counter_accepted, counter_updated, has_credential, lemma_lookup_at, lookup, owned_by, position,
    Credential,
};
use crate::error::AuthError;
use crate::session::{after_take, deadline, has_session, CeremonySession, SessionType};
use crate::shared_types::User;

verus! {

/// webauthn-rs's configured relying party (its id, origins and policies),
/// carried through unopened.
#[verifier::external_type_specification]
#[verifier::external_body]
pub struct ExWebauthn(Webauthn);

/// webauthn-rs's verified passkey, carried through unopened.
#[verifier::external_type_specification]
#[verifier::external_body]
pub struct ExPasskey(Passkey);

/// webauthn-rs's outcome of a verified assertion, carried through unopened.
#[verifier::external_type_specification]
#[verifier::external_body]
pub struct ExAuthenticationResult(AuthenticationResult);

/// The base64url credential id that a client's assertion (JSON text) names,
/// if the text reads as an assertion.
pub uninterp spec fn asserted_id_of(response: Seq<char>) -> Option<Seq<char>>;

/// The relying party the ceremonies are checked against.
///
/// It is only ever built by `RelyingParty::new`, so its authenticator
/// timeout always fits the `u32` milliseconds webauthn-rs writes into its
/// challenges.
pub struct RelyingParty {
    inner: Webauthn,
}

/// What webauthn-rs records about a newly verified key.
struct KeyFacts {
    credential_id: String,
    public_key: String,
    sign_counter: u32,
    backup_eligible: bool,
    backup_state: bool,
    user_verified: bool,
}

/// Relies on Url::parse and WebauthnBuilder (new, timeout, build): a relying
/// party for `rp_id` answering to `origin`, with the given authenticator
/// timeout. `None` when the origin is no URL or `rp_id` is not its domain.
#[verifier::external_body]
fn build_relying_party(rp_id: &String, origin: &String, timeout_ms: u32) -> (r: Option<Webauthn>) {
    let origin = Url::parse(origin).ok()?;
    let builder = WebauthnBuilder::new(rp_id, &origin).ok()?;
    builder.timeout(Duration::from_millis(timeout_ms as u64)).build().ok()
}

/// Relies on Webauthn::start_passkey_registration: issues the options for the
/// client and the server-side state, both rendered as JSON by serde_json.
/// `None` when the user id is no UUID, an excluded id is no base64, or the
/// relying party refuses.
#[verifier::external_body]
fn registration_options(
    rp: &RelyingParty,
    user: &String,
    name: &String,
    display_name: &String,
    exclude: &Vec<String>,
) -> (r: Option<(String, String)>) {
    let uuid = Uuid::parse_str(user).ok()?;
    let ids: Vec<CredentialID> = serde_json::from_value(serde_json::to_value(exclude).ok()?).ok()?;
    let (options, state) = rp.inner.start_passkey_registration(uuid, name, display_name, Some(ids)).ok()?;
    Some((serde_json::to_string(&options).ok()?, serde_json::to_string(&state).ok()?))
}

/// Relies on Webauthn::finish_passkey_registration: checks the client's
/// attestation (JSON) against the registration state (JSON). `None` when
/// either does not parse or the check fails.
#[verifier::external_body]
fn check_attestation(rp: &RelyingParty, state: &String, response: &String) -> (r: Option<Passkey>) {
    let state: PasskeyRegistration = serde_json::from_str(state).ok()?;
    let response: RegisterPublicKeyCredential = serde_json::from_str(response).ok()?;
    rp.inner.finish_passkey_registration(&response, &state).ok()
}

/// Relies on webauthn-rs's credential record behind a passkey (its id,
/// counter and flags), with the id written as the unpadded base64url text
/// serde_json renders it as, and the passkey itself rendered as JSON.
#[verifier::external_body]
fn key_facts(pk: &Passkey) -> (r: Option<KeyFacts>) {
    let record = KeyRecord::from(pk.clone());
    Some(KeyFacts {
        credential_id: serde_json::to_value(&record.cred_id).ok()?.as_str()?.to_owned(),
        public_key: serde_json::to_string(pk).ok()?,
        sign_counter: record.counter,
        backup_eligible: record.backup_eligible,
        backup_state: record.backup_state,
        user_verified: record.user_verified,
    })
}

/// Relies on serde_json to read back a passkey stored as JSON, and on
/// webauthn-rs's credential record behind it to set its counter.
#[verifier::external_body]
fn stored_passkey(text: &String, counter: u32) -> (r: Option<Passkey>) {
    let mut record = KeyRecord::from(serde_json::from_str::<Passkey>(text).ok()?);
    record.counter = counter;
    Some(Passkey::from(record))
}

/// Relies on Webauthn::start_passkey_authentication: issues the options for
/// the client and the server-side state for the given passkeys, both
/// rendered as JSON. `None` when the relying party refuses.
#[verifier::external_body]
fn authentication_options(rp: &RelyingParty, keys: &Vec<Passkey>) -> (r: Option<(String, String)>) {
    let (options, state) = rp.inner.start_passkey_authentication(keys).ok()?;
    Some((serde_json::to_string(&options).ok()?, serde_json::to_string(&state).ok()?))
}

/// Relies on Webauthn::start_discoverable_authentication: issues the options
/// and the server-side state for a ceremony where the authenticator names
/// the credential, both rendered as JSON.
#[verifier::external_body]
fn discoverable_options(rp: &RelyingParty) -> (r: Option<(String, String)>) {
    let (options, state) = rp.inner.start_discoverable_authentication().ok()?;
    Some((serde_json::to_string(&options).ok()?, serde_json::to_string(&state).ok()?))
}

/// Relies on serde_json to read the client's assertion (JSON) and render its
/// raw credential id as unpadded base64url text; the result depends on the
/// text alone.
#[verifier::external_body]
fn asserted_credential_id(response: &String) -> (r: Option<String>)
    ensures
        asserted_id_of(response@) == match r {
            Some(id) => Some(id@),
            None => None::<Seq<char>>,
        },
{
    let response: PublicKeyCredential = serde_json::from_str(response).ok()?;
    Some(serde_json::to_value(&response.raw_id).ok()?.as_str()?.to_owned())
}

/// Relies on Webauthn::finish_passkey_authentication: checks the client's
/// assertion (JSON) against the authentication state (JSON). `None` when
/// either does not parse or the check fails.
#[verifier::external_body]
fn check_assertion(rp: &RelyingParty, state: &String, response: &String) -> (r: Option<
    AuthenticationResult,
>) {
    let state: PasskeyAuthentication = serde_json::from_str(state).ok()?;
    let response: PublicKeyCredential = serde_json::from_str(response).ok()?;
    rp.inner.finish_passkey_authentication(&response, &state).ok()
}

/// Relies on Webauthn::finish_discoverable_authentication: checks the
/// client's assertion (JSON) against the discoverable state (JSON) and the
/// passkey the assertion names. `None` when either does not parse or the
/// check fails.
#[verifier::external_body]
fn check_discoverable_assertion(
    rp: &RelyingParty,
    state: &String,
    response: &String,
    key: &Passkey,
) -> (r: Option<AuthenticationResult>) {
    let state: DiscoverableAuthentication = serde_json::from_str(state).ok()?;
    let response: PublicKeyCredential = serde_json::from_str(response).ok()?;
    let keys = [DiscoverableKey::from(key.clone())];
    rp.inner.finish_discoverable_authentication(&response, state, &keys).ok()
}

/// Relies on AuthenticationResult::counter: the counter the authenticator
/// signed.
#[verifier::external_body]
fn signed_counter(result: &AuthenticationResult) -> (r: u32) {
    result.counter()
}

impl RelyingParty {
    /// The relying party `rp_id`, answering to the web origin `origin`, that
    /// gives authenticators `timeout_ms` milliseconds to respond. `None` when
    /// the origin is no URL or `rp_id` is not its domain.
    pub fn new(rp_id: &String, origin: &String, timeout_ms: u32) -> (r: Option<RelyingParty>) {
        match build_relying_party(rp_id, origin, timeout_ms) {
            Some(inner) => Some(RelyingParty { inner }),
            None => None,
        }
    }
}

/// The device class a key belongs to: one that may be synchronised between
/// devices is a multi-device credential.
pub open spec fn device_class(backup_eligible: bool) -> Seq<char> {
    if backup_eligible {
        "multi_device"@
    } else {
        "single_device"@
    }
}

pub fn device_type_for(backup_eligible: bool) -> (r: String)
    ensures
        r@ == device_class(backup_eligible),
{
    if backup_eligible {
        "multi_device".to_owned()
    } else {
        "single_device".to_owned()
    }
}

/// The attested credential in a client's registration `response`, when it
/// verifies against the registration `state`.
fn attested(rp: &RelyingParty, state: String, response: &String) -> (r: Option<AttestedCredential>)
    ensures
        r is Some ==> r->Some_0.device_type@ == device_class(r->Some_0.backup_eligible),
{
    let passkey = check_attestation(rp, &state, response)?;
    let facts = key_facts(&passkey)?;
    Some(AttestedCredential {
        credential_id: facts.credential_id,
        public_key: facts.public_key,
        sign_counter: facts.sign_counter,
        backup_eligible: facts.backup_eligible,
        backup_state: facts.backup_state,
        device_type: device_type_for(facts.backup_eligible),
        user_verified: facts.user_verified,
    })
}

/// The counter signed in a client's assertion `response`, when it verifies
/// against the authentication `state`. A session bound to a user carries its
/// passkeys in the state; a discoverable one is checked against the stored
/// `key` the assertion names.
///
/// The replay policy is this library's: webauthn-rs is handed keys with
/// counter zero so that its own counter check, which would report a replay
/// as a bad assertion, never decides in its place.
fn verified_counter(
    rp: &RelyingParty,
    state: String,
    user: Option<String>,
    key: String,
    response: &String,
) -> (r: Option<u32>) {
    let result = match user {
        Some(_) => check_assertion(rp, &state, response)?,
        None => {
            let passkey = stored_passkey(&key, 0)?;
            check_discoverable_assertion(rp, &state, response, &passkey)?
        },
    };
    Some(signed_counter(&result))
}

/// Begins a passkey registration for `user` (`None` when the account did
/// not resolve) and returns the start record with the client options (JSON).
///
/// The options exclude the user's existing credentials; the registration
/// state the relying party issues becomes the session's challenge.
pub fn start_passkey_registration(
    engine: &mut CeremonyEngine,
    rp: &RelyingParty,
    user: Option<&User>,
    now: u64,
) -> (r: Result<(RegistrationStart, String), AuthError>)
    requires
        old(engine).wf(),
    ensures
        final(engine).wf(),
        final(engine).credentials == old(engine).credentials,
        final(engine).session_ttl == old(engine).session_ttl,
        user is None ==> r == Err::<(RegistrationStart, String), AuthError>(AuthError::UnknownUser)
            && final(engine).sessions@ == old(engine).sessions@,
        user is Some ==> match r {
            Ok((start, _)) => start.exclude_credential_ids@ == credential_ids(
                owned_by(old(engine).credentials@, user.unwrap().pid@),
            ) && !has_session(old(engine).sessions@, start.session_id@) && final(engine).sessions@
                == old(engine).sessions@.push(
                (CeremonySession {
                    session_id: start.session_id,
                    kind: SessionType::Registration,
                    user_id: Some(user.unwrap().pid),
                    challenge: start.challenge,
                    expires_at: deadline(now, old(engine).session_ttl),
                }),
            ),
            Err(e) => final(engine).sessions@ == old(engine).sessions@ && (e
                == AuthError::ChallengeUnavailable || e == AuthError::SessionIdCollision && old(
                engine,
            ).sessions@.len() > 0),
        },
{
    let account = match user {
        Some(u) => u,
        None => return Err(AuthError::UnknownUser),
    };
    let owned = engine.credentials.find_by_user(&account.pid);
    let exclude = ids_of(&owned);
    let (options, state) = match registration_options(
        rp,
        &account.pid,
        &account.email,
        &account.name,
        &exclude,
    ) {
        Some(pair) => pair,
        None => return Err(AuthError::ChallengeUnavailable),
    };
    let start = engine.begin_registration(Some(account), state, now)?;
    Ok((start, options))
}

/// Completes a passkey registration with the client's `response` (JSON).
///
/// The session is consumed whatever happens. Without a live registration
/// session the result is `SessionExpiredOrUnknown`; with one, the relying
/// party's verdict decides between `InvalidAttestation`,
/// `DuplicateCredential` and a new credential for the session's user, which
/// is then stored and found by its id.
pub fn finish_passkey_registration(
    engine: &mut CeremonyEngine,
    rp: &RelyingParty,
    session_id: &String,
    response: &String,
    display_name: Option<String>,
    now: u64,
) -> (r: Result<Credential, AuthError>)
    requires
        old(engine).wf(),
    ensures
        final(engine).wf(),
        final(engine).sessions@ == after_take(old(engine).sessions@, session_id@),
        match registration_session(old(engine).sessions@, session_id@, now) {
            None => r == Err::<Credential, AuthError>(AuthError::SessionExpiredOrUnknown)
                && final(engine).credentials@ == old(engine).credentials@,
            Some(s) => match r {
                Ok(c) => !has_credential(old(engine).credentials@, c.credential_id@) && s.user_id
                    == Some(c.user_id) && c.display_name == display_name && c.created_at == now
                    && c.updated_at == now && c.device_type@ == device_class(c.backup_eligible)
                    && final(engine).credentials@ == old(engine).credentials@.push(c) && lookup(
                    final(engine).credentials@,
                    c.credential_id@,
                ) == Some(c),
                Err(e) => (e == AuthError::InvalidAttestation || e == AuthError::DuplicateCredential)
                    && final(engine).credentials@ == old(engine).credentials@,
            },
        },
{
    let check = |state: String| -> (o: Option<AttestedCredential>)
        ensures
            o is Some ==> o->Some_0.device_type@ == device_class(o->Some_0.backup_eligible),
        { attested(rp, state, response) };
    let ghost before = engine.credentials;
    let r = engine.finish_registration(session_id, display_name, check, now);
    proof {
        if let Some(s) = registration_session(old(engine).sessions@, session_id@, now) {
            let o = choose|o: Option<AttestedCredential>|
                #[trigger] check.ensures((s.challenge,), o)
                    && crate::ceremony::registration_settles(
                    before,
                    engine.credentials,
                    o,
                    s.user_id.unwrap(),
                    display_name,
                    now,
                    r,
                );
            if r is Ok {
                lemma_registration_round_trip(
                    before,
                    engine.credentials,
                    o.unwrap(),
                    s.user_id.unwrap(),
                    display_name,
                    now,
                    r,
                );
            }
        }
    }
    r
}

/// Begins a passkey authentication and returns the start record with the
/// client options (JSON).
///
/// With a user id the user's stored passkeys make up the allow-list; without
/// one the ceremony is discoverable and the authenticator names the
/// credential. A stored key that no longer reads back as a passkey stops the
/// ceremony before it starts.
pub fn start_passkey_authentication(
    engine: &mut CeremonyEngine,
    rp: &RelyingParty,
    user_id: Option<&String>,
    now: u64,
) -> (r: Result<(AuthenticationStart, String), AuthError>)
    requires
        old(engine).wf(),
    ensures
        final(engine).wf(),
        final(engine).credentials == old(engine).credentials,
        final(engine).session_ttl == old(engine).session_ttl,
        match r {
            Ok((start, _)) => start.allow_credential_ids@ == (match user_id {
                Some(u) => credential_ids(owned_by(old(engine).credentials@, u@)),
                None => Seq::<String>::empty(),
            }) && !has_session(old(engine).sessions@, start.session_id@) && final(engine).sessions@
                == old(engine).sessions@.push(
                (CeremonySession {
                    session_id: start.session_id,
                    kind: SessionType::Authentication,
                    user_id: match user_id {
                        Some(u) => Some(*u),
                        None => None,
                    },
                    challenge: start.challenge,
                    expires_at: deadline(now, old(engine).session_ttl),
                }),
            ),
            Err(e) => final(engine).sessions@ == old(engine).sessions@ && (e
                == AuthError::ChallengeUnavailable || e == AuthError::SessionIdCollision && old(
                engine,
            ).sessions@.len() > 0),
        },
{
    let issued = match user_id {
        Some(u) => {
            let owned = engine.credentials.find_by_user(u);
            let mut keys: Vec<Passkey> = Vec::new();
            let mut i: usize = 0;
            while i < owned.len()
                invariant
                    i <= owned@.len(),
                    *engine == *old(engine),
                    engine.wf(),
                decreases owned@.len() - i,
            {
                match stored_passkey(&owned[i].public_key, 0) {
                    Some(k) => keys.push(k),
                    None => return Err(AuthError::ChallengeUnavailable),
                }
                i = i + 1;
            }
            authentication_options(rp, &keys)
        },
        None => discoverable_options(rp),
    };
    let (options, state) = match issued {
        Some(pair) => pair,
        None => return Err(AuthError::ChallengeUnavailable),
    };
    let start = engine.begin_authentication(user_id, state, now)?;
    Ok((start, options))
}

/// Completes a passkey authentication with the client's `response` (JSON).
///
/// The session is consumed whatever happens. Without a live authentication
/// session the result is `SessionExpiredOrUnknown`; a response naming no
/// credential is `InvalidAssertion`, one naming an unstored credential is
/// `UnknownCredential`. Otherwise the relying party checks the signature and
/// the replay policy decides on the reported counter.
pub fn finish_passkey_authentication(
    engine: &mut CeremonyEngine,
    rp: &RelyingParty,
    session_id: &String,
    response: &String,
    now: u64,
) -> (r: Result<Credential, AuthError>)
    requires
        old(engine).wf(),
    ensures
        final(engine).wf(),
        final(engine).sessions@ == after_take(old(engine).sessions@, session_id@),
        match authentication_session(old(engine).sessions@, session_id@, now) {
            None => r == Err::<Credential, AuthError>(AuthError::SessionExpiredOrUnknown)
                && final(engine).credentials@ == old(engine).credentials@,
            Some(_) => match asserted_id_of(response@) {
                None => r == Err::<Credential, AuthError>(AuthError::InvalidAssertion)
                    && final(engine).credentials@ == old(engine).credentials@,
                Some(cid) => if !has_credential(old(engine).credentials@, cid) {
                    r == Err::<Credential, AuthError>(AuthError::UnknownCredential)
                        && final(engine).credentials@ == old(engine).credentials@
                } else {
                    match r {
                        Ok(c) => c.credential_id@ == cid && counter_accepted(
                            lookup(old(engine).credentials@, cid)->Some_0.sign_counter,
                            c.sign_counter,
                        ) && c == counter_updated(
                            lookup(old(engine).credentials@, cid)->Some_0,
                            c.sign_counter,
                            now,
                        ) && final(engine).credentials@ == old(engine).credentials@.update(
                            position(old(engine).credentials@, cid),
                            c,
                        ),
                        Err(e) => (e == AuthError::InvalidAssertion || e
                            == AuthError::ReplayDetected) && final(engine).credentials@ == old(
                            engine,
                        ).credentials@,
                    }
                },
            },
        },
{
    let asserted = asserted_credential_id(response);
    let check = |state: String, user: Option<String>, key: String| -> (o: Option<u32>)
        { verified_counter(rp, state, user, key, response) };
    let ghost before = engine.credentials;
    let r = match &asserted {
        Some(id) => engine.finish_authentication(session_id, Some(id), check, now),
        None => engine.finish_authentication(session_id, None, check, now),
    };
    proof {
        if let Some(s) = authentication_session(old(engine).sessions@, session_id@, now) {
            if let Some(cid) = asserted_id_of(response@) {
                if has_credential(before@, cid) {
                    let k = position(before@, cid);
                    lemma_lookup_at(before@, k);
                }
            }
        }
    }
    r
}

} // verus!
