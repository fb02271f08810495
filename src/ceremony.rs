use vstd::prelude::*;

use crate::credential::{
    counter_accepted, counter_updated, has_credential, lookup, owned_by, position, Credential,
    CredentialStore,
};
use crate::error::AuthError;
use crate::session::{after_take, deadline, taken, CeremonySession, SessionStore, SessionType};
use crate::shared_types::User;

verus! {

/// What a verified attestation says about the new credential.
#[derive(Debug, Clone)]
pub struct AttestedCredential {
    pub credential_id: String,
    pub public_key: String,
    pub sign_counter: u32,
    pub backup_eligible: bool,
    pub backup_state: bool,
    pub device_type: String,
    pub user_verified: bool,
}

/// Handed to the caller when a registration begins.
#[derive(Debug, Clone)]
pub struct RegistrationStart {
    pub session_id: String,
    pub challenge: String,
    /// Credentials the user already has, so the authenticator can refuse to
    /// register the same physical key twice.
    pub exclude_credential_ids: Vec<String>,
}

/// Handed to the caller when an authentication begins.
#[derive(Debug, Clone)]
pub struct AuthenticationStart {
    pub session_id: String,
    pub challenge: String,
    /// Credentials the authenticator may answer with; empty for a
    /// discoverable-credential ceremony.
    pub allow_credential_ids: Vec<String>,
}

/// The credential ids of `s`, in order.
pub open spec fn credential_ids(s: Seq<Credential>) -> Seq<String> {
    s.map_values(|c: Credential| c.credential_id)
}

/// The live registration session `sid` that `take` would hand back; one
/// without a bound user counts as none.
pub open spec fn registration_session(s: Seq<CeremonySession>, sid: Seq<char>, now: u64) -> Option<
    CeremonySession,
> {
    match taken(s, sid, now) {
        Some(x) => if x.kind == SessionType::Registration && x.user_id.is_some() {
            Some(x)
        } else {
            None
        },
        None => None,
    }
}

/// The live authentication session `sid` that `take` would hand back.
pub open spec fn authentication_session(
    s: Seq<CeremonySession>,
    sid: Seq<char>,
    now: u64,
) -> Option<CeremonySession> {
    match taken(s, sid, now) {
        Some(x) => if x.kind == SessionType::Authentication {
            Some(x)
        } else {
            None
        },
        None => None,
    }
}

/// The record a verified attestation produces for `user` at `now`.
pub open spec fn registered_record(
    number: u64,
    user: String,
    a: AttestedCredential,
    display_name: Option<String>,
    now: u64,
) -> Credential {
    Credential {
        id: number,
        user_id: user,
        credential_id: a.credential_id,
        public_key: a.public_key,
        sign_counter: a.sign_counter,
        backup_eligible: a.backup_eligible,
        backup_state: a.backup_state,
        device_type: a.device_type,
        user_verified: a.user_verified,
        display_name,
        created_at: now,
        updated_at: now,
    }
}

/// How the credential store and the result follow from the outcome `o` of
/// the attestation check, once a registration session for `user` was taken.
pub open spec fn registration_settles(
    before: CredentialStore,
    after: CredentialStore,
    o: Option<AttestedCredential>,
    user: String,
    display_name: Option<String>,
    now: u64,
    r: Result<Credential, AuthError>,
) -> bool {
    match o {
        None => r == Err::<Credential, AuthError>(AuthError::InvalidAttestation) && after@
            == before@,
        Some(a) => if has_credential(before@, a.credential_id@) {
            r == Err::<Credential, AuthError>(AuthError::DuplicateCredential) && after@ == before@
        } else {
            r == Ok::<Credential, AuthError>(
                registered_record(before.next_number(), user, a, display_name, now),
            ) && after@ == before@.push(
                registered_record(before.next_number(), user, a, display_name, now),
            )
        },
    }
}

/// How the credential store and the result follow from the outcome `o` of
/// the assertion check on the stored credential `cid`.
pub open spec fn authentication_settles(
    before: CredentialStore,
    after: CredentialStore,
    cid: Seq<char>,
    o: Option<u32>,
    now: u64,
    r: Result<Credential, AuthError>,
) -> bool {
    let stored = before@[position(before@, cid)];
    match o {
        None => r == Err::<Credential, AuthError>(AuthError::InvalidAssertion) && after@
            == before@,
        Some(reported) => if counter_accepted(stored.sign_counter, reported) {
            r == Ok::<Credential, AuthError>(counter_updated(stored, reported, now)) && after@
                == before@.update(position(before@, cid), counter_updated(stored, reported, now))
        } else {
            r == Err::<Credential, AuthError>(AuthError::ReplayDetected) && after@ == before@
        },
    }
}

/// Orchestrates registration and authentication ceremonies over the two
/// stores.
pub struct CeremonyEngine {
    pub credentials: CredentialStore,
    pub sessions: SessionStore,
    /// How long a ceremony session lives, in milliseconds.
    pub session_ttl: u64,
}

/// The credential ids of `creds`, in order.
pub(crate) fn ids_of(creds: &Vec<Credential>) -> (r: Vec<String>)
    ensures
        r@ == credential_ids(creds@),
{
    let mut ids: Vec<String> = Vec::new();
    let mut i: usize = 0;
    while i < creds.len()
        invariant
            i <= creds@.len(),
            ids@ == credential_ids(creds@.take(i as int)),
        decreases creds@.len() - i,
    {
        proof {
            assert(credential_ids(creds@.take(i + 1)) =~= credential_ids(creds@.take(i as int)).push(
                creds@[i as int].credential_id,
            ));
        }
        ids.push(creds[i].credential_id.clone());
        i = i + 1;
    }
    proof {
        assert(creds@.take(i as int) =~= creds@);
    }
    ids
}

impl CeremonyEngine {
    /// Both stores keep their invariants.
    pub open spec fn wf(&self) -> bool {
        self.credentials.wf() && self.sessions.wf()
    }

    pub fn new(session_ttl: u64) -> (r: CeremonyEngine)
        ensures
            r.wf(),
            r.credentials@ == Seq::<Credential>::empty(),
            r.sessions@ == Seq::<CeremonySession>::empty(),
            r.session_ttl == session_ttl,
    {
        CeremonyEngine {
            credentials: CredentialStore::new(),
            sessions: SessionStore::new(),
            session_ttl,
        }
    }

    /// Starts a registration for `user`, the account the caller resolved
    /// (`None` when it did not resolve).
    ///
    /// `challenge` is the payload the relying party generated for this
    /// ceremony. The result lists the user's existing credentials so the
    /// authenticator can avoid registering the same key twice.
    pub fn begin_registration(&mut self, user: Option<&User>, challenge: String, now: u64) -> (r:
        Result<RegistrationStart, AuthError>)
        requires
            old(self).wf(),
        ensures
            final(self).wf(),
            final(self).credentials == old(self).credentials,
            final(self).session_ttl == old(self).session_ttl,
            user.is_none() ==> r is Err && r->Err_0 == AuthError::UnknownUser && final(self).sessions@
                == old(self).sessions@,
            user.is_some() ==> match r {
                Ok(start) => start.challenge == challenge && start.exclude_credential_ids@
                    == credential_ids(owned_by(old(self).credentials@, user.unwrap().pid@))
                    && !crate::session::has_session(old(self).sessions@, start.session_id@)
                    && final(self).sessions@ == old(self).sessions@.push(
                    (CeremonySession {
                        session_id: start.session_id,
                        kind: SessionType::Registration,
                        user_id: Some(user.unwrap().pid),
                        challenge,
                        expires_at: deadline(now, old(self).session_ttl),
                    }),
                ),
                Err(e) => e == AuthError::SessionIdCollision && final(self).sessions@ == old(
                    self,
                ).sessions@ && old(self).sessions@.len() > 0,
            },
    {
        let user = match user {
            Some(u) => u,
            None => return Err(AuthError::UnknownUser),
        };
        let owned = self.credentials.find_by_user(&user.pid);
        let exclude_credential_ids = ids_of(&owned);
        let echoed = challenge.clone();
        let session_id = self.sessions.create(
            SessionType::Registration,
            Some(user.pid.clone()),
            challenge,
            now,
            self.session_ttl,
        )?;
        Ok(RegistrationStart { session_id, challenge: echoed, exclude_credential_ids })
    }

    /// Completes a registration.
    ///
    /// The session is consumed whatever happens. `verify` receives the
    /// session's challenge and checks the authenticator's attestation against
    /// it, answering with the attested credential or `None`. On success the
    /// new credential is stored and returned.
    pub fn finish_registration<F: FnOnce(String) -> Option<AttestedCredential>>(
        &mut self,
        session_id: &String,
        display_name: Option<String>,
        verify: F,
        now: u64,
    ) -> (r: Result<Credential, AuthError>)
        requires
            old(self).wf(),
            forall|c: String| verify.requires((c,)),
        ensures
            final(self).wf(),
            final(self).session_ttl == old(self).session_ttl,
            final(self).sessions@ == after_take(old(self).sessions@, session_id@),
            match registration_session(old(self).sessions@, session_id@, now) {
                None => r == Err::<Credential, AuthError>(AuthError::SessionExpiredOrUnknown)
                    && final(self).credentials@ == old(self).credentials@,
                Some(s) => exists|o: Option<AttestedCredential>|
                    #[trigger] verify.ensures((s.challenge,), o) && registration_settles(
                        old(self).credentials,
                        final(self).credentials,
                        o,
                        s.user_id.unwrap(),
                        display_name,
                        now,
                        r,
                    ),
            },
    {
        let session = match self.sessions.take(session_id, now) {
            Some(s) => s,
            None => return Err(AuthError::SessionExpiredOrUnknown),
        };
        if session.kind != SessionType::Registration {
            return Err(AuthError::SessionExpiredOrUnknown);
        }
        let user_id = match session.user_id {
            Some(u) => u,
            None => return Err(AuthError::SessionExpiredOrUnknown),
        };
        let ghost challenge = session.challenge;
        let outcome = verify(session.challenge);
        let ghost o = outcome;
        let attested = match outcome {
            Some(a) => a,
            None => {
                assert(verify.ensures((challenge,), o));
                return Err(AuthError::InvalidAttestation);
            },
        };
        let record = Credential {
            id: 0,
            user_id,
            credential_id: attested.credential_id,
            public_key: attested.public_key,
            sign_counter: attested.sign_counter,
            backup_eligible: attested.backup_eligible,
            backup_state: attested.backup_state,
            device_type: attested.device_type,
            user_verified: attested.user_verified,
            display_name,
            created_at: now,
            updated_at: now,
        };
        let r = self.credentials.put(record);
        assert(verify.ensures((challenge,), o));
        r
    }
    /// Starts an authentication.
    ///
    /// With a user id the allow-list holds that user's credentials; without
    /// one the ceremony is discoverable and the list is empty.
    pub fn begin_authentication(&mut self, user_id: Option<&String>, challenge: String, now: u64) -> (r:
        Result<AuthenticationStart, AuthError>)
        requires
            old(self).wf(),
        ensures
            final(self).wf(),
            final(self).credentials == old(self).credentials,
            final(self).session_ttl == old(self).session_ttl,
            match r {
                Ok(start) => start.challenge == challenge && start.allow_credential_ids@ == (
                match user_id {
                    Some(u) => credential_ids(owned_by(old(self).credentials@, u@)),
                    None => Seq::<String>::empty(),
                }) && !crate::session::has_session(old(self).sessions@, start.session_id@)
                    && final(self).sessions@ == old(self).sessions@.push(
                    (CeremonySession {
                        session_id: start.session_id,
                        kind: SessionType::Authentication,
                        user_id: match user_id {
                            Some(u) => Some(*u),
                            None => None,
                        },
                        challenge,
                        expires_at: deadline(now, old(self).session_ttl),
                    }),
                ),
                Err(e) => e == AuthError::SessionIdCollision && final(self).sessions@ == old(
                    self,
                ).sessions@ && old(self).sessions@.len() > 0,
            },
    {
        let (allow_credential_ids, bound) = match user_id {
            Some(u) => {
                let owned = self.credentials.find_by_user(u);
                (ids_of(&owned), Some(u.clone()))
            },
            None => (Vec::new(), None),
        };
        let echoed = challenge.clone();
        let session_id = self.sessions.create(
            SessionType::Authentication,
            bound,
            challenge,
            now,
            self.session_ttl,
        )?;
        Ok(AuthenticationStart { session_id, challenge: echoed, allow_credential_ids })
    }

    /// Completes an authentication with the credential `credential_id` that
    /// the authenticator names (`None` when its response names none).
    ///
    /// The session is consumed whatever happens. `verify` receives the
    /// session's challenge, the user the session is bound to (none for a
    /// discoverable-credential ceremony) and the stored public key; it checks
    /// the assertion's signature and answers with the counter the
    /// authenticator reported, or `None`. The counter must then pass the
    /// replay policy; on success it is stored and the updated credential
    /// returned.
    pub fn finish_authentication<F: FnOnce(String, Option<String>, String) -> Option<u32>>(
        &mut self,
        session_id: &String,
        credential_id: Option<&String>,
        verify: F,
        now: u64,
    ) -> (r: Result<Credential, AuthError>)
        requires
            old(self).wf(),
            forall|c: String, u: Option<String>, k: String| verify.requires((c, u, k)),
        ensures
            final(self).wf(),
            final(self).session_ttl == old(self).session_ttl,
            final(self).sessions@ == after_take(old(self).sessions@, session_id@),
            match authentication_session(old(self).sessions@, session_id@, now) {
                None => r == Err::<Credential, AuthError>(AuthError::SessionExpiredOrUnknown)
                    && final(self).credentials@ == old(self).credentials@,
                Some(s) => match credential_id {
                    None => r == Err::<Credential, AuthError>(AuthError::InvalidAssertion)
                        && final(self).credentials@ == old(self).credentials@,
                    Some(cid) => if !has_credential(old(self).credentials@, cid@) {
                        r == Err::<Credential, AuthError>(AuthError::UnknownCredential)
                            && final(self).credentials@ == old(self).credentials@
                    } else {
                        exists|o: Option<u32>|
                            #[trigger] verify.ensures(
                                (
                                    s.challenge,
                                    s.user_id,
                                    lookup(old(self).credentials@, cid@).unwrap().public_key,
                                ),
                                o,
                            ) && authentication_settles(
                                old(self).credentials,
                                final(self).credentials,
                                cid@,
                                o,
                                now,
                                r,
                            )
                    },
                },
            },
    {
        let session = match self.sessions.take(session_id, now) {
            Some(s) => s,
            None => return Err(AuthError::SessionExpiredOrUnknown),
        };
        if session.kind != SessionType::Authentication {
            return Err(AuthError::SessionExpiredOrUnknown);
        }
        let credential_id = match credential_id {
            Some(c) => c,
            None => return Err(AuthError::InvalidAssertion),
        };
        let stored = match self.credentials.find_by_credential_id(credential_id) {
            Some(c) => c,
            None => return Err(AuthError::UnknownCredential),
        };
        let ghost challenge = session.challenge;
        let ghost bound = session.user_id;
        let ghost key = stored.public_key;
        let outcome = verify(session.challenge, session.user_id, stored.public_key);
        let ghost o = outcome;
        let reported = match outcome {
            Some(n) => n,
            None => {
                assert(verify.ensures((challenge, bound, key), o));
                return Err(AuthError::InvalidAssertion);
            },
        };
        let r = self.credentials.update_counter(credential_id, reported, now);
        assert(verify.ensures((challenge, bound, key), o));
        r
    }
}

/// A session just created by `begin_registration`, taken before its
/// deadline, is a registration session.
pub proof fn lemma_begun_registration_is_takeable(
    s: Seq<CeremonySession>,
    fresh: CeremonySession,
    now: u64,
)
    requires
        crate::session::session_ids_unique(s),
        !crate::session::has_session(s, fresh.session_id@),
        fresh.kind == SessionType::Registration,
        fresh.user_id.is_some(),
        now < fresh.expires_at,
    ensures
        registration_session(s.push(fresh), fresh.session_id@, now) == Some(fresh),
{
    let t = s.push(fresh);
    let sid = fresh.session_id@;
    assert(t[s.len() as int] == fresh);
    assert(crate::session::has_session(t, sid));
    let p = crate::session::session_position(t, sid);
    if p < s.len() {
        assert(t[p] == s[p]);
        assert(crate::session::has_session(s, sid));
    }
}

/// A registration whose attestation verified with a credential id not yet
/// registered succeeds, and the new credential is then found by that id.
pub proof fn lemma_registration_round_trip(
    before: CredentialStore,
    after: CredentialStore,
    a: AttestedCredential,
    user: String,
    display_name: Option<String>,
    now: u64,
    r: Result<Credential, AuthError>,
)
    requires
        before.wf(),
        after.wf(),
        !has_credential(before@, a.credential_id@),
        registration_settles(before, after, Some(a), user, display_name, now, r),
    ensures
        r is Ok,
        r->Ok_0.credential_id == a.credential_id,
        r->Ok_0.user_id == user,
        lookup(after@, a.credential_id@) == Some(r->Ok_0),
{
    crate::credential::lemma_lookup_at(after@, before@.len() as int);
}

/// A registration begun for a user and finished before its deadline, whose
/// attestation verified with a credential id not yet registered, leaves a
/// credential with that id, and looking the id up finds it.
pub proof fn lemma_registration_completes(
    sessions: Seq<CeremonySession>,
    fresh: CeremonySession,
    before: CredentialStore,
    after: CredentialStore,
    a: AttestedCredential,
    display_name: Option<String>,
    now: u64,
    r: Result<Credential, AuthError>,
)
    requires
        crate::session::session_ids_unique(sessions),
        !crate::session::has_session(sessions, fresh.session_id@),
        fresh.kind == SessionType::Registration,
        fresh.user_id is Some,
        now < fresh.expires_at,
        before.wf(),
        after.wf(),
        !has_credential(before@, a.credential_id@),
        registration_settles(before, after, Some(a), fresh.user_id->Some_0, display_name, now, r),
    ensures
        registration_session(sessions.push(fresh), fresh.session_id@, now) == Some(fresh),
        r is Ok,
        r->Ok_0.credential_id == a.credential_id,
        has_credential(after@, a.credential_id@),
        lookup(after@, a.credential_id@) == Some(r->Ok_0),
{
    lemma_begun_registration_is_takeable(sessions, fresh, now);
    lemma_registration_round_trip(before, after, a, fresh.user_id->Some_0, display_name, now, r);
}

/// Once a ceremony session has been taken, no later finish can take it
/// again: whichever of several completions racing on one session the store
/// serves second sees no session, of either kind, and fails with
/// `SessionExpiredOrUnknown`. At most one completion per session succeeds.
pub proof fn lemma_session_consumed_once(s: Seq<CeremonySession>, sid: Seq<char>, later: u64)
    requires
        crate::session::session_ids_unique(s),
    ensures
        crate::session::session_ids_unique(after_take(s, sid)),
        registration_session(after_take(s, sid), sid, later) == None::<CeremonySession>,
        authentication_session(after_take(s, sid), sid, later) == None::<CeremonySession>,
{
    crate::session::lemma_take_removes(s, sid);
}

/// On an authenticator that keeps a counter (stored value above zero), an
/// assertion succeeds exactly when the reported counter is larger, and then
/// stores it; otherwise it fails with `ReplayDetected` and the stored
/// counter stays.
pub proof fn lemma_counter_moves_forward(
    before: CredentialStore,
    after: CredentialStore,
    cid: Seq<char>,
    reported: u32,
    now: u64,
    r: Result<Credential, AuthError>,
)
    requires
        before.wf(),
        has_credential(before@, cid),
        lookup(before@, cid).unwrap().sign_counter > 0,
        authentication_settles(before, after, cid, Some(reported), now, r),
    ensures
        reported > lookup(before@, cid).unwrap().sign_counter ==> r is Ok
            && lookup(after@, cid).unwrap().sign_counter == reported,
        reported <= lookup(before@, cid).unwrap().sign_counter ==> r == Err::<Credential, AuthError>(
            AuthError::ReplayDetected,
        ) && lookup(after@, cid) == lookup(before@, cid),
{
    lemma_settled_lookup(before, after, cid, reported, now, r);
}

/// An authenticator without a counter (stored and reported both zero) is
/// accepted on every assertion, and its counter stays zero: replay cannot be
/// detected for it.
pub proof fn lemma_zero_counter_always_accepted(
    before: CredentialStore,
    after: CredentialStore,
    cid: Seq<char>,
    now: u64,
    r: Result<Credential, AuthError>,
)
    requires
        before.wf(),
        has_credential(before@, cid),
        lookup(before@, cid).unwrap().sign_counter == 0,
        authentication_settles(before, after, cid, Some(0u32), now, r),
    ensures
        r is Ok,
        lookup(after@, cid).unwrap().sign_counter == 0,
{
    lemma_settled_lookup(before, after, cid, 0, now, r);
}

/// An authentication never lowers a stored counter.
pub proof fn lemma_counter_never_decreases(
    before: CredentialStore,
    after: CredentialStore,
    cid: Seq<char>,
    o: Option<u32>,
    now: u64,
    r: Result<Credential, AuthError>,
)
    requires
        before.wf(),
        has_credential(before@, cid),
        authentication_settles(before, after, cid, o, now, r),
    ensures
        has_credential(after@, cid),
        lookup(after@, cid).unwrap().sign_counter >= lookup(before@, cid).unwrap().sign_counter,
{
    let k = position(before@, cid);
    crate::credential::lemma_lookup_at(before@, k);
    if after@ != before@ {
        let reported = o.unwrap();
        lemma_settled_lookup(before, after, cid, reported, now, r);
    }
}

proof fn lemma_settled_lookup(
    before: CredentialStore,
    after: CredentialStore,
    cid: Seq<char>,
    reported: u32,
    now: u64,
    r: Result<Credential, AuthError>,
)
    requires
        before.wf(),
        has_credential(before@, cid),
        authentication_settles(before, after, cid, Some(reported), now, r),
    ensures
        has_credential(after@, cid),
        lookup(before@, cid) == Some(before@[position(before@, cid)]),
        counter_accepted(before@[position(before@, cid)].sign_counter, reported) ==> r is Ok
            && after@ == before@.update(position(before@, cid), r->Ok_0) && lookup(after@, cid)
            == Some(r->Ok_0) && r->Ok_0.sign_counter == reported,
        !counter_accepted(before@[position(before@, cid)].sign_counter, reported) ==> after@
            == before@ && r == Err::<Credential, AuthError>(AuthError::ReplayDetected),
{
    let k = position(before@, cid);
    crate::credential::lemma_lookup_at(before@, k);
    if counter_accepted(before@[k].sign_counter, reported) {
        let t = after@;
        assert(crate::credential::ids_unique(t)) by {
            assert forall|i: int, j: int| 0 <= i < t.len() && 0 <= j < t.len() && i != j implies (
            #[trigger] t[i]).credential_id@ != (#[trigger] t[j]).credential_id@ by {
                assert(before@[i].credential_id@ != before@[j].credential_id@);
            }
        }
        crate::credential::lemma_lookup_at(t, k);
    }
}

} // verus!
