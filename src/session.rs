use vstd::prelude::*;

use crate::error::AuthError;

verus! {

/// Which ceremony a session belongs to.
#[derive(Debug, Clone, Copy, PartialEq, Eq, Structural)]
pub enum SessionType {
    Registration,
    Authentication,
}

impl SessionType {
    /// The name under which the kind is persisted.
    pub fn as_str(&self) -> (r: &'static str)
        ensures
            *self == SessionType::Registration ==> r@ == "registration"@,
            *self == SessionType::Authentication ==> r@ == "authentication"@,
    {
        match self {
            SessionType::Registration => "registration",
            SessionType::Authentication => "authentication",
        }
    }
}

/// An in-progress ceremony: created at its start, consumed once at its end.
#[derive(Debug, Clone)]
pub struct CeremonySession {
    /// Opaque unique token handed to the caller.
    pub session_id: String,
    pub kind: SessionType,
    /// The user the ceremony is bound to, where one is known.
    pub user_id: Option<String>,
    /// Server-generated challenge payload the authenticator must sign over.
    pub challenge: String,
    /// Milliseconds since the epoch; the session is dead at and after it.
    pub expires_at: u64,
}

impl CeremonySession {
    /// A field-by-field copy.
    pub fn duplicate(&self) -> (r: CeremonySession)
        ensures
            r == *self,
    {
        let user_id = match &self.user_id {
            Some(u) => Some(u.clone()),
            None => None,
        };
        CeremonySession {
            session_id: self.session_id.clone(),
            kind: self.kind,
            user_id,
            challenge: self.challenge.clone(),
            expires_at: self.expires_at,
        }
    }
}

/// Whether a session is still usable at `now`.
pub open spec fn is_live(s: CeremonySession, now: u64) -> bool {
    now < s.expires_at
}

/// `now + ttl`, held at the largest instant when it would pass it.
pub open spec fn deadline(now: u64, ttl: u64) -> u64 {
    if now + ttl <= u64::MAX {
        (now + ttl) as u64
    } else {
        u64::MAX
    }
}

/// Whether some session of `s` has the id `sid`.
pub open spec fn has_session(s: Seq<CeremonySession>, sid: Seq<char>) -> bool {
    exists|i: int| 0 <= i < s.len() && (#[trigger] s[i]).session_id@ == sid
}

/// Index of the session with id `sid`; meaningful when one exists.
pub open spec fn session_position(s: Seq<CeremonySession>, sid: Seq<char>) -> int {
    choose|i: int| 0 <= i < s.len() && (#[trigger] s[i]).session_id@ == sid
}

/// No two sessions share an id.
pub open spec fn session_ids_unique(s: Seq<CeremonySession>) -> bool {
    forall|i: int, j: int|
        0 <= i < s.len() && 0 <= j < s.len() && i != j ==> (#[trigger] s[i]).session_id@ != (
        #[trigger] s[j]).session_id@
}

/// The sessions of `s` still live at `now`, in stored order.
pub open spec fn unexpired(s: Seq<CeremonySession>, now: u64) -> Seq<CeremonySession>
    decreases s.len(),
{
    if s.len() == 0 {
        s
    } else {
        let rest = unexpired(s.drop_last(), now);
        if is_live(s.last(), now) {
            rest.push(s.last())
        } else {
            rest
        }
    }
}

/// The sessions of `s` not bound to `user`, in stored order.
pub open spec fn not_bound_to(s: Seq<CeremonySession>, user: Seq<char>) -> Seq<CeremonySession>
    decreases s.len(),
{
    if s.len() == 0 {
        s
    } else {
        let rest = not_bound_to(s.drop_last(), user);
        if s.last().user_id is Some && s.last().user_id->Some_0@ == user {
            rest
        } else {
            rest.push(s.last())
        }
    }
}

/// What `take(sid)` hands back from the sessions `s` at `now`.
pub open spec fn taken(s: Seq<CeremonySession>, sid: Seq<char>, now: u64) -> Option<
    CeremonySession,
> {
    if has_session(s, sid) && is_live(s[session_position(s, sid)], now) {
        Some(s[session_position(s, sid)])
    } else {
        None
    }
}

/// What remains of the sessions `s` after `take(sid)`.
pub open spec fn after_take(s: Seq<CeremonySession>, sid: Seq<char>) -> Seq<CeremonySession> {
    if has_session(s, sid) {
        s.remove(session_position(s, sid))
    } else {
        s
    }
}

proof fn lemma_session_at(s: Seq<CeremonySession>, k: int)
    requires
        session_ids_unique(s),
        0 <= k < s.len(),
    ensures
        has_session(s, s[k].session_id@),
        session_position(s, s[k].session_id@) == k,
{
    let sid = s[k].session_id@;
    assert(has_session(s, sid));
    let j = session_position(s, sid);
    assert(s[j].session_id@ == sid);
}

proof fn lemma_remove_keeps_sessions_unique(s: Seq<CeremonySession>, k: int)
    requires
        session_ids_unique(s),
        0 <= k < s.len(),
    ensures
        session_ids_unique(s.remove(k)),
{
    let t = s.remove(k);
    assert forall|i: int, j: int| 0 <= i < t.len() && 0 <= j < t.len() && i != j implies (
    #[trigger] t[i]).session_id@ != (#[trigger] t[j]).session_id@ by {
        let a = if i < k { i } else { i + 1 };
        let b = if j < k { j } else { j + 1 };
        assert(t[i] == s[a] && t[j] == s[b]);
    }
}

/// After `take(sid)` no session with that id is left.
pub proof fn lemma_take_removes(s: Seq<CeremonySession>, sid: Seq<char>)
    requires
        session_ids_unique(s),
    ensures
        !has_session(after_take(s, sid), sid),
        session_ids_unique(after_take(s, sid)),
{
    if has_session(s, sid) {
        let k = session_position(s, sid);
        let t = s.remove(k);
        lemma_remove_keeps_sessions_unique(s, k);
        if has_session(t, sid) {
            let i = choose|i: int| 0 <= i < t.len() && (#[trigger] t[i]).session_id@ == sid;
            let a = if i < k { i } else { i + 1 };
            assert(t[i] == s[a]);
        }
    }
}

/// Every session that survives a sweep at `now` was in the store and is live.
proof fn lemma_unexpired_members(s: Seq<CeremonySession>, now: u64)
    ensures
        forall|i: int|
            0 <= i < unexpired(s, now).len() ==> is_live(#[trigger] unexpired(s, now)[i], now)
                && s.contains(unexpired(s, now)[i]),
    decreases s.len(),
{
    if s.len() > 0 {
        lemma_unexpired_members(s.drop_last(), now);
        let rest = unexpired(s.drop_last(), now);
        assert forall|i: int| 0 <= i < unexpired(s, now).len() implies is_live(
            #[trigger] unexpired(s, now)[i],
            now,
        ) && s.contains(unexpired(s, now)[i]) by {
            if i < rest.len() {
                assert(unexpired(s, now)[i] == rest[i]);
                assert(s.drop_last().contains(rest[i]));
                let j = choose|j: int| 0 <= j < s.drop_last().len() && s.drop_last()[j] == rest[i];
                assert(s[j] == rest[i]);
            } else {
                assert(s[s.len() - 1] == s.last());
            }
        }
    }
}

/// A session whose deadline has passed by the time of a sweep is gone
/// afterwards, and taking it then yields nothing and changes nothing.
pub proof fn lemma_swept_session_is_gone(
    s: Seq<CeremonySession>,
    k: int,
    sweep_at: u64,
    take_at: u64,
)
    requires
        session_ids_unique(s),
        0 <= k < s.len(),
        s[k].expires_at <= sweep_at,
    ensures
        !has_session(unexpired(s, sweep_at), s[k].session_id@),
        taken(unexpired(s, sweep_at), s[k].session_id@, take_at) == None::<CeremonySession>,
        after_take(unexpired(s, sweep_at), s[k].session_id@) == unexpired(s, sweep_at),
{
    let sid = s[k].session_id@;
    let u = unexpired(s, sweep_at);
    lemma_unexpired_members(s, sweep_at);
    if has_session(u, sid) {
        let i = choose|i: int| 0 <= i < u.len() && (#[trigger] u[i]).session_id@ == sid;
        assert(is_live(u[i], sweep_at) && s.contains(u[i]));
        let j = choose|j: int| 0 <= j < s.len() && s[j] == u[i];
        assert(s[j].session_id@ == s[k].session_id@);
    }
}

/// Relies on uuid::Uuid::new_v4, which draws 122 random bits from the
/// operating system's generator, written out in the hyphenated text form.
#[verifier::external_body]
fn fresh_session_id() -> (r: String) {
    uuid::Uuid::new_v4().to_string()
}

/// Short-lived store of ceremony sessions, keyed by session id.
pub struct SessionStore {
    items: Vec<CeremonySession>,
}

impl View for SessionStore {
    type V = Seq<CeremonySession>;

    closed spec fn view(&self) -> Seq<CeremonySession> {
        self.items@
    }
}

impl SessionStore {
    /// The store's invariant: session ids are unique.
    pub open spec fn wf(&self) -> bool {
        session_ids_unique(self@)
    }

    pub fn new() -> (r: SessionStore)
        ensures
            r.wf(),
            r@ == Seq::<CeremonySession>::empty(),
    {
        SessionStore { items: Vec::new() }
    }

    pub fn len(&self) -> (r: usize)
        ensures
            r == self@.len(),
    {
        self.items.len()
    }

    fn index_of(&self, sid: &String) -> (r: Option<usize>)
        requires
            self.wf(),
        ensures
            match r {
                Some(k) => k < self@.len() && self@[k as int].session_id@ == sid@
                    && session_position(self@, sid@) == k,
                None => !has_session(self@, sid@),
            },
    {
        let mut i: usize = 0;
        while i < self.items.len()
            invariant
                self.wf(),
                i <= self.items@.len(),
                forall|j: int| 0 <= j < i ==> (#[trigger] self.items@[j]).session_id@ != sid@,
            decreases self.items@.len() - i,
        {
            if self.items[i].session_id.eq(sid) {
                proof {
                    lemma_session_at(self@, i as int);
                }
                return Some(i);
            }
            i = i + 1;
        }
        None
    }

    /// Persists a session under a caller-chosen id, expiring `ttl`
    /// milliseconds after `now`.
    ///
    /// Fails with `SessionIdCollision`, changing nothing, when the id is taken.
    pub fn create_with_id(
        &mut self,
        session_id: String,
        kind: SessionType,
        user_id: Option<String>,
        challenge: String,
        now: u64,
        ttl: u64,
    ) -> (r: Result<String, AuthError>)
        requires
            old(self).wf(),
        ensures
            final(self).wf(),
            has_session(old(self)@, session_id@) ==> r == Err::<String, AuthError>(
                AuthError::SessionIdCollision,
            ) && final(self)@ == old(self)@,
            !has_session(old(self)@, session_id@) ==> r == Ok::<String, AuthError>(session_id)
                && final(self)@ == old(self)@.push(
                (CeremonySession {
                    session_id,
                    kind,
                    user_id,
                    challenge,
                    expires_at: deadline(now, ttl),
                }),
            ),
    {
        if self.index_of(&session_id).is_some() {
            return Err(AuthError::SessionIdCollision);
        }
        let expires_at = if ttl <= u64::MAX - now {
            now + ttl
        } else {
            u64::MAX
        };
        let id = session_id.clone();
        proof {
            assert forall|i: int| 0 <= i < self@.len() implies (
            #[trigger] self@[i]).session_id@ != session_id@ by {
                if self@[i].session_id@ == session_id@ {
                    assert(has_session(self@, session_id@));
                }
            }
        }
        self.items.push(CeremonySession { session_id, kind, user_id, challenge, expires_at });
        Ok(id)
    }

    /// Persists a session under a freshly drawn random id and returns the id.
    ///
    /// Whatever id is drawn, the store gains exactly that session, or stays
    /// as it was and reports `SessionIdCollision`.
    pub fn create(
        &mut self,
        kind: SessionType,
        user_id: Option<String>,
        challenge: String,
        now: u64,
        ttl: u64,
    ) -> (r: Result<String, AuthError>)
        requires
            old(self).wf(),
        ensures
            final(self).wf(),
            match r {
                Ok(id) => !has_session(old(self)@, id@) && final(self)@ == old(self)@.push(
                    (CeremonySession {
                        session_id: id,
                        kind,
                        user_id,
                        challenge,
                        expires_at: deadline(now, ttl),
                    }),
                ),
                Err(e) => e == AuthError::SessionIdCollision && final(self)@ == old(self)@
                    && old(self)@.len() > 0,
            },
    {
        let session_id = fresh_session_id();
        self.create_with_id(session_id, kind, user_id, challenge, now, ttl)
    }

    /// Atomically reads and deletes the session `sid`.
    ///
    /// The session is handed back only while it is live; an expired one is
    /// deleted all the same. A session can thus be consumed at most once.
    pub fn take(&mut self, sid: &String, now: u64) -> (r: Option<CeremonySession>)
        requires
            old(self).wf(),
        ensures
            final(self).wf(),
            r == taken(old(self)@, sid@, now),
            final(self)@ == after_take(old(self)@, sid@),
    {
        match self.index_of(sid) {
            None => None,
            Some(k) => {
                let ghost before = self@;
                let s = self.items.remove(k);
                proof {
                    lemma_remove_keeps_sessions_unique(before, k as int);
                }
                if now < s.expires_at {
                    Some(s)
                } else {
                    None
                }
            },
        }
    }

    /// Deletes every session dead at `now`; returns how many went.
    pub fn sweep_expired(&mut self, now: u64) -> (r: usize)
        requires
            old(self).wf(),
        ensures
            final(self).wf(),
            final(self)@ == unexpired(old(self)@, now),
            r == old(self)@.len() - final(self)@.len(),
    {
        let ghost start = self@;
        let total = self.items.len();
        let mut i: usize = 0;
        let mut j: usize = 0;
        let mut removed: usize = 0;
        while i < self.items.len()
            invariant
                session_ids_unique(self@),
                start == old(self)@,
                start.len() == total,
                j <= start.len(),
                i == unexpired(start.take(j as int), now).len(),
                self@ == unexpired(start.take(j as int), now) + start.skip(j as int),
                removed + self@.len() == start.len(),
            decreases self@.len() - i,
        {
            proof {
                assert(j < start.len());
                assert(start.take(j + 1).drop_last() =~= start.take(j as int));
                assert(self@[i as int] == start[j as int]);
            }
            if self.items[i].expires_at <= now {
                let ghost before = self@;
                self.items.remove(i);
                proof {
                    lemma_remove_keeps_sessions_unique(before, i as int);
                    assert(self@ =~= unexpired(start.take(j + 1), now) + start.skip(j + 1));
                }
                removed = removed + 1;
            } else {
                proof {
                    assert(self@ =~= unexpired(start.take(j + 1), now) + start.skip(j + 1));
                }
                i = i + 1;
            }
            j = j + 1;
        }
        proof {
            assert(start.take(j as int) =~= start);
            assert(self@ =~= unexpired(start, now));
        }
        removed
    }
    /// Deletes every session bound to `user`; returns how many went.
    pub fn delete_for_user(&mut self, user: &String) -> (r: usize)
        requires
            old(self).wf(),
        ensures
            final(self).wf(),
            final(self)@ == not_bound_to(old(self)@, user@),
            r == old(self)@.len() - final(self)@.len(),
    {
        let ghost start = self@;
        let total = self.items.len();
        let mut i: usize = 0;
        let mut j: usize = 0;
        let mut removed: usize = 0;
        while i < self.items.len()
            invariant
                session_ids_unique(self@),
                start == old(self)@,
                start.len() == total,
                j <= start.len(),
                i == not_bound_to(start.take(j as int), user@).len(),
                self@ == not_bound_to(start.take(j as int), user@) + start.skip(j as int),
                removed + self@.len() == start.len(),
            decreases self@.len() - i,
        {
            proof {
                assert(j < start.len());
                assert(start.take(j + 1).drop_last() =~= start.take(j as int));
                assert(self@[i as int] == start[j as int]);
            }
            let bound = match &self.items[i].user_id {
                Some(u) => u.eq(user),
                None => false,
            };
            if bound {
                let ghost before = self@;
                self.items.remove(i);
                proof {
                    lemma_remove_keeps_sessions_unique(before, i as int);
                    assert(self@ =~= not_bound_to(start.take(j + 1), user@) + start.skip(j + 1));
                }
                removed = removed + 1;
            } else {
                proof {
                    assert(self@ =~= not_bound_to(start.take(j + 1), user@) + start.skip(j + 1));
                }
                i = i + 1;
            }
            j = j + 1;
        }
        proof {
            assert(start.take(j as int) =~= start);
            assert(self@ =~= not_bound_to(start, user@));
        }
        removed
    }
}

} // verus!
