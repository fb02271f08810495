use vstd::prelude::*;

use crate::error::AuthError;

verus! {

/// One public-key credential, bound to one authenticator and one user.
#[derive(Debug, Clone)]
pub struct Credential {
    /// Surrogate number that the store assigns on insertion.
    pub id: u64,
    /// Stable external identifier of the owning user.
    pub user_id: String,
    /// Authenticator-issued handle (base64url text); unique across all users.
    pub credential_id: String,
    /// Serialized verification key.
    pub public_key: String,
    /// Last accepted signature counter.
    pub sign_counter: u32,
    pub backup_eligible: bool,
    pub backup_state: bool,
    pub device_type: String,
    pub user_verified: bool,
    pub display_name: Option<String>,
    pub created_at: u64,
    pub updated_at: u64,
}

impl Credential {
    /// A field-by-field copy.
    pub fn duplicate(&self) -> (r: Credential)
        ensures
            r == *self,
    {
        let display_name = match &self.display_name {
            Some(n) => Some(n.clone()),
            None => None,
        };
        Credential {
            id: self.id,
            user_id: self.user_id.clone(),
            credential_id: self.credential_id.clone(),
            public_key: self.public_key.clone(),
            sign_counter: self.sign_counter,
            backup_eligible: self.backup_eligible,
            backup_state: self.backup_state,
            device_type: self.device_type.clone(),
            user_verified: self.user_verified,
            display_name,
            created_at: self.created_at,
            updated_at: self.updated_at,
        }
    }
}

/// The replay policy: a counter moves strictly forward, except that an
/// authenticator reporting zero over a stored zero has no counter at all and
/// is accepted (no replay detection is possible for it).
pub open spec fn counter_accepted(stored: u32, reported: u32) -> bool {
    (stored == 0 && reported == 0) || reported > stored
}

/// Whether some record of `s` carries the credential id `cid`.
pub open spec fn has_credential(s: Seq<Credential>, cid: Seq<char>) -> bool {
    exists|i: int| 0 <= i < s.len() && (#[trigger] s[i]).credential_id@ == cid
}

/// The record of `s` with credential id `cid`, if any.
pub open spec fn lookup(s: Seq<Credential>, cid: Seq<char>) -> Option<Credential> {
    if has_credential(s, cid) {
        Some(s[choose|i: int| 0 <= i < s.len() && (#[trigger] s[i]).credential_id@ == cid])
    } else {
        None
    }
}

/// No two records share a credential id.
pub open spec fn ids_unique(s: Seq<Credential>) -> bool {
    forall|i: int, j: int|
        0 <= i < s.len() && 0 <= j < s.len() && i != j ==> (#[trigger] s[i]).credential_id@
            != (#[trigger] s[j]).credential_id@
}

/// The records of `s` owned by `user`, in stored order.
pub open spec fn owned_by(s: Seq<Credential>, user: Seq<char>) -> Seq<Credential>
    decreases s.len(),
{
    if s.len() == 0 {
        s
    } else {
        let rest = owned_by(s.drop_last(), user);
        if s.last().user_id@ == user {
            rest.push(s.last())
        } else {
            rest
        }
    }
}

/// The records of `s` not owned by `user`, in stored order.
pub open spec fn not_owned_by(s: Seq<Credential>, user: Seq<char>) -> Seq<Credential>
    decreases s.len(),
{
    if s.len() == 0 {
        s
    } else {
        let rest = not_owned_by(s.drop_last(), user);
        if s.last().user_id@ != user {
            rest.push(s.last())
        } else {
            rest
        }
    }
}

/// Index of the record with credential id `cid`; meaningful when one exists.
pub open spec fn position(s: Seq<Credential>, cid: Seq<char>) -> int {
    choose|i: int| 0 <= i < s.len() && (#[trigger] s[i]).credential_id@ == cid
}

/// Under unique ids, the record found at index `k` is the one `lookup` names.
pub proof fn lemma_lookup_at(s: Seq<Credential>, k: int)
    requires
        ids_unique(s),
        0 <= k < s.len(),
    ensures
        has_credential(s, s[k].credential_id@),
        position(s, s[k].credential_id@) == k,
        lookup(s, s[k].credential_id@) == Some(s[k]),
{
    let cid = s[k].credential_id@;
    assert(has_credential(s, cid));
    let j = position(s, cid);
    assert(s[j].credential_id@ == cid);
}

/// Durable record of credentials, keyed by credential id.
pub struct CredentialStore {
    items: Vec<Credential>,
    next_id: u64,
}

impl View for CredentialStore {
    type V = Seq<Credential>;

    closed spec fn view(&self) -> Seq<Credential> {
        self.items@
    }
}

impl CredentialStore {
    /// The store's invariant: credential ids are unique.
    pub open spec fn wf(&self) -> bool {
        ids_unique(self@)
    }

    /// The surrogate number the next insertion receives.
    pub closed spec fn next_number(&self) -> u64 {
        self.next_id
    }

    pub fn new() -> (r: CredentialStore)
        ensures
            r.wf(),
            r@ == Seq::<Credential>::empty(),
    {
        CredentialStore { items: Vec::new(), next_id: 1 }
    }

    pub fn len(&self) -> (r: usize)
        ensures
            r == self@.len(),
    {
        self.items.len()
    }

    /// Index of the record with credential id `cid`, if any.
    fn index_of(&self, cid: &String) -> (r: Option<usize>)
        requires
            self.wf(),
        ensures
            match r {
                Some(k) => k < self@.len() && self@[k as int].credential_id@ == cid@ && position(
                    self@,
                    cid@,
                ) == k,
                None => !has_credential(self@, cid@),
            },
    {
        let mut i: usize = 0;
        while i < self.items.len()
            invariant
                self.wf(),
                i <= self.items@.len(),
                forall|j: int| 0 <= j < i ==> (#[trigger] self.items@[j]).credential_id@ != cid@,
            decreases self.items@.len() - i,
        {
            if self.items[i].credential_id.eq(cid) {
                proof {
                    lemma_lookup_at(self@, i as int);
                }
                return Some(i);
            }
            i = i + 1;
        }
        None
    }
    /// Inserts a new record, numbered by the store.
    ///
    /// Fails with `DuplicateCredential`, changing nothing, when the
    /// credential id is already registered.
    pub fn put(&mut self, credential: Credential) -> (r: Result<Credential, AuthError>)
        requires
            old(self).wf(),
        ensures
            final(self).wf(),
            has_credential(old(self)@, credential.credential_id@) ==> r == Err::<
                Credential,
                AuthError,
            >(AuthError::DuplicateCredential) && final(self)@ == old(self)@,
            !has_credential(old(self)@, credential.credential_id@) ==> r == Ok::<
                Credential,
                AuthError,
            >((Credential { id: old(self).next_number(), ..credential })) && final(self)@ == old(
                self,
            )@.push((Credential { id: old(self).next_number(), ..credential })),
    {
        match self.index_of(&credential.credential_id) {
            Some(_) => Err(AuthError::DuplicateCredential),
            None => {
                let mut stored = credential;
                stored.id = self.next_id;
                self.next_id = self.next_id.wrapping_add(1);
                let copy = stored.duplicate();
                proof {
                    assert forall|i: int| 0 <= i < self@.len() implies (
                    #[trigger] self@[i]).credential_id@ != stored.credential_id@ by {
                        if self@[i].credential_id@ == stored.credential_id@ {
                            assert(has_credential(self@, stored.credential_id@));
                        }
                    }
                }
                self.items.push(stored);
                Ok(copy)
            }
        }
    }

    /// The record with credential id `cid`, if any.
    pub fn find_by_credential_id(&self, cid: &String) -> (r: Option<Credential>)
        requires
            self.wf(),
        ensures
            r == lookup(self@, cid@),
    {
        match self.index_of(cid) {
            Some(k) => {
                proof {
                    lemma_lookup_at(self@, k as int);
                }
                Some(self.items[k].duplicate())
            },
            None => None,
        }
    }

    /// Every record owned by `user`, in stored order.
    pub fn find_by_user(&self, user: &String) -> (r: Vec<Credential>)
        ensures
            r@ == owned_by(self@, user@),
    {
        let mut found: Vec<Credential> = Vec::new();
        let mut i: usize = 0;
        while i < self.items.len()
            invariant
                i <= self.items@.len(),
                found@ == owned_by(self@.take(i as int), user@),
            decreases self.items@.len() - i,
        {
            proof {
                assert(self@.take(i + 1).drop_last() =~= self@.take(i as int));
            }
            if self.items[i].user_id.eq(user) {
                found.push(self.items[i].duplicate());
            }
            i = i + 1;
        }
        proof {
            assert(self@.take(i as int) =~= self@);
        }
        found
    }

    /// Records the counter an authenticator reported, if the replay policy
    /// accepts it over the stored one.
    ///
    /// Fails with `UnknownCredential` when no record has the id, and with
    /// `ReplayDetected` when the policy refuses; neither changes the store.
    pub fn update_counter(&mut self, cid: &String, reported: u32, now: u64) -> (r: Result<
        Credential,
        AuthError,
    >)
        requires
            old(self).wf(),
        ensures
            final(self).wf(),
            final(self).next_number() == old(self).next_number(),
            !has_credential(old(self)@, cid@) ==> r == Err::<Credential, AuthError>(
                AuthError::UnknownCredential,
            ) && final(self)@ == old(self)@,
            has_credential(old(self)@, cid@) && !counter_accepted(
                old(self)@[position(old(self)@, cid@)].sign_counter,
                reported,
            ) ==> r == Err::<Credential, AuthError>(AuthError::ReplayDetected) && final(self)@ == old(
                self,
            )@,
            has_credential(old(self)@, cid@) && counter_accepted(
                old(self)@[position(old(self)@, cid@)].sign_counter,
                reported,
            ) ==> r == Ok::<Credential, AuthError>(
                counter_updated(old(self)@[position(old(self)@, cid@)], reported, now),
            ) && final(self)@ == old(self)@.update(
                position(old(self)@, cid@),
                counter_updated(old(self)@[position(old(self)@, cid@)], reported, now),
            ),
    {
        match self.index_of(cid) {
            None => Err(AuthError::UnknownCredential),
            Some(k) => {
                let stored = self.items[k].sign_counter;
                if !((stored == 0 && reported == 0) || reported > stored) {
                    return Err(AuthError::ReplayDetected);
                }
                let mut updated = self.items[k].duplicate();
                updated.sign_counter = reported;
                updated.updated_at = now;
                let copy = updated.duplicate();
                let ghost before = self@;
                self.items.set(k, updated);
                proof {
                    assert forall|i: int, j: int|
                        0 <= i < self@.len() && 0 <= j < self@.len() && i != j implies (
                    #[trigger] self@[i]).credential_id@ != (#[trigger] self@[j]).credential_id@ by {
                        assert(before[i].credential_id@ != before[j].credential_id@);
                    }
                }
                Ok(copy)
            },
        }
    }

    /// Removes the record with credential id `cid`; says whether there was one.
    pub fn delete(&mut self, cid: &String) -> (r: bool)
        requires
            old(self).wf(),
        ensures
            final(self).wf(),
            final(self).next_number() == old(self).next_number(),
            r == has_credential(old(self)@, cid@),
            r ==> final(self)@ == old(self)@.remove(position(old(self)@, cid@)),
            !r ==> final(self)@ == old(self)@,
    {
        match self.index_of(cid) {
            None => false,
            Some(k) => {
                let ghost before = self@;
                self.items.remove(k);
                proof {
                    lemma_remove_keeps_unique(before, k as int);
                }
                true
            },
        }
    }

    /// Removes every record owned by `user`; returns how many went.
    pub fn delete_all_for_user(&mut self, user: &String) -> (r: usize)
        requires
            old(self).wf(),
        ensures
            final(self).wf(),
            final(self).next_number() == old(self).next_number(),
            final(self)@ == not_owned_by(old(self)@, user@),
            r == old(self)@.len() - final(self)@.len(),
    {
        let ghost start = self@;
        let total = self.items.len();
        let mut i: usize = 0;
        let mut j: usize = 0;
        let mut removed: usize = 0;
        while i < self.items.len()
            invariant
                ids_unique(self@),
                self.next_id == old(self).next_id,
                start == old(self)@,
                start.len() == total,
                j <= start.len(),
                i == not_owned_by(start.take(j as int), user@).len(),
                self@ == not_owned_by(start.take(j as int), user@) + start.skip(j as int),
                removed + self@.len() == start.len(),
            decreases self@.len() - i,
        {
            proof {
                assert(j < start.len());
                assert(start.take(j + 1).drop_last() =~= start.take(j as int));
                assert(self@[i as int] == start[j as int]);
            }
            if self.items[i].user_id.eq(user) {
                let ghost before = self@;
                self.items.remove(i);
                proof {
                    lemma_remove_keeps_unique(before, i as int);
                    assert(self@ =~= not_owned_by(start.take(j + 1), user@) + start.skip(j + 1));
                }
                removed = removed + 1;
            } else {
                proof {
                    assert(self@ =~= not_owned_by(start.take(j + 1), user@) + start.skip(j + 1));
                }
                i = i + 1;
            }
            j = j + 1;
        }
        proof {
            assert(start.take(j as int) =~= start);
            assert(self@ =~= not_owned_by(start, user@));
        }
        removed
    }
}

/// The record `c` after an accepted authentication reporting `reported` at `now`.
pub open spec fn counter_updated(c: Credential, reported: u32, now: u64) -> Credential {
    Credential { sign_counter: reported, updated_at: now, ..c }
}

/// Removing one record keeps credential ids unique.
proof fn lemma_remove_keeps_unique(s: Seq<Credential>, k: int)
    requires
        ids_unique(s),
        0 <= k < s.len(),
    ensures
        ids_unique(s.remove(k)),
{
    let t = s.remove(k);
    assert forall|i: int, j: int| 0 <= i < t.len() && 0 <= j < t.len() && i != j implies (
    #[trigger] t[i]).credential_id@ != (#[trigger] t[j]).credential_id@ by {
        let a = if i < k { i } else { i + 1 };
        let b = if j < k { j } else { j + 1 };
        assert(t[i] == s[a] && t[j] == s[b]);
    }
}

} // verus!
