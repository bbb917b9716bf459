//! The credential store: producer records kept by identifier, with email and
//! identifier unique across records.

use crate::common::{Language, ProducerStatus, UpdateProducerRequest};
use crate::errors::AuthError;
use vstd::prelude::*;

verus! {

/// An authenticated producer account.
#[derive(Debug, Clone)]
pub struct Principal {
    pub id: u128,
    pub full_name: String,
    pub email: String,
    /// Salted one-way hash of the password.
    pub password_hash: String,
    pub farm_name: Option<String>,
    pub phone: Option<String>,
    pub language_preference: Language,
    pub is_active: bool,
    pub email_verified: bool,
    pub status: ProducerStatus,
    /// Creation time, in Unix seconds.
    pub created_at: i64,
    /// Time of the last change, in Unix seconds.
    pub updated_at: i64,
}

/// Mathematical view of a `Principal`.
pub struct PrincipalView {
    pub id: u128,
    pub full_name: Seq<char>,
    pub email: Seq<char>,
    pub password_hash: Seq<char>,
    pub farm_name: Option<Seq<char>>,
    pub phone: Option<Seq<char>>,
    pub language_preference: Language,
    pub is_active: bool,
    pub email_verified: bool,
    pub status: ProducerStatus,
    pub created_at: i64,
    pub updated_at: i64,
}

/// The view of an optional string.
pub open spec fn opt_text(o: Option<String>) -> Option<Seq<char>> {
    match o {
        Some(s) => Some(s@),
        None => None,
    }
}

impl View for Principal {
    type V = PrincipalView;

    open spec fn view(&self) -> PrincipalView {
        PrincipalView {
            id: self.id,
            full_name: self.full_name@,
            email: self.email@,
            password_hash: self.password_hash@,
            farm_name: opt_text(self.farm_name),
            phone: opt_text(self.phone),
            language_preference: self.language_preference,
            is_active: self.is_active,
            email_verified: self.email_verified,
            status: self.status,
            created_at: self.created_at,
            updated_at: self.updated_at,
        }
    }
}

/// A copy of an optional string.
pub fn copy_opt(o: &Option<String>) -> (r: Option<String>)
    ensures
        opt_text(r) == opt_text(*o),
{
    match o {
        Some(s) => Some(s.clone()),
        None => None,
    }
}

impl Principal {
    /// A copy of this record.
    pub fn duplicate(&self) -> (r: Principal)
        ensures
            r@ == self@,
    {
        Principal {
            id: self.id,
            full_name: self.full_name.clone(),
            email: self.email.clone(),
            password_hash: self.password_hash.clone(),
            farm_name: copy_opt(&self.farm_name),
            phone: copy_opt(&self.phone),
            language_preference: self.language_preference,
            is_active: self.is_active,
            email_verified: self.email_verified,
            status: self.status,
            created_at: self.created_at,
            updated_at: self.updated_at,
        }
    }
}

/// `p` after the profile changes `c`, made at `now`: each given field is
/// replaced, the others stay, and the time of change becomes `now`.
pub open spec fn updated_view(p: PrincipalView, c: UpdateProducerRequest, now: i64) -> PrincipalView {
    PrincipalView {
        full_name: match c.full_name {
            Some(v) => v@,
            None => p.full_name,
        },
        farm_name: match c.farm_name {
            Some(v) => Some(v@),
            None => p.farm_name,
        },
        phone: match c.phone {
            Some(v) => Some(v@),
            None => p.phone,
        },
        language_preference: match c.language_preference {
            Some(v) => v,
            None => p.language_preference,
        },
        is_active: match c.is_active {
            Some(v) => v,
            None => p.is_active,
        },
        status: match c.status {
            Some(v) => v,
            None => p.status,
        },
        updated_at: now,
        ..p
    }
}

impl Principal {
    /// Applies the profile changes `changes`, made at `now`.
    pub fn apply_update(&mut self, changes: &UpdateProducerRequest, now: i64)
        ensures
            final(self)@ == updated_view(old(self)@, *changes, now),
    {
        if let Some(v) = &changes.full_name {
            self.full_name = v.clone();
        }
        if let Some(v) = &changes.farm_name {
            self.farm_name = Some(v.clone());
        }
        if let Some(v) = &changes.phone {
            self.phone = Some(v.clone());
        }
        if let Some(v) = changes.language_preference {
            self.language_preference = v;
        }
        if let Some(v) = changes.is_active {
            self.is_active = v;
        }
        if let Some(v) = changes.status {
            self.status = v;
        }
        self.updated_at = now;
    }
}

/// The records after applying `c`, made at `now`, to the one with identifier `id`.
pub open spec fn updated_records(s: Seq<PrincipalView>, id: u128, c: UpdateProducerRequest, now: i64) -> Seq<
    PrincipalView,
> {
    Seq::new(s.len(), |i: int| if s[i].id == id { updated_view(s[i], c, now) } else { s[i] })
}

/// No two records share an email or an identifier.
pub open spec fn unique_keys(s: Seq<PrincipalView>) -> bool {
    forall|i: int, j: int|
        #![trigger s[i], s[j]]
        0 <= i < s.len() && 0 <= j < s.len() && i != j ==> s[i].email != s[j].email && s[i].id != s[j].id
}

pub open spec fn email_taken(s: Seq<PrincipalView>, email: Seq<char>) -> bool {
    exists|i: int| 0 <= i < s.len() && #[trigger] s[i].email == email
}

pub open spec fn id_taken(s: Seq<PrincipalView>, id: u128) -> bool {
    exists|i: int| 0 <= i < s.len() && #[trigger] s[i].id == id
}

/// The record holding `email`, if any.
pub open spec fn with_email(s: Seq<PrincipalView>, email: Seq<char>) -> Option<PrincipalView> {
    if email_taken(s, email) {
        Some(s[choose|i: int| 0 <= i < s.len() && #[trigger] s[i].email == email])
    } else {
        None
    }
}

/// The record with identifier `id`, if any.
pub open spec fn with_id(s: Seq<PrincipalView>, id: u128) -> Option<PrincipalView> {
    if id_taken(s, id) {
        Some(s[choose|i: int| 0 <= i < s.len() && #[trigger] s[i].id == id])
    } else {
        None
    }
}

/// The records after setting the active flag of the one with identifier `id`.
pub open spec fn with_active_flag(s: Seq<PrincipalView>, id: u128, active: bool) -> Seq<PrincipalView> {
    Seq::new(
        s.len(),
        |i: int| if s[i].id == id { PrincipalView { is_active: active, ..s[i] } } else { s[i] },
    )
}

/// The view of an optional record.
pub open spec fn opt_principal(o: Option<Principal>) -> Option<PrincipalView> {
    match o {
        Some(p) => Some(p@),
        None => None,
    }
}

/// Producer records, unique by email and by identifier.
pub struct CredentialStore {
    principals: Vec<Principal>,
}

impl View for CredentialStore {
    type V = Seq<PrincipalView>;

    closed spec fn view(&self) -> Seq<PrincipalView> {
        Seq::new(self.principals@.len(), |i: int| self.principals@[i]@)
    }
}

impl CredentialStore {
    /// Well-formed: no two records share an email or an identifier.
    pub open spec fn wf(&self) -> bool {
        unique_keys(self@)
    }

    /// An empty store.
    pub fn new() -> (r: CredentialStore)
        ensures
            r@ == Seq::<PrincipalView>::empty(),
            r.wf(),
    {
        let r = CredentialStore { principals: Vec::new() };
        assert(r@ =~= Seq::<PrincipalView>::empty());
        r
    }

    /// The number of records.
    pub fn len(&self) -> (r: usize)
        ensures
            r == self@.len(),
    {
        self.principals.len()
    }

    /// The record holding `email` (exact, case-sensitive match).
    pub fn find_by_email(&self, email: &str) -> (r: Option<Principal>)
        requires
            self.wf(),
        ensures
            opt_principal(r) == with_email(self@, email@),
    {
        let wanted = email.to_owned();
        let mut i: usize = 0;
        while i < self.principals.len()
            invariant
                i <= self@.len(),
                self@.len() == self.principals@.len(),
                wanted@ == email@,
                self.wf(),
                forall|j: int| 0 <= j < i ==> self@[j].email != email@,
            decreases self.principals.len() - i,
        {
            assert(self@[i as int] == self.principals@[i as int]@);
            if self.principals[i].email == wanted {
                let found = self.principals[i].duplicate();
                proof {
                    let s = self@;
                    assert(s[i as int].email == email@);
                    assert(email_taken(s, email@));
                    let k = choose|k: int| 0 <= k < s.len() && #[trigger] s[k].email == email@;
                    assert(k == i);
                }
                return Some(found);
            }
            i = i + 1;
        }
        None
    }

    /// The record with identifier `id`.
    pub fn find_by_id(&self, id: u128) -> (r: Option<Principal>)
        requires
            self.wf(),
        ensures
            opt_principal(r) == with_id(self@, id),
    {
        let mut i: usize = 0;
        while i < self.principals.len()
            invariant
                i <= self@.len(),
                self@.len() == self.principals@.len(),
                forall|j: int| 0 <= j < i ==> self@[j].id != id,
                self.wf(),
            decreases self.principals.len() - i,
        {
            assert(self@[i as int] == self.principals@[i as int]@);
            if self.principals[i].id == id {
                let found = self.principals[i].duplicate();
                proof {
                    let s = self@;
                    assert(s[i as int].id == id);
                    assert(id_taken(s, id));
                    let k = choose|k: int| 0 <= k < s.len() && #[trigger] s[k].id == id;
                    assert(k == i);
                }
                return Some(found);
            }
            i = i + 1;
        }
        None
    }

    /// Stores a new record. A taken email is refused with `DuplicateEmail`,
    /// a taken identifier with `StoreUnavailable`; a refusal changes nothing.
    pub fn insert(&mut self, p: Principal) -> (r: Result<(), AuthError>)
        requires
            old(self).wf(),
        ensures
            final(self).wf(),
            email_taken(old(self)@, p@.email) ==> r == Err::<(), AuthError>(AuthError::DuplicateEmail),
            !email_taken(old(self)@, p@.email) && id_taken(old(self)@, p@.id) ==> r == Err::<
                (),
                AuthError,
            >(AuthError::StoreUnavailable),
            !email_taken(old(self)@, p@.email) && !id_taken(old(self)@, p@.id) ==> r is Ok,
            r is Ok ==> final(self)@ == old(self)@.push(p@),
            r is Err ==> final(self)@ == old(self)@,
    {
        let email_found = self.find_by_email(p.email.as_str());
        if email_found.is_some() {
            return Err(AuthError::DuplicateEmail);
        }
        let id_found = self.find_by_id(p.id);
        if id_found.is_some() {
            proof {
                assert(with_id(self@, p@.id) is Some);
            }
            return Err(AuthError::StoreUnavailable);
        }
        let ghost before = self@;
        assert(!email_taken(before, p@.email));
        assert(!id_taken(before, p@.id));
        self.principals.push(p);
        proof {
            assert(self@ =~= before.push(p@)) by {
                assert(self@.len() == before.len() + 1);
            }
            assert forall|i: int, j: int|
                0 <= i < self@.len() && 0 <= j < self@.len() && i != j implies #[trigger] self@[i].email
                != #[trigger] self@[j].email && self@[i].id != self@[j].id by {
                if i < before.len() && j < before.len() {
                    assert(self@[i] == before[i] && self@[j] == before[j]);
                } else if i < before.len() {
                    assert(self@[i] == before[i]);
                } else {
                    assert(self@[j] == before[j]);
                }
            }
        }
        Ok(())
    }

    /// Applies the profile changes `changes`, made at `now`, to the record with
    /// identifier `id` and returns it as it now stands; `None` when there is
    /// no such record, and then nothing changes.
    pub fn update(&mut self, id: u128, changes: &UpdateProducerRequest, now: i64) -> (r: Option<Principal>)
        requires
            old(self).wf(),
        ensures
            final(self).wf(),
            r is Some == id_taken(old(self)@, id),
            final(self)@ == updated_records(old(self)@, id, *changes, now),
            r matches Some(p) ==> with_id(old(self)@, id) matches Some(q) && p@ == updated_view(q, *changes, now),
    {
        let ghost before = self@;
        let ghost after = updated_records(before, id, *changes, now);
        let mut i: usize = 0;
        while i < self.principals.len()
            invariant
                i <= before.len(),
                self@.len() == before.len(),
                self.principals@.len() == before.len(),
                unique_keys(before),
                before == old(self)@,
                after == updated_records(before, id, *changes, now),
                forall|j: int| 0 <= j < i ==> before[j].id != id,
                self@ == before,
            decreases self.principals.len() - i,
        {
            assert(self@[i as int] == self.principals@[i as int]@);
            if self.principals[i].id == id {
                assert(before[i as int].id == id);
                assert(id_taken(before, id));
                let mut p = self.principals[i].duplicate();
                p.apply_update(changes, now);
                assert(p@ == after[i as int]);
                let result = p.duplicate();
                self.principals.set(i, p);
                assert(self@[i as int] == after[i as int]);
                proof {
                    assert forall|j: int| 0 <= j < before.len() implies before[j].id == id <==> j == i by {
                        if j != i && before[j].id == id {
                            assert(before[j].id == before[i as int].id);
                        }
                    }
                    assert(self@ =~= after);
                    assert forall|a: int, b: int|
                        0 <= a < self@.len() && 0 <= b < self@.len() && a != b implies self@[a].email
                        != self@[b].email && self@[a].id != self@[b].id by {
                        assert(self@[a].email == before[a].email && self@[a].id == before[a].id);
                        assert(self@[b].email == before[b].email && self@[b].id == before[b].id);
                    }
                    let k = choose|k: int| 0 <= k < before.len() && #[trigger] before[k].id == id;
                    assert(k == i);
                }
                return Some(result);
            }
            i = i + 1;
        }
        assert(self@ =~= after);
        None
    }

    /// Sets the active flag of the record with identifier `id`; `false` when
    /// there is none, and then nothing changes.
    pub fn set_active(&mut self, id: u128, active: bool) -> (r: bool)
        requires
            old(self).wf(),
        ensures
            final(self).wf(),
            r == id_taken(old(self)@, id),
            final(self)@ == with_active_flag(old(self)@, id, active),
    {
        let ghost before = self@;
        let mut i: usize = 0;
        while i < self.principals.len()
            invariant
                i <= before.len(),
                self@.len() == before.len(),
                self.principals@.len() == before.len(),
                unique_keys(before),
                before == old(self)@,
                forall|j: int| 0 <= j < i ==> before[j].id != id,
                self@ == before,
            decreases self.principals.len() - i,
        {
            assert(self@[i as int] == self.principals@[i as int]@);
            if self.principals[i].id == id {
                assert(before[i as int].id == id);
                assert(id_taken(before, id));
                let mut p = self.principals[i].duplicate();
                p.is_active = active;
                self.principals.set(i, p);
                proof {
                    assert forall|j: int| 0 <= j < before.len() implies before[j].id == id <==> j == i by {
                        if j != i && before[j].id == id {
                            assert(before[j].id == before[i as int].id);
                        }
                    }
                    assert(self@ =~= with_active_flag(before, id, active));
                    assert forall|a: int, b: int|
                        0 <= a < self@.len() && 0 <= b < self@.len() && a != b implies self@[a].email
                        != self@[b].email && self@[a].id != self@[b].id by {
                        assert(self@[a].email == before[a].email && self@[a].id == before[a].id);
                        assert(self@[b].email == before[b].email && self@[b].id == before[b].id);
                    }
                }
                return true;
            }
            i = i + 1;
        }
        assert(self@ =~= with_active_flag(before, id, active));
        false
    }
}

} // verus!
