//! Registration and credential checks against the credential store.

use crate::common::{Language, ProducerStatus, RegisterProducerRequest};
use crate::errors::AuthError;
use crate::password::{hash, password_verdict, verify, MAX_HASH_COST, MIN_HASH_COST};
use crate::store::{
    copy_opt, email_taken, opt_text, unique_keys, with_email, CredentialStore, Principal, PrincipalView,
};
use vstd::prelude::*;

verus! {

/// The language a registration asks for, Spanish when it names none.
pub open spec fn requested_language(request: RegisterProducerRequest) -> Language {
    match request.language_preference {
        Some(l) => l,
        None => Language::Spanish,
    }
}

/// `p` is the record that `request` creates at `now`: the request's profile,
/// active, email not verified, pending review.
pub open spec fn registers_as(p: PrincipalView, request: RegisterProducerRequest, now: i64) -> bool {
    &&& p.full_name == request.full_name@
    &&& p.email == request.email@
    &&& p.farm_name == opt_text(request.farm_name)
    &&& p.phone == opt_text(request.phone)
    &&& p.language_preference == requested_language(request)
    &&& p.is_active
    &&& !p.email_verified
    &&& p.status == ProducerStatus::Pending
    &&& p.created_at == now
    &&& p.updated_at == now
}

/// The view of a result that carries a record.
pub open spec fn principal_result(r: Result<Principal, AuthError>) -> Result<PrincipalView, AuthError> {
    match r {
        Ok(p) => Ok(p@),
        Err(e) => Err(e),
    }
}

/// What checking `email` and `password` against the records `s` gives: the
/// record holding the email when the password matches its hash, and the one
/// error `InvalidCredentials` otherwise, whichever check failed.
pub open spec fn authentication_outcome(s: Seq<PrincipalView>, email: Seq<char>, password: Seq<char>) -> Result<
    PrincipalView,
    AuthError,
> {
    match with_email(s, email) {
        None => Err(AuthError::InvalidCredentials),
        Some(p) => if password_verdict(password, p.password_hash) == Some(true) {
            Ok(p)
        } else {
            Err(AuthError::InvalidCredentials)
        },
    }
}

/// Relies on uuid's `Uuid::new_v4`: a random identifier. Nothing is assumed of it.
#[verifier::external_body]
fn random_id() -> (r: u128) {
    uuid::Uuid::new_v4().as_u128()
}

impl Principal {
    /// The record that `request` creates at `now`, under identifier `id` and
    /// with the already computed `password_hash`.
    pub fn registered(request: &RegisterProducerRequest, id: u128, password_hash: String, now: i64) -> (r: Principal)
        ensures
            registers_as(r@, *request, now),
            r.id == id,
            r@.password_hash == password_hash@,
    {
        let language = match request.language_preference {
            Some(l) => l,
            None => Language::default(),
        };
        Principal {
            id,
            full_name: request.full_name.clone(),
            email: request.email.clone(),
            password_hash,
            farm_name: copy_opt(&request.farm_name),
            phone: copy_opt(&request.phone),
            language_preference: language,
            is_active: true,
            email_verified: false,
            status: ProducerStatus::Pending,
            created_at: now,
            updated_at: now,
        }
    }
}

/// Registers the producer that `request` describes, at time `now`, hashing the
/// password with work factor `cost`. A taken email is refused with
/// `DuplicateEmail` before anything is hashed; no refusal changes the store.
pub fn register_principal(
    store: &mut CredentialStore,
    request: &RegisterProducerRequest,
    now: i64,
    cost: u32,
) -> (r: Result<Principal, AuthError>)
    requires
        old(store).wf(),
        MIN_HASH_COST <= cost <= MAX_HASH_COST,
    ensures
        final(store).wf(),
        email_taken(old(store)@, request.email@) ==> r == Err::<Principal, AuthError>(AuthError::DuplicateEmail),
        r == Err::<Principal, AuthError>(AuthError::StoreUnavailable) ==> old(store)@.len() > 0,
        !email_taken(old(store)@, request.email@) ==> r is Ok || r == Err::<Principal, AuthError>(AuthError::HashingError)
            || r == Err::<Principal, AuthError>(AuthError::StoreUnavailable),
        r is Err ==> final(store)@ == old(store)@,
        r matches Ok(p) ==> final(store)@ == old(store)@.push(p@),
        r matches Ok(p) ==> registers_as(p@, *request, now),
        r matches Ok(p) ==> password_verdict(request.password@, p@.password_hash) == Some(true),
{
    if store.find_by_email(request.email.as_str()).is_some() {
        return Err(AuthError::DuplicateEmail);
    }
    let password_hash = hash(request.password.as_str(), cost)?;
    let principal = Principal::registered(request, random_id(), password_hash, now);
    let kept = principal.duplicate();
    match store.insert(principal) {
        Ok(()) => Ok(kept),
        Err(e) => Err(e),
    }
}

/// Checks `email` and `password` against the store. An unknown email, a wrong
/// password and an unreadable stored hash all give `InvalidCredentials`.
pub fn authenticate(store: &CredentialStore, email: &str, password: &str) -> (r: Result<Principal, AuthError>)
    requires
        store.wf(),
    ensures
        principal_result(r) == authentication_outcome(store@, email@, password@),
{
    let found = match store.find_by_email(email) {
        Some(p) => p,
        None => {
            return Err(AuthError::InvalidCredentials);
        },
    };
    match verify(password, found.password_hash.as_str()) {
        Ok(true) => Ok(found),
        _ => Err(AuthError::InvalidCredentials),
    }
}

/// After a record is added, its email is taken: registering it again is
/// refused with `DuplicateEmail`.
pub proof fn lemma_registered_email_taken(s: Seq<PrincipalView>, p: PrincipalView)
    ensures
        email_taken(s.push(p), p.email),
{
    assert(s.push(p)[s.len() as int].email == p.email);
}

/// A producer registered once with a password is found by its email with that
/// password: the check gives back that very record, identifier included, each
/// time it is made on the same store.
pub proof fn lemma_registered_principal_authenticates(
    s: Seq<PrincipalView>,
    p: PrincipalView,
    password: Seq<char>,
)
    requires
        unique_keys(s),
        !email_taken(s, p.email),
        password_verdict(password, p.password_hash) == Some(true),
    ensures
        authentication_outcome(s.push(p), p.email, password) == Ok::<PrincipalView, AuthError>(p),
{
    let t = s.push(p);
    lemma_registered_email_taken(s, p);
    let k = choose|k: int| 0 <= k < t.len() && #[trigger] t[k].email == p.email;
    if k < s.len() {
        assert(s[k].email == p.email);
    }
}

/// A password the stored hash does not accept, and an email no record holds,
/// fail alike with `InvalidCredentials`.
pub proof fn lemma_failed_logins_look_alike(s: Seq<PrincipalView>, email: Seq<char>, password: Seq<char>)
    requires
        with_email(s, email) matches Some(p) ==> password_verdict(password, p.password_hash) != Some(true),
    ensures
        authentication_outcome(s, email, password) == Err::<PrincipalView, AuthError>(AuthError::InvalidCredentials),
{
}

} // verus!
