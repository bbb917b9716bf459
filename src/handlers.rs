//! Login and registration: the authenticator's outcome followed by a token.

use crate::authenticator::{authenticate, authentication_outcome, register_principal, registers_as};
use crate::common::{LoginRequest, RegisterProducerRequest, TokenResponse};
use crate::config::AppConfig;
use crate::errors::AuthError;
use crate::password::password_verdict;
use crate::store::{email_taken, CredentialStore, PrincipalView};
use crate::password::{MAX_HASH_COST, MIN_HASH_COST};
use crate::token::{issue, token_issued};
use vstd::prelude::*;

verus! {

/// Whether a token issued at `now` with lifetime `ttl` can hold its expiry.
pub open spec fn expiry_fits(now: i64, ttl: i64) -> bool {
    i64::MIN <= now + ttl <= i64::MAX
}

fn expiry_fits_exec(now: i64, ttl: i64) -> (r: bool)
    ensures
        r == expiry_fits(now, ttl),
{
    !((ttl > 0 && now > i64::MAX - ttl) || (ttl < 0 && now < i64::MIN - ttl))
}

/// Checks the credentials of `request` and issues a token for the record they
/// name, at `now`, with the configured lifetime and secret. When `now` plus
/// the lifetime does not fit an `i64`, matching credentials give
/// `SigningError`.
pub fn login(store: &CredentialStore, request: &LoginRequest, now: i64, config: &AppConfig) -> (r: Result<
    TokenResponse,
    AuthError,
>)
    requires
        store.wf(),
    ensures
        authentication_outcome(store@, request.email@, request.password@) matches Err(e) ==> r
            == Err::<TokenResponse, AuthError>(e),
        expiry_fits(now, config.jwt_expiration) ==> (authentication_outcome(
            store@,
            request.email@,
            request.password@,
        ) matches Ok(p) ==> (r matches Ok(t) && token_issued(
            t,
            p.id,
            now,
            config.jwt_expiration,
            config.jwt_secret@,
        ))),
        authentication_outcome(store@, request.email@, request.password@) is Ok && !expiry_fits(
            now,
            config.jwt_expiration,
        ) ==> r == Err::<TokenResponse, AuthError>(AuthError::SigningError),
{
    let producer = authenticate(store, request.email.as_str(), request.password.as_str())?;
    let ttl = config.jwt_expiration;
    if !expiry_fits_exec(now, ttl) {
        return Err(AuthError::SigningError);
    }
    issue(producer.id, now, ttl, config.jwt_secret.as_str())
}

/// Registers the producer that `request` describes and issues a token for it.
/// A taken email is refused with `DuplicateEmail`, and a lifetime that does
/// not fit with `SigningError`, before anything is stored; no refusal changes
/// the store.
pub fn register(
    store: &mut CredentialStore,
    request: &RegisterProducerRequest,
    now: i64,
    config: &AppConfig,
    cost: u32,
) -> (r: Result<TokenResponse, AuthError>)
    requires
        old(store).wf(),
        MIN_HASH_COST <= cost <= MAX_HASH_COST,
    ensures
        final(store).wf(),
        r is Err ==> final(store)@ == old(store)@,
        !expiry_fits(now, config.jwt_expiration) ==> r == Err::<TokenResponse, AuthError>(
            AuthError::SigningError,
        ),
        expiry_fits(now, config.jwt_expiration) && email_taken(old(store)@, request.email@) ==> r == Err::<
            TokenResponse,
            AuthError,
        >(AuthError::DuplicateEmail),
        expiry_fits(now, config.jwt_expiration) && !email_taken(old(store)@, request.email@) ==> (r is Ok
            || r == Err::<TokenResponse, AuthError>(AuthError::HashingError) || (r == Err::<
            TokenResponse,
            AuthError,
        >(AuthError::StoreUnavailable) && old(store)@.len() > 0)),
        r matches Ok(t) ==> exists|p: PrincipalView|
            #![trigger registers_as(p, *request, now)]
            final(store)@ == old(store)@.push(p) && registers_as(p, *request, now) && password_verdict(
                request.password@,
                p.password_hash,
            ) == Some(true) && token_issued(t, p.id, now, config.jwt_expiration, config.jwt_secret@),
{
    let ttl = config.jwt_expiration;
    if !expiry_fits_exec(now, ttl) {
        return Err(AuthError::SigningError);
    }
    let producer = register_principal(store, request, now, cost)?;
    let r = issue(producer.id, now, ttl, config.jwt_secret.as_str());
    proof {
        if let Ok(ref t) = r {
            assert(registers_as(producer@, *request, now));
        }
    }
    r
}

} // verus!
