//! Authorization gates: they read the bearer token of a request and either
//! let it through with the claims (and, for the resolving gate, the live record)
//! or reject it.

use crate::errors::{token_fault, AuthError};
use crate::store::{
    id_taken, opt_principal, opt_text, with_active_flag, with_id, CredentialStore, Principal, PrincipalView,
};
use crate::text::{chars_of, string_from_chars};
use crate::token::{
    claims_ok, copy_range, jwt_signed, payload_of, stands_at, uuid_parse, uuid_text_of, validate_token,
    validation_outcome, Claims, ClaimsView,
};
use vstd::prelude::*;

verus! {

/// What a handler behind a gate learns of the request's sender.
#[derive(Debug, Clone)]
pub struct RequestContext {
    pub claims: Claims,
    /// The live record, when it was resolved.
    pub producer: Option<Principal>,
}

/// Gate that checks the token only.
#[derive(Debug, Clone)]
pub struct AuthMiddleware {
    pub jwt_secret: String,
}

/// Gate that checks the token and then the record it names.
#[derive(Debug, Clone)]
pub struct ProducerAuthMiddleware {
    pub jwt_secret: String,
}

pub open spec fn bearer_prefix() -> Seq<char> {
    seq!['B', 'e', 'a', 'r', 'e', 'r', ' ']
}

/// The view of an optional header value.
pub open spec fn header_text(h: Option<&str>) -> Option<Seq<char>> {
    match h {
        Some(t) => Some(t@),
        None => None,
    }
}

/// The token an authorization header carries: what follows `Bearer `.
pub open spec fn bearer_token_of(header: Option<Seq<char>>) -> Option<Seq<char>> {
    match header {
        Some(h) => if h.len() >= 7 && h.subrange(0, 7) == bearer_prefix() {
            Some(h.subrange(7, h.len() as int))
        } else {
            None
        },
        None => None,
    }
}

/// What the token-only gate makes of a request.
pub open spec fn token_gate_outcome(header: Option<Seq<char>>, secret: Seq<char>, now: i64) -> Result<
    ClaimsView,
    AuthError,
> {
    match bearer_token_of(header) {
        None => Err(AuthError::MissingToken),
        Some(t) => validation_outcome(t, secret, now),
    }
}

/// What the resolving gate makes of valid claims whose subject reads as `id`.
pub open spec fn admission(s: Seq<PrincipalView>, id: Option<u128>) -> Result<PrincipalView, AuthError> {
    match id {
        None => Err(AuthError::PrincipalNotFound),
        Some(id) => match with_id(s, id) {
            None => Err(AuthError::PrincipalNotFound),
            Some(p) => if p.is_active {
                Ok(p)
            } else {
                Err(AuthError::AccountInactive)
            },
        },
    }
}

/// The claims part of a gate's result.
pub open spec fn context_claims(r: Result<RequestContext, AuthError>) -> Result<ClaimsView, AuthError> {
    match r {
        Ok(c) => Ok(c.claims@),
        Err(e) => Err(e),
    }
}

/// `r` is what admitting claims `v` gives when the record check gives `a`.
pub open spec fn admitted_as(
    r: Result<RequestContext, AuthError>,
    v: ClaimsView,
    a: Result<PrincipalView, AuthError>,
) -> bool {
    match a {
        Ok(p) => r matches Ok(c) && c.claims@ == v && opt_principal(c.producer) == Some(p),
        Err(e) => r matches Err(x) && x == e,
    }
}

/// The token of an authorization header: what follows `Bearer `; `None` when
/// the header is absent or does not start so.
pub fn bearer_token(header: Option<&str>) -> (r: Option<String>)
    ensures
        opt_text(r) == bearer_token_of(header_text(header)),
{
    let h = match header {
        Some(h) => h,
        None => {
            return None;
        },
    };
    let chars = chars_of(h);
    let mut prefix: Vec<char> = Vec::new();
    prefix.push('B');
    prefix.push('e');
    prefix.push('a');
    prefix.push('r');
    prefix.push('e');
    prefix.push('r');
    prefix.push(' ');
    assert(prefix@ =~= bearer_prefix());
    if !stands_at(&chars, 0, &prefix) {
        return None;
    }
    let rest = copy_range(&chars, 7, chars.len());
    Some(string_from_chars(&rest))
}

impl AuthMiddleware {
    /// Admits a request whose authorization header carries a token valid at
    /// `now`, with its claims; the store is not consulted.
    pub fn authorize(&self, header: Option<&str>, now: i64) -> (r: Result<RequestContext, AuthError>)
        ensures
            context_claims(r) == token_gate_outcome(header_text(header), self.jwt_secret@, now),
            r matches Ok(c) ==> c.producer is None,
            r matches Err(e) ==> e == AuthError::MissingToken || token_fault(e),
            forall|v: ClaimsView|
                claims_ok(v) && bearer_token_of(header_text(header)) == Some(
                    #[trigger] jwt_signed(payload_of(v), self.jwt_secret@),
                ) && v.exp > now ==> context_claims(r) == Ok::<ClaimsView, AuthError>(v),
    {
        let token = match bearer_token(header) {
            Some(t) => t,
            None => {
                return Err(AuthError::MissingToken);
            },
        };
        let claims = validate_token(token.as_str(), self.jwt_secret.as_str(), now)?;
        Ok(RequestContext { claims, producer: None })
    }
}

impl ProducerAuthMiddleware {
    /// Admits valid `claims` whose subject reads as `id` when the store holds
    /// an active record with that identifier.
    pub fn resolve(store: &CredentialStore, claims: Claims, id: Option<u128>) -> (r: Result<RequestContext, AuthError>)
        requires
            store.wf(),
        ensures
            admitted_as(r, claims@, admission(store@, id)),
    {
        let id = match id {
            Some(id) => id,
            None => {
                return Err(AuthError::PrincipalNotFound);
            },
        };
        let producer = match store.find_by_id(id) {
            Some(p) => p,
            None => {
                return Err(AuthError::PrincipalNotFound);
            },
        };
        if !producer.is_active {
            return Err(AuthError::AccountInactive);
        }
        Ok(RequestContext { claims, producer: Some(producer) })
    }

    /// Admits a request whose token is valid at `now` and names an active
    /// record of the store, with the claims and that record.
    pub fn authorize(&self, header: Option<&str>, store: &CredentialStore, now: i64) -> (r: Result<
        RequestContext,
        AuthError,
    >)
        requires
            store.wf(),
        ensures
            r matches Err(e) ==> e == AuthError::MissingToken || token_fault(e) || e
                == AuthError::PrincipalNotFound || e == AuthError::AccountInactive,
            token_gate_outcome(header_text(header), self.jwt_secret@, now) matches Err(e) ==> (r matches Err(x)
                && x == e),
            token_gate_outcome(header_text(header), self.jwt_secret@, now) matches Ok(v) ==> forall|id: u128|
                v.sub == #[trigger] uuid_text_of(id) ==> admitted_as(r, v, admission(store@, Some(id))),
            r matches Ok(c) ==> token_gate_outcome(header_text(header), self.jwt_secret@, now) == Ok::<
                ClaimsView,
                AuthError,
            >(c.claims@),
            r matches Ok(c) ==> (c.producer matches Some(p) && p@.is_active && with_id(store@, p.id) == Some(
                p@,
            )),
            forall|v: ClaimsView, id: u128|
                claims_ok(v) && v.sub == uuid_text_of(id) && bearer_token_of(header_text(header)) == Some(
                    #[trigger] jwt_signed(payload_of(v), self.jwt_secret@),
                ) && v.exp > now ==> #[trigger] admitted_as(r, v, admission(store@, Some(id))),
    {
        let token = match bearer_token(header) {
            Some(t) => t,
            None => {
                return Err(AuthError::MissingToken);
            },
        };
        let claims = validate_token(token.as_str(), self.jwt_secret.as_str(), now)?;
        let id = uuid_parse(claims.sub.as_str());
        let ghost v = claims@;
        let r = ProducerAuthMiddleware::resolve(store, claims, id);
        proof {
            if let Ok(ref c) = r {
                if let Some(i) = id {
                    assert(with_id(store@, i) is Some);
                }
            }
        }
        r
    }
}

/// Once the active flag of a stored record is cleared, the resolving gate
/// refuses valid claims naming it with `AccountInactive`, whatever token
/// carried them; the token-only gate does not read the store at all.
pub proof fn lemma_deactivated_principal_refused(s: Seq<PrincipalView>, id: u128)
    requires
        id_taken(s, id),
    ensures
        admission(with_active_flag(s, id, false), Some(id)) == Err::<PrincipalView, AuthError>(
            AuthError::AccountInactive,
        ),
{
    let t = with_active_flag(s, id, false);
    let i = choose|i: int| 0 <= i < s.len() && #[trigger] s[i].id == id;
    assert(t[i].id == id);
    assert(id_taken(t, id));
    let k = choose|k: int| 0 <= k < t.len() && #[trigger] t[k].id == id;
    assert(s[k].id == id);
}

/// The record a resolving gate attached to the request.
pub fn get_producer_from_request(ctx: &RequestContext) -> (r: Result<Principal, AuthError>)
    ensures
        ctx.producer matches Some(p) ==> (r matches Ok(q) && q@ == p@),
        ctx.producer is None ==> r == Err::<Principal, AuthError>(AuthError::PrincipalNotFound),
{
    match &ctx.producer {
        Some(p) => Ok(p.duplicate()),
        None => Err(AuthError::PrincipalNotFound),
    }
}

} // verus!
