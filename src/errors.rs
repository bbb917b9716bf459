//! Failures of the authentication core, and how each is shown to a client.

use vstd::prelude::*;

verus! {

/// Every way an authentication step can fail.
#[derive(Debug, Clone, Copy, PartialEq, Eq, Structural)]
pub enum AuthError {
    /// Unknown email or wrong password; the two are never told apart.
    InvalidCredentials,
    /// The email is already registered.
    DuplicateEmail,
    /// No bearer token in the request.
    MissingToken,
    /// The token cannot be read or its signature does not hold.
    MalformedToken,
    /// The token's expiry is not after the time of the check.
    ExpiredToken,
    /// The token is signed with another algorithm than the one expected.
    UnsupportedAlgorithm,
    /// The token's subject names no stored principal.
    PrincipalNotFound,
    /// The token's subject is a deactivated principal.
    AccountInactive,
    /// The password could not be hashed.
    HashingError,
    /// The store refused the write.
    StoreUnavailable,
    /// A token could not be produced.
    SigningError,
    /// An identifier is not in UUID form.
    InvalidId,
}

/// A failed token check: unreadable or badly signed, expired, or signed with
/// another algorithm.
pub open spec fn token_fault(e: AuthError) -> bool {
    e == AuthError::MalformedToken || e == AuthError::ExpiredToken || e == AuthError::UnsupportedAlgorithm
}

/// The body of a rejection sent to a client.
#[derive(Debug, Clone)]
pub struct ErrorResponse {
    pub error: String,
}

/// The HTTP status that reports `e`: 400 for a bad request, 401 for missing,
/// invalid or expired tokens and bad credentials, 403 for an inactive
/// account, 500 for internal failures.
pub open spec fn status_of(e: AuthError) -> u16 {
    match e {
        AuthError::DuplicateEmail | AuthError::InvalidId => 400,
        AuthError::AccountInactive => 403,
        AuthError::HashingError | AuthError::StoreUnavailable | AuthError::SigningError => 500,
        _ => 401,
    }
}

/// The message a client is shown for `e`. The three token faults share one
/// message, so that nothing of the check's inner workings leaks.
pub open spec fn message_of(e: AuthError) -> Seq<char> {
    match e {
        AuthError::InvalidCredentials => "Invalid credentials"@,
        AuthError::DuplicateEmail => "Email already exists"@,
        AuthError::MissingToken => "Missing authorization header"@,
        AuthError::MalformedToken | AuthError::ExpiredToken | AuthError::UnsupportedAlgorithm => "Invalid token"@,
        AuthError::PrincipalNotFound => "Producer not found"@,
        AuthError::AccountInactive => "Producer account is inactive"@,
        AuthError::HashingError => "Password hashing error"@,
        AuthError::StoreUnavailable => "Database error"@,
        AuthError::SigningError => "Token signing error"@,
        AuthError::InvalidId => "Invalid ID format"@,
    }
}

/// Every failed token check is reported alike: 401 with "Invalid token", so a
/// client does not learn which check failed.
pub proof fn lemma_token_faults_look_alike(e: AuthError)
    requires
        token_fault(e),
    ensures
        status_of(e) == 401,
        message_of(e) == message_of(AuthError::MalformedToken),
{
}

impl AuthError {
    /// The HTTP status that reports this failure.
    pub fn status_code(&self) -> (r: u16)
        ensures
            r == status_of(*self),
    {
        match self {
            AuthError::DuplicateEmail | AuthError::InvalidId => 400,
            AuthError::AccountInactive => 403,
            AuthError::HashingError | AuthError::StoreUnavailable | AuthError::SigningError => 500,
            _ => 401,
        }
    }

    /// The message a client is shown for this failure.
    pub fn message(&self) -> (r: String)
        ensures
            r@ == message_of(*self),
    {
        let text = match self {
            AuthError::InvalidCredentials => "Invalid credentials",
            AuthError::DuplicateEmail => "Email already exists",
            AuthError::MissingToken => "Missing authorization header",
            AuthError::MalformedToken | AuthError::ExpiredToken | AuthError::UnsupportedAlgorithm => "Invalid token",
            AuthError::PrincipalNotFound => "Producer not found",
            AuthError::AccountInactive => "Producer account is inactive",
            AuthError::HashingError => "Password hashing error",
            AuthError::StoreUnavailable => "Database error",
            AuthError::SigningError => "Token signing error",
            AuthError::InvalidId => "Invalid ID format",
        };
        text.to_owned()
    }

    /// The status and body of the rejection that reports this failure.
    pub fn error_response(&self) -> (r: (u16, ErrorResponse))
        ensures
            r.0 == status_of(*self),
            r.1.error@ == message_of(*self),
    {
        (self.status_code(), ErrorResponse { error: self.message() })
    }
}

} // verus!
