use vstd::prelude::*;

verus! {

/// Terminal outcomes of token validation. Every rejection is final:
/// nothing is retried.
#[derive(Clone, Copy, Debug, PartialEq, Eq, Structural)]
pub enum TokenError {
    /// The token does not split into three non-empty segments, or its
    /// claims segment does not decode to a subject and an expiration.
    Malformed,
    /// The signature segment does not match the first two segments
    /// under the process secret.
    InvalidSignature,
    /// The clock is at or past the claimed expiration instant.
    Expired,
}

/// Terminal outcomes of the per-request authentication guard.
#[derive(Clone, Copy, Debug, PartialEq, Eq, Structural)]
pub enum AuthError {
    /// No authorization header was presented.
    MissingCredential,
    /// The header does not carry the bearer scheme.
    MalformedCredential,
    /// The token itself is malformed.
    Malformed,
    /// The token's signature does not verify.
    InvalidSignature,
    /// The token is past its expiration instant.
    Expired,
    /// The verified subject is not a well-formed user identifier.
    MalformedSubject,
    /// The store answered, but knows no user with that identifier.
    UnknownSubject,
    /// The store could not be reached; infrastructure health, not
    /// caller input.
    StoreUnavailable,
}

/// Failure of password hashing: underlying entropy or resource
/// exhaustion. A server-side failure, never caused by the password
/// value itself.
#[derive(Clone, Copy, Debug, PartialEq, Eq, Structural)]
pub struct HashingFailure;

/// Failure to encode or sign a token; should not occur for well-formed
/// inputs. A server-side failure.
#[derive(Clone, Copy, Debug, PartialEq, Eq, Structural)]
pub struct EncodingFailure;

/// How a token rejection surfaces from the guard: the same shape,
/// one to one.
pub open spec fn spec_token_error_to_auth(e: TokenError) -> AuthError {
    match e {
        TokenError::Malformed => AuthError::Malformed,
        TokenError::InvalidSignature => AuthError::InvalidSignature,
        TokenError::Expired => AuthError::Expired,
    }
}

pub fn token_error_to_auth(e: TokenError) -> (r: AuthError)
    ensures
        r == spec_token_error_to_auth(e),
{
    match e {
        TokenError::Malformed => AuthError::Malformed,
        TokenError::InvalidSignature => AuthError::InvalidSignature,
        TokenError::Expired => AuthError::Expired,
    }
}

/// Whether a guard rejection reflects infrastructure health rather
/// than caller input.
pub open spec fn spec_is_server_side(e: AuthError) -> bool {
    e == AuthError::StoreUnavailable
}

/// The HTTP status under which a guard rejection surfaces: every
/// caller-side rejection is an undifferentiated `401`, so the response
/// discloses no specific reason; a store failure is a `500`, distinct
/// from unauthorized.
pub fn auth_error_status(e: AuthError) -> (r: u16)
    ensures
        r == 500 <==> spec_is_server_side(e),
        r == 401 <==> !spec_is_server_side(e),
{
    match e {
        AuthError::StoreUnavailable => 500,
        _ => 401,
    }
}

} // verus!
