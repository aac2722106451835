use vstd::prelude::*;

use crate::bytestr::window_eq;
use crate::config::Config;
use crate::errors::AuthError;
use crate::errors::spec_token_error_to_auth;
use crate::errors::token_error_to_auth;
use crate::textenc::bytes_of_chars;
use crate::token::spec_validate;
use crate::token::validate_token;
use crate::user::AuthUser;
use crate::user::StoreFault;
use crate::user::User;
use crate::user_id::UserId;
use crate::user_id::parse_user_id;
use crate::user_id::spec_parse_uuid;

verus! {

broadcast use vstd::string::is_ascii_spec_bytes;

/// The bytes `Bearer ` that must open the authorization header:
/// case-sensitive, a single space.
pub open spec fn bearer_prefix() -> Seq<u8> {
    seq![66u8, 101u8, 97u8, 114u8, 101u8, 114u8, 32u8]
}

/// The scheme bytes, as a value the code can compare against.
fn bearer_prefix_vec() -> (v: Vec<u8>)
    ensures
        v@ == bearer_prefix(),
{
    let mut v: Vec<u8> = Vec::new();
    v.push(66);
    v.push(101);
    v.push(97);
    v.push(114);
    v.push(101);
    v.push(114);
    v.push(32);
    proof {
        assert(v@ =~= bearer_prefix());
    }
    v
}

/// What the guard decides from the authorization header, the clock
/// and the secret, before the store is consulted: the subject's
/// identifier value, or the terminal rejection. An absent header is a
/// missing credential; one that does not open with the bearer scheme
/// is a malformed credential; a token rejection surfaces in the same
/// shape; a verified subject that is not a well-formed identifier is a
/// malformed subject.
pub open spec fn spec_authenticate(header: Option<Seq<u8>>, now: u64, secret: Seq<u8>) -> Result<
    u128,
    AuthError,
> {
    match header {
        None => Err(AuthError::MissingCredential),
        Some(h) => {
            if h.len() < 7 || h.take(7) != bearer_prefix() {
                Err(AuthError::MalformedCredential)
            } else {
                match spec_validate(h.skip(7), now, secret) {
                    Err(e) => Err(spec_token_error_to_auth(e)),
                    Ok((sub, exp)) => match spec_parse_uuid(sub) {
                        None => Err(AuthError::MalformedSubject),
                        Some(v) => Ok(v),
                    },
                }
            }
        },
    }
}

/// The view of an optional header value.
pub open spec fn spec_header(header: Option<&[u8]>) -> Option<Seq<u8>> {
    match header {
        None => None,
        Some(h) => Some(h@),
    }
}

/// Turns an inbound request's authorization header into the verified
/// subject's identifier, or the rejection `spec_authenticate` names.
/// One pass, no retries; the store lookup that follows is the
/// caller's step.
pub fn authenticate_request(header: Option<&[u8]>, now: u64, config: &Config) -> (r: Result<
    UserId,
    AuthError,
>)
    ensures
        match r {
            Ok(id) => spec_authenticate(spec_header(header), now, config.jwt_secret@) == Ok::<
                u128,
                AuthError,
            >(id.value),
            Err(e) => spec_authenticate(spec_header(header), now, config.jwt_secret@) == Err::<
                u128,
                AuthError,
            >(e),
        },
{
    let h = match header {
        None => {
            return Err(AuthError::MissingCredential);
        },
        Some(h) => h,
    };
    if h.len() < 7 {
        return Err(AuthError::MalformedCredential);
    }
    let p = bearer_prefix_vec();
    if !window_eq(h, 0, p.as_slice()) {
        proof {
            assert(h@.take(7) =~= h@.subrange(0, 7));
        }
        return Err(AuthError::MalformedCredential);
    }
    proof {
        assert(h@.take(7) =~= h@.subrange(0, 7));
    }
    let token = &h[7..h.len()];
    proof {
        assert(token@ =~= h@.skip(7));
    }
    let claims = match validate_token(token, now, config.jwt_secret.as_slice()) {
        Err(e) => {
            return Err(token_error_to_auth(e));
        },
        Ok(c) => c,
    };
    let sub_str = claims.sub.as_str();
    let sub_bytes = sub_str.as_bytes();
    proof {
        assert(vstd::string::is_ascii(sub_str));
        assert(sub_bytes@ =~= bytes_of_chars(claims.sub@));
    }
    match parse_user_id(sub_bytes) {
        None => Err(AuthError::MalformedSubject),
        Some(id) => Ok(id),
    }
}

/// Finishes the guard once the store has answered for the verified
/// subject: a transport failure is the one server-side rejection, an
/// absent record is an unknown subject, and a found record becomes the
/// request's authenticated identity, unchanged.
pub fn resolve_identity(lookup: Result<Option<User>, StoreFault>) -> (r: Result<
    AuthUser,
    AuthError,
>)
    ensures
        match lookup {
            Err(f) => r is Err && r->Err_0 == AuthError::StoreUnavailable,
            Ok(None) => r is Err && r->Err_0 == AuthError::UnknownSubject,
            Ok(Some(u)) => r is Ok && r->Ok_0.0 == u,
        },
{
    match lookup {
        Err(_) => Err(AuthError::StoreUnavailable),
        Ok(None) => Err(AuthError::UnknownSubject),
        Ok(Some(u)) => Ok(AuthUser(u)),
    }
}

/// A bearer header carrying a token that validates to a well-formed
/// subject authenticates as exactly that subject; the same header
/// carrying a rejected token is rejected in the same shape. The guard
/// adds nothing and loses nothing between the scheme check and the
/// token check.
pub proof fn lemma_guard_of_bearer(t: Seq<u8>, now: u64, secret: Seq<u8>)
    ensures
        ({
            let h = bearer_prefix() + t;
            spec_authenticate(Some(h), now, secret) == match spec_validate(t, now, secret) {
                Err(e) => Err::<u128, AuthError>(spec_token_error_to_auth(e)),
                Ok(p) => match spec_parse_uuid(p.0) {
                    None => Err::<u128, AuthError>(AuthError::MalformedSubject),
                    Some(v) => Ok::<u128, AuthError>(v),
                },
            }
        }),
{
    let h = bearer_prefix() + t;
    assert(h.take(7) =~= bearer_prefix());
    assert(h.skip(7) =~= t);
}

} // verus!
