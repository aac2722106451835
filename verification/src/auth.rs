use vstd::prelude::*;

use crate::config::Config;
use crate::errors::AuthError;
use crate::errors::EncodingFailure;
use crate::errors::TokenError;
use crate::guard::bearer_prefix;
use crate::guard::lemma_guard_of_bearer;
use crate::guard::spec_authenticate;
use crate::password::password_matches;
use crate::password::verify_password;
use crate::textenc::bytes_of_chars;
use crate::textenc::chars_of_bytes;
use crate::token::issue_token;
use crate::token::spec_issue;
use crate::token::spec_validate;
use crate::user::StoreFault;
use crate::user::User;
use crate::user_id::UserId;
use crate::user_id::lemma_uuid_bytes_valid_sub;
use crate::user_id::lemma_uuid_round_trip;
use crate::user_id::spec_uuid_bytes;
use crate::user_id::user_id_bytes;

verus! {

/// The fixed expiration horizon: a session token lives exactly
/// twenty-four hours from issuance.
pub open spec fn spec_token_lifetime() -> u64 {
    86400
}

/// Mints the session token for a user at the instant `now`: claims
/// binding the subject to the hyphenated spelling of the identifier
/// and the expiration to `now` plus twenty-four hours, signed under
/// the process secret. Minting always succeeds: symmetric signing
/// cannot fail. The token is ASCII text, exactly the issued
/// spelling; validating it under the same secret yields the subject at
/// every instant strictly before the expiration and `Expired` from the
/// expiration on; and the guard, handed `Bearer ` plus this token,
/// authenticates exactly this user on the same terms.
pub fn create_jwt(user_id: UserId, now: u64, config: &Config) -> (r: Result<
    String,
    EncodingFailure,
>)
    requires
        now + spec_token_lifetime() <= u64::MAX,
    ensures
        r is Ok,
        r matches Ok(t) ==> ({
            let exp = (now + spec_token_lifetime()) as u64;
            let sub = spec_uuid_bytes(user_id.value);
            let secret = config.jwt_secret@;
            &&& vstd::utf8::is_ascii_chars(t@)
            &&& bytes_of_chars(t@) == spec_issue(sub, exp, secret)
            &&& t@ == chars_of_bytes(spec_issue(sub, exp, secret))
            &&& forall|at: u64|
                spec_validate(spec_issue(sub, exp, secret), at, secret) == (if at < exp {
                    Ok::<(Seq<u8>, u64), TokenError>((sub, exp))
                } else {
                    Err::<(Seq<u8>, u64), TokenError>(TokenError::Expired)
                })
            &&& forall|at: u64|
                spec_authenticate(
                    Some(bearer_prefix() + spec_issue(sub, exp, secret)),
                    at,
                    secret,
                ) == (if at < exp {
                    Ok::<u128, AuthError>(user_id.value)
                } else {
                    Err::<u128, AuthError>(AuthError::Expired)
                })
        }),
{
    let sub = user_id_bytes(user_id);
    proof {
        lemma_uuid_bytes_valid_sub(user_id.value);
    }
    let r = issue_token(sub.as_slice(), now + 86400, config.jwt_secret.as_slice());
    proof {
        if r is Ok {
            let exp = (now + 86400) as u64;
            let subq = spec_uuid_bytes(user_id.value);
            let secret = config.jwt_secret@;
            lemma_uuid_round_trip(user_id.value);
            assert forall|at: u64|
                spec_authenticate(
                    Some(bearer_prefix() + spec_issue(subq, exp, secret)),
                    at,
                    secret,
                ) == (if at < exp {
                    Ok::<u128, AuthError>(user_id.value)
                } else {
                    Err::<u128, AuthError>(AuthError::Expired)
                }) by {
                lemma_guard_of_bearer(spec_issue(subq, exp, secret), at, secret);
            }
        }
    }
    r
}

/// What a login attempt yields once the store has answered for the
/// submitted username.
pub enum LoginOutcome {
    /// The password verified; the session token is enclosed.
    LoggedIn(String),
    /// No such user, or the password did not verify: one
    /// undifferentiated outcome, so the response reveals neither which
    /// failed nor whether the username exists.
    InvalidCredentials,
    /// The store could not be consulted: a server-side failure,
    /// distinct from invalid credentials.
    StoreFailure,
    /// The token could not be minted: a server-side failure. Symmetric
    /// signing cannot fail, so the login decision never yields this;
    /// its contract promises the logged-in outcome for a verified
    /// password.
    TokenFailure,
}

/// Decides a login attempt: a store failure stays a store failure; an
/// absent user and a failed password verification collapse into the
/// same invalid-credentials outcome; a verified password always
/// yields the user's session token, minted at `now`.
pub fn login_result(
    lookup: Result<Option<User>, StoreFault>,
    password: &str,
    now: u64,
    config: &Config,
) -> (r: LoginOutcome)
    requires
        now + spec_token_lifetime() <= u64::MAX,
    ensures
        match lookup {
            Err(f) => r is StoreFailure,
            Ok(None) => r is InvalidCredentials,
            Ok(Some(u)) => {
                &&& !password_matches(password@, u.password_hash@) ==> r is InvalidCredentials
                &&& password_matches(password@, u.password_hash@) ==> r is LoggedIn
                &&& r matches LoginOutcome::LoggedIn(t) ==> password_matches(
                    password@,
                    u.password_hash@,
                ) && bytes_of_chars(t@) == spec_issue(
                    spec_uuid_bytes(u.id.value),
                    (now + spec_token_lifetime()) as u64,
                    config.jwt_secret@,
                )
            },
        },
{
    let user = match lookup {
        Err(_) => {
            return LoginOutcome::StoreFailure;
        },
        Ok(None) => {
            return LoginOutcome::InvalidCredentials;
        },
        Ok(Some(u)) => u,
    };
    if !verify_password(password, user.password_hash.as_str()) {
        return LoginOutcome::InvalidCredentials;
    }
    match create_jwt(user.id, now, config) {
        Ok(t) => LoginOutcome::LoggedIn(t),
        Err(_) => LoginOutcome::TokenFailure,
    }
}

} // verus!
