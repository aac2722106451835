use vstd::prelude::*;

pub mod auth;
pub mod board;
pub mod b64;
pub mod bytestr;
pub mod claims;
pub mod config;
pub mod dec;
pub mod errors;
pub mod guard;
pub mod jwt_crypto;
pub mod password;
pub mod textenc;
pub mod token;
pub mod user;
pub mod user_id;

pub use auth::LoginOutcome;
pub use auth::create_jwt;
pub use auth::login_result;
pub use board::UpdatePostRequest;
pub use claims::Claims;
pub use config::Config;
pub use errors::AuthError;
pub use errors::EncodingFailure;
pub use errors::HashingFailure;
pub use errors::TokenError;
pub use errors::auth_error_status;
pub use errors::token_error_to_auth;
pub use guard::authenticate_request;
pub use guard::resolve_identity;
pub use password::hash_password;
pub use password::verify_password;
pub use token::issue_token;
pub use token::validate_token;
pub use user::AuthUser;
pub use user::StoreFault;
pub use user::User;
pub use user_id::UserId;
pub use user_id::parse_user_id;
pub use user_id::user_id_bytes;

verus! {

} // verus!
