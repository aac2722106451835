use vstd::prelude::*;

use crate::user_id::UserId;

verus! {

/// A stored user record, as the external user store hands it back.
/// Timestamps are seconds since the epoch. The password hash is the
/// self-describing string the password hasher produced; it must never
/// be logged or returned in any response.
pub struct User {
    pub id: UserId,
    pub username: String,
    pub password_hash: String,
    pub email: String,
    pub created_at: i64,
    pub updated_at: i64,
}

/// The resolved principal for one request: the record of the user the
/// verified token's subject named. Scoped to that request, never
/// cached or shared across requests.
pub struct AuthUser(pub User);

/// A transport or storage failure while consulting the user store:
/// infrastructure health, distinct from "not found".
#[derive(Clone, Copy, Debug, PartialEq, Eq, Structural)]
pub struct StoreFault;

} // verus!
