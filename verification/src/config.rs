use vstd::prelude::*;

verus! {

/// Process-wide configuration: loaded once at startup and read-only
/// afterwards. The signing secret is shared by token issuance and
/// validation; if the two ever saw different secrets, no issued token
/// would validate.
pub struct Config {
    pub database_url: String,
    pub jwt_secret: Vec<u8>,
    pub server_port: u16,
}

impl Config {
    /// Builds a configuration from already-loaded plain values; reading
    /// the process environment is the caller's concern.
    pub fn new(database_url: String, jwt_secret: Vec<u8>, server_port: u16) -> (r: Config)
        ensures
            r.database_url == database_url,
            r.jwt_secret == jwt_secret,
            r.server_port == server_port,
    {
        Config { database_url, jwt_secret, server_port }
    }
}

} // verus!
