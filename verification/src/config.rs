//! The process configuration: an explicit immutable value built once at
//! startup and handed to every component that needs it.

use vstd::prelude::*;

use crate::codec::{MAX_INSTANT, MAX_VALIDITY_HOURS};

verus! {

/// Everything the authentication flow is configured with.
#[derive(Clone, Debug)]
pub struct Config {
    pub discord_id: String,
    pub discord_scopes: Vec<String>,
    pub discord_secret: String,
    pub discord_redirect: String,
    pub jwt_expiration: i64,
    pub jwt_key: String,
    pub redis_url: String,
    pub server_address: String,
    pub session_key: String,
    pub session_name: String,
    pub session_secure: bool,
    pub session_timeout: i64,
}

impl Config {
    /// Bounds a deployable configuration meets: the session validity is a
    /// non-negative number of hours the codec can add to any clock reading.
    pub open spec fn wf(&self) -> bool {
        0 <= self.jwt_expiration <= MAX_VALIDITY_HOURS
    }

    /// Whether the configured validity duration is one the codec accepts;
    /// checked once at startup.
    pub fn check_expiration(&self) -> (r: bool)
        ensures
            r == self.wf(),
    {
        0 <= self.jwt_expiration && self.jwt_expiration <= MAX_VALIDITY_HOURS
    }
}

} // verus!
