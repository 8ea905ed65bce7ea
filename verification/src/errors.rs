//! Error taxonomy of the authentication flow.

use vstd::prelude::*;

verus! {

/// Failures surfaced by the token codec and the cache layer.
#[derive(Clone, Debug)]
pub enum ApiError {
    CacheError(String),
    CannotDecodeJwtToken(String),
    CannotEncodeJwtToken(String),
}

impl ApiError {
    /// A short human-readable description of the failure.
    pub fn message(&self) -> (r: String)
        ensures
            r@ == match self {
                ApiError::CacheError(s) => s@,
                ApiError::CannotDecodeJwtToken(s) => s@,
                ApiError::CannotEncodeJwtToken(s) => s@,
            },
    {
        match self {
            ApiError::CacheError(s) => s.clone(),
            ApiError::CannotDecodeJwtToken(s) => s.clone(),
            ApiError::CannotEncodeJwtToken(s) => s.clone(),
        }
    }
}

impl PartialEq for ApiError {
    fn eq(&self, other: &ApiError) -> (r: bool) {
        match (self, other) {
            (ApiError::CacheError(a), ApiError::CacheError(b)) => *a == *b,
            (ApiError::CannotDecodeJwtToken(a), ApiError::CannotDecodeJwtToken(b)) => *a == *b,
            (ApiError::CannotEncodeJwtToken(a), ApiError::CannotEncodeJwtToken(b)) => *a == *b,
            _ => false,
        }
    }
}

impl vstd::std_specs::cmp::PartialEqSpecImpl for ApiError {
    open spec fn obeys_eq_spec() -> bool {
        true
    }

    open spec fn eq_spec(&self, other: &ApiError) -> bool {
        match (self, other) {
            (ApiError::CacheError(a), ApiError::CacheError(b)) => a@ == b@,
            (ApiError::CannotDecodeJwtToken(a), ApiError::CannotDecodeJwtToken(b)) => a@ == b@,
            (ApiError::CannotEncodeJwtToken(a), ApiError::CannotEncodeJwtToken(b)) => a@ == b@,
            _ => false,
        }
    }
}

/// Terminal failures of the login flow and of request-time identity
/// extraction, one variant per observable outcome.
#[derive(Clone, Copy, Debug, PartialEq, Eq, Structural)]
pub enum AuthError {
    /// The callback request lacked the authorization code or the state value.
    MalformedCallback,
    /// The presented CSRF state token was absent, already used, or expired.
    InvalidState,
    /// The provider rejected or failed the code-for-token exchange.
    ProviderExchangeFailed,
    /// The provider rejected or failed the profile fetch.
    ProviderProfileFailed,
    /// The credential's signature did not match, or its payload was mangled.
    InvalidSignature,
    /// The credential's claim had already reached its expiry instant.
    Expired,
    /// The ephemeral store could not be reached.
    StoreUnavailable,
    /// The request carried no usable credential.
    Unauthorized,
}

} // verus!
