//! Request-time identity extraction: the inbound credential becomes a
//! trusted identity or the request is rejected, with every verification
//! failure normalized to `Unauthorized`.

use vstd::prelude::*;

use crate::codec::{spec_verify, verify, ClaimView};
use crate::errors::AuthError;
use crate::trust::now_ts;
use crate::user::AuthUser;

verus! {

/// Extraction at a known instant: no credential, a bad signature and an
/// expired claim all reject alike with `Unauthorized`; a verified claim
/// yields the subject id and the embedded profile, untouched.
pub fn authenticate_at(credential: Option<&str>, key: &[u8], now: i64) -> (r: Result<
    AuthUser,
    AuthError,
>)
    ensures
        credential is None ==> r == Result::<AuthUser, AuthError>::Err(AuthError::Unauthorized),
        credential matches Some(t) ==> match spec_verify(t@, key@, now as int) {
            Result::Ok(cv) => r matches Ok(u) && u.id@ == cv.id && u.discord@ == cv.discord,
            Result::Err(_) => r == Result::<AuthUser, AuthError>::Err(AuthError::Unauthorized),
        },
{
    let token = match credential {
        Option::None => {
            return Result::Err(AuthError::Unauthorized);
        },
        Option::Some(t) => t,
    };
    match verify(token, key, now) {
        Result::Ok(claim) => Result::Ok(AuthUser { id: claim.id, discord: claim.discord }),
        Result::Err(_) => Result::Err(AuthError::Unauthorized),
    }
}

/// Extraction against the live clock. Side-effect-free: a signature check
/// and a timestamp comparison, nothing else.
pub fn authenticate(credential: Option<&str>, key: &[u8]) -> (r: Result<AuthUser, AuthError>)
    ensures
        credential is None ==> r == Result::<AuthUser, AuthError>::Err(AuthError::Unauthorized),
        credential matches Some(t) ==> match r {
            Result::Ok(u) => exists|now: int|
                now >= 0 && ((#[trigger] spec_verify(t@, key@, now)) matches Result::Ok(cv)
                    && u.id@ == cv.id && u.discord@ == cv.discord),
            Result::Err(e) => e == AuthError::Unauthorized && exists|now: int|
                now >= 0 && (#[trigger] spec_verify(t@, key@, now)) is Err,
        },
{
    let now = now_ts();
    let ghost witness: int = now as int;
    let r = authenticate_at(credential, key, now);
    proof {
        match credential {
            Option::Some(t) => match &r {
                Result::Ok(u) => {
                    assert(spec_verify(t@, key@, witness) matches Result::Ok(cv) && u.id@ == cv.id
                        && u.discord@ == cv.discord);
                },
                Result::Err(_e) => {
                    assert(spec_verify(t@, key@, witness) is Err);
                },
            },
            Option::None => {},
        }
    }
    r
}

} // verus!
