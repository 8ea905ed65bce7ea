//! The callback coordinator: entry validation, state redemption and session
//! issuance. The two provider calls in between are I/O the caller performs;
//! each step here has an exact contract, and a failed step leaves nothing
//! for the next one to run on.

use vstd::prelude::*;

use crate::codec::{
    create_jwt, spec_token, ser_claim, no_dot, ClaimView, PrivateClaim, MAX_INSTANT,
    MAX_VALIDITY_HOURS,
};
use crate::csrf::{spec_redeem, StateStore};
use crate::errors::{ApiError, AuthError};
use crate::trust::{now_ts, sig_of, sig_ok};
use crate::user::{DiscordUser, UserView};
use vstd::utf8::encode_utf8;

verus! {

/// The two query parameters a provider redirect may carry.
#[derive(Clone, Debug)]
pub struct CallbackQuery {
    pub code: Option<String>,
    pub state: Option<String>,
}

/// The claim minted for a profile at instant `now` with the configured
/// validity in hours.
pub open spec fn claim_of(u: UserView, now: int, hours: int) -> ClaimView {
    ClaimView { id: u.id, discord: u, exp: now + hours * 3600 }
}

/// Entry validation and state redemption, the steps before any provider
/// call. A request missing the code or the state is `MalformedCallback` and
/// touches nothing; otherwise the state token is redeemed, and only a
/// successful single-use redemption hands back the authorization code for
/// the exchange.
pub fn callback_begin(query: &CallbackQuery, store: &mut StateStore, now: i64) -> (r: Result<
    String,
    AuthError,
>)
    requires
        old(store).wf(),
    ensures
        final(store).wf(),
        (query.code is None || query.state is None) ==> {
            &&& r == Result::<String, AuthError>::Err(AuthError::MalformedCallback)
            &&& final(store)@ == old(store)@
        },
        (query.code is Some && query.state is Some) ==> {
            &&& (final(store)@, if r is Ok {
                Result::<(), AuthError>::Ok(())
            } else {
                Result::<(), AuthError>::Err(AuthError::InvalidState)
            }) == spec_redeem(old(store)@, query.state.unwrap()@, now as int)
            &&& (r matches Ok(c) ==> c@ == query.code.unwrap()@)
            &&& (r is Err ==> r == Result::<String, AuthError>::Err(AuthError::InvalidState))
        },
{
    let code = match &query.code {
        Option::None => {
            return Result::Err(AuthError::MalformedCallback);
        },
        Option::Some(c) => c,
    };
    let state = match &query.state {
        Option::None => {
            return Result::Err(AuthError::MalformedCallback);
        },
        Option::Some(s) => s,
    };
    match store.redeem_at(state.as_str(), now) {
        Result::Ok(()) => Result::Ok(code.clone()),
        Result::Err(_) => Result::Err(AuthError::InvalidState),
    }
}

/// Session issuance at a known instant: the terminal step once the profile
/// arrived. Pure computation plus an infallible signing call, so it cannot
/// fail.
pub fn callback_finish_at(user: DiscordUser, key: &[u8], now: i64, hours: i64) -> (r: Result<
    String,
    ApiError,
>)
    requires
        0 <= now <= MAX_INSTANT,
        0 <= hours <= MAX_VALIDITY_HOURS,
    ensures
        r is Ok,
        r matches Ok(t) ==> {
            &&& t@ == spec_token(claim_of(user@, now as int, hours as int), key@)
            &&& sig_ok(
                key@,
                encode_utf8(ser_claim(claim_of(user@, now as int, hours as int))),
                sig_of(key@, encode_utf8(ser_claim(claim_of(user@, now as int, hours as int)))),
            )
            &&& no_dot(
                sig_of(key@, encode_utf8(ser_claim(claim_of(user@, now as int, hours as int)))),
            )
        },
{
    let claim = PrivateClaim::new(user, now, hours);
    create_jwt(&claim, key)
}

/// Session issuance against the live clock: for any reading up to the
/// codec's latest representable instant it succeeds with the token for
/// that instant, and it fails, with the encode error, only on a reading
/// past that instant (the clock's value itself is outside every contract
/// here, so the guarantee quantifies over the reading).
pub fn callback_finish(user: DiscordUser, key: &[u8], hours: i64) -> (r: Result<String, ApiError>)
    requires
        0 <= hours <= MAX_VALIDITY_HOURS,
    ensures
        exists|now: int|
            #![trigger spec_token(claim_of(user@, now, hours as int), key@)]
            if 0 <= now <= MAX_INSTANT {
                r matches Ok(t) && t@ == spec_token(claim_of(user@, now, hours as int), key@)
            } else {
                now > MAX_INSTANT && (r matches Err(e)
                    && e matches ApiError::CannotEncodeJwtToken(_))
            },
{
    let now = now_ts();
    let ghost witness: int = now as int;
    let ghost witness_token = spec_token(claim_of(user@, witness, hours as int), key@);
    if now > MAX_INSTANT {
        let r = Result::Err(
            ApiError::CannotEncodeJwtToken(String::from_str("system clock out of range")),
        );
        proof {
            assert(witness > MAX_INSTANT);
        }
        return r;
    }
    let r = callback_finish_at(user, key, now, hours);
    proof {
        assert(0 <= witness <= MAX_INSTANT);
        assert(r matches Ok(t) && t@ == witness_token);
    }
    r
}

/// The provider's answer to a successful code-for-token exchange.
#[derive(Clone, Debug)]
pub struct AccessTokenResponse {
    pub access_token: String,
    pub token_type: String,
    pub expires_in: u64,
    pub refresh_token: String,
    pub scope: String,
}

} // verus!
