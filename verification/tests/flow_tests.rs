//! CSRF broker, callback coordination, login initiation and identity
//! extraction.

use discord_auth::callback::{callback_begin, callback_finish, callback_finish_at, CallbackQuery};
use discord_auth::codec::verify;
use discord_auth::config::Config;
use discord_auth::csrf::StateStore;
use discord_auth::errors::AuthError;
use discord_auth::extractor::{authenticate, authenticate_at};
use discord_auth::login::login_begin;
use discord_auth::user::DiscordUser;

fn neo() -> DiscordUser {
    DiscordUser {
        id: String::from("42"),
        username: String::from("neo"),
        discriminator: String::from("0001"),
        avatar: None,
        bot: None,
        system: None,
        mfa_enabled: None,
        locale: None,
        verified: None,
        email: None,
        flags: None,
        premium_type: None,
        public_flags: None,
    }
}

fn test_config() -> Config {
    Config {
        discord_id: String::from("123456789"),
        discord_scopes: vec![String::from("identify"), String::from("email")],
        discord_secret: String::from("SECRET-REDACTED"),
        discord_redirect: String::from("http://localhost:8080/callback"),
        jwt_expiration: 24,
        jwt_key: String::from("SECRET-REDACTED"),
        redis_url: String::from(""),
        server_address: String::from("127.0.0.1:8080"),
        session_key: String::from("SECRET-REDACTED"),
        session_name: String::from("auth"),
        session_secure: false,
        session_timeout: 1440,
    }
}

#[test]
fn csrf_redeem_succeeds_exactly_once() {
    let mut store = StateStore::new();
    let token = store.issue_at(100);
    assert_eq!(token.len(), 16);
    assert!(token.chars().all(|c| c.is_ascii_alphanumeric()));
    assert_eq!(store.redeem_at(&token, 101), Ok(()));
    assert_eq!(store.redeem_at(&token, 101), Err(AuthError::InvalidState));
}

#[test]
fn csrf_expired_token_cannot_be_redeemed() {
    let mut store = StateStore::new();
    let token = store.issue_at(100);
    // The time to live is 90 seconds: instant 190 is just past it.
    assert_eq!(store.redeem_at(&token, 190), Err(AuthError::InvalidState));
    // Expiry did not consume the entry for an earlier clock either way:
    // a fresh token redeemed in time still works.
    let token2 = store.issue_at(200);
    assert_eq!(store.redeem_at(&token2, 289), Ok(()));
}

#[test]
fn eviction_reclaims_abandoned_tokens() {
    let mut store = StateStore::new();
    store.put(String::from("stale"), 50);
    store.put(String::from("fresh"), 200);
    // Issuing at instant 100 sweeps out entries already past their expiry.
    let _ = store.issue_at(100);
    // The stale entry is gone outright: even a clock before its old expiry
    // cannot redeem it.
    assert_eq!(store.redeem_at("stale", 10), Err(AuthError::InvalidState));
    // The live entry survived the sweep.
    assert_eq!(store.redeem_at("fresh", 150), Ok(()));
}

#[test]
fn csrf_unknown_token_fails() {
    let mut store = StateStore::new();
    assert_eq!(store.redeem_at("never-issued", 0), Err(AuthError::InvalidState));
}

#[test]
fn scenario_put_redeem_redeem() {
    let mut store = StateStore::new();
    store.put(String::from("abc123xyz"), 190);
    assert_eq!(store.redeem_at("abc123xyz", 100), Ok(()));
    assert_eq!(store.redeem_at("abc123xyz", 100), Err(AuthError::InvalidState));
}

#[test]
fn callback_missing_code_or_state_is_malformed() {
    let mut store = StateStore::new();
    let token = store.issue_at(100);
    let q1 = CallbackQuery { code: Some(String::from("c")), state: None };
    let q2 = CallbackQuery { code: None, state: Some(token.clone()) };
    let q3 = CallbackQuery { code: None, state: None };
    assert_eq!(callback_begin(&q1, &mut store, 101), Err(AuthError::MalformedCallback));
    assert_eq!(callback_begin(&q2, &mut store, 101), Err(AuthError::MalformedCallback));
    assert_eq!(callback_begin(&q3, &mut store, 101), Err(AuthError::MalformedCallback));
    // The store was left untouched: the issued token still redeems.
    let q4 = CallbackQuery { code: Some(String::from("c")), state: Some(token) };
    assert_eq!(callback_begin(&q4, &mut store, 101), Ok(String::from("c")));
}

#[test]
fn callback_with_bad_state_is_invalid_state() {
    let mut store = StateStore::new();
    let q = CallbackQuery {
        code: Some(String::from("c")),
        state: Some(String::from("forged")),
    };
    assert_eq!(callback_begin(&q, &mut store, 0), Err(AuthError::InvalidState));
}

#[test]
fn scenario_exchange_and_profile_yield_credential() {
    let token = callback_finish_at(neo(), b"server-key", 1000, 24).unwrap();
    let claim = verify(&token, b"server-key", 1000).unwrap();
    assert_eq!(claim.id, "42");
    assert_eq!(claim.discord.id, "42");
    assert_eq!(claim.discord.tag(), "neo#0001");
    assert_eq!(claim.exp, 1000 + 24 * 3600);
}

#[test]
fn callback_finish_uses_the_live_clock() {
    let token = callback_finish(neo(), b"server-key", 24).unwrap();
    let now = chrono::Utc::now().timestamp();
    let claim = verify(&token, b"server-key", now).unwrap();
    assert!(claim.exp >= now);
    assert_eq!(claim.discord.tag(), "neo#0001");
}

#[test]
fn scenario_me_endpoint_outcomes() {
    let token = callback_finish_at(neo(), b"server-key", 1000, 1).unwrap();
    // No credential: rejected.
    assert_eq!(
        authenticate_at(None, b"server-key", 1000).unwrap_err(),
        AuthError::Unauthorized
    );
    // Expired credential: rejected the same way.
    assert_eq!(
        authenticate_at(Some(&token), b"server-key", 4600).unwrap_err(),
        AuthError::Unauthorized
    );
    // Tampered credential: rejected the same way.
    assert_eq!(
        authenticate_at(Some("zz.zz"), b"server-key", 1000).unwrap_err(),
        AuthError::Unauthorized
    );
    // Valid credential: the embedded identity comes through.
    let user = authenticate_at(Some(&token), b"server-key", 1000).unwrap();
    assert_eq!(user.id, "42");
    assert_eq!(user.discord.tag(), "neo#0001");
}

#[test]
fn authenticate_with_live_clock_accepts_fresh_credential() {
    let token = callback_finish(neo(), b"server-key", 24).unwrap();
    let user = authenticate(Some(&token), b"server-key").unwrap();
    assert_eq!(user.id, "42");
    assert_eq!(authenticate(None, b"server-key").unwrap_err(), AuthError::Unauthorized);
}

#[test]
fn login_begin_builds_the_authorize_url() {
    let mut store = StateStore::new();
    let cfg = test_config();
    let (url, state) = login_begin(&mut store, &cfg, 500);
    assert_eq!(state.len(), 16);
    let expected = format!(
        "https://discord.com/oauth2/authorize?state={}&prompt=none&client_id=123456789&response_type=code&scope=identify+email&redirect_uri=http%3A%2F%2Flocalhost%3A8080%2Fcallback",
        state
    );
    assert_eq!(url, expected);
    // The state it embedded is outstanding and single-use.
    assert_eq!(store.redeem_at(&state, 510), Ok(()));
    assert_eq!(store.redeem_at(&state, 510), Err(AuthError::InvalidState));
}

#[test]
fn config_expiration_check() {
    let mut cfg = test_config();
    assert!(cfg.check_expiration());
    cfg.jwt_expiration = -1;
    assert!(!cfg.check_expiration());
    // Just past the point where the expiry arithmetic would overflow.
    cfg.jwt_expiration = 2562047717625688;
    assert!(!cfg.check_expiration());
    cfg.jwt_expiration = 2562047717625687;
    assert!(cfg.check_expiration());
}
