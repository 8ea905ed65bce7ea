//! Session-claim codec behaviour: round trips, expiry, tampering.

use discord_auth::codec::{create_jwt, decode_jwt, verify, PrivateClaim};
use discord_auth::errors::{ApiError, AuthError};
use discord_auth::user::DiscordUser;

fn sample_user() -> DiscordUser {
    DiscordUser {
        id: String::from("42"),
        username: String::from("neo"),
        discriminator: String::from("0001"),
        avatar: Some(String::from("a1b2c3")),
        bot: Some(false),
        system: None,
        mfa_enabled: Some(true),
        locale: Some(String::from("en-US")),
        verified: Some(true),
        email: Some(String::from("neo@example.com")),
        flags: Some(131072),
        premium_type: Some(2),
        public_flags: Some(131072),
    }
}

#[test]
fn tag_is_username_hash_discriminator() {
    let user = sample_user();
    assert_eq!(user.tag(), "neo#0001");
}

#[test]
fn round_trip_before_expiry_returns_embedded_user() {
    let user = sample_user();
    let claim = PrivateClaim::new(user, 1000, 1);
    assert_eq!(claim.expiry(), 1000 + 3600);
    let token = create_jwt(&claim, b"server-key").unwrap();
    let got = verify(&token, b"server-key", 4599).unwrap();
    assert_eq!(got.id, "42");
    assert_eq!(got.exp, 4600);
    let u = got.discord;
    assert_eq!(u.id, "42");
    assert_eq!(u.username, "neo");
    assert_eq!(u.discriminator, "0001");
    assert_eq!(u.avatar.as_deref(), Some("a1b2c3"));
    assert_eq!(u.bot, Some(false));
    assert_eq!(u.system, None);
    assert_eq!(u.mfa_enabled, Some(true));
    assert_eq!(u.locale.as_deref(), Some("en-US"));
    assert_eq!(u.verified, Some(true));
    assert_eq!(u.email.as_deref(), Some("neo@example.com"));
    assert_eq!(u.flags, Some(131072));
    assert_eq!(u.premium_type, Some(2));
    assert_eq!(u.public_flags, Some(131072));
}

#[test]
fn round_trip_with_unicode_and_extreme_fields() {
    let user = DiscordUser {
        id: String::from("9007199254740993"),
        username: String::from("Ω mega — ユーザー"),
        discriminator: String::from(""),
        avatar: None,
        bot: None,
        system: Some(true),
        mfa_enabled: None,
        locale: None,
        verified: None,
        email: None,
        flags: Some(u128::MAX),
        premium_type: Some(255),
        public_flags: Some(0),
    };
    let claim = PrivateClaim::new(user, 0, 8760);
    let token = create_jwt(&claim, b"k").unwrap();
    let got = verify(&token, b"k", 0).unwrap();
    assert_eq!(got.discord.username, "Ω mega — ユーザー");
    assert_eq!(got.discord.discriminator, "");
    assert_eq!(got.discord.flags, Some(u128::MAX));
    assert_eq!(got.discord.premium_type, Some(255));
    assert_eq!(got.discord.public_flags, Some(0));
    assert_eq!(got.discord.system, Some(true));
    assert_eq!(got.exp, 8760 * 3600);
}

#[test]
fn create_jwt_succeeds_and_is_deterministic() {
    let t1 = create_jwt(&PrivateClaim::new(sample_user(), 1000, 24), b"server-key").unwrap();
    let t2 = create_jwt(&PrivateClaim::new(sample_user(), 1000, 24), b"server-key").unwrap();
    assert_eq!(t1, t2);
    let t3 = create_jwt(&PrivateClaim::new(sample_user(), 1001, 24), b"server-key").unwrap();
    assert_ne!(t1, t3);
}

#[test]
fn verify_at_expiry_instant_fails_expired() {
    let claim = PrivateClaim::new(sample_user(), 1000, 1);
    let token = create_jwt(&claim, b"server-key").unwrap();
    assert_eq!(verify(&token, b"server-key", 4600).unwrap_err(), AuthError::Expired);
}

#[test]
fn verify_long_after_expiry_fails_expired_not_another_kind() {
    let claim = PrivateClaim::new(sample_user(), 1000, 0);
    let token = create_jwt(&claim, b"server-key").unwrap();
    assert_eq!(verify(&token, b"server-key", i64::MAX).unwrap_err(), AuthError::Expired);
}

#[test]
fn flipped_payload_bit_fails_invalid_signature() {
    let claim = PrivateClaim::new(sample_user(), 1000, 1);
    let token = create_jwt(&claim, b"server-key").unwrap();
    let mut chars: Vec<char> = token.chars().collect();
    // The first payload character is a digit of the expiry field; nudge it.
    chars[0] = if chars[0] == '0' { '1' } else { '0' };
    let tampered: String = chars.into_iter().collect();
    assert_eq!(
        verify(&tampered, b"server-key", 1000).unwrap_err(),
        AuthError::InvalidSignature
    );
}

#[test]
fn flipped_signature_bit_fails_invalid_signature() {
    let claim = PrivateClaim::new(sample_user(), 1000, 1);
    let token = create_jwt(&claim, b"server-key").unwrap();
    let mut chars: Vec<char> = token.chars().collect();
    let last = chars.len() - 1;
    chars[last] = if chars[last] == 'A' { 'B' } else { 'A' };
    let tampered: String = chars.into_iter().collect();
    assert_eq!(
        verify(&tampered, b"server-key", 1000).unwrap_err(),
        AuthError::InvalidSignature
    );
}

#[test]
fn wrong_key_fails_invalid_signature() {
    let claim = PrivateClaim::new(sample_user(), 1000, 1);
    let token = create_jwt(&claim, b"server-key").unwrap();
    assert_eq!(
        verify(&token, b"rotated-key", 1000).unwrap_err(),
        AuthError::InvalidSignature
    );
}

#[test]
fn token_with_trailing_garbage_fails_invalid_signature() {
    let claim = PrivateClaim::new(sample_user(), 1000, 1);
    let mut token = create_jwt(&claim, b"server-key").unwrap();
    token.push('x');
    assert_eq!(
        verify(&token, b"server-key", 1000).unwrap_err(),
        AuthError::InvalidSignature
    );
}

#[test]
fn token_without_dot_fails_invalid_signature() {
    assert_eq!(
        verify("not a token at all", b"server-key", 0).unwrap_err(),
        AuthError::InvalidSignature
    );
    assert_eq!(verify("", b"server-key", 0).unwrap_err(), AuthError::InvalidSignature);
}

#[test]
fn decode_jwt_maps_failures_to_decode_error() {
    let claim = PrivateClaim::new(sample_user(), 1000, 1);
    let token = create_jwt(&claim, b"server-key").unwrap();
    let ok = decode_jwt(&token, b"server-key", 1000).unwrap();
    assert_eq!(ok.id, "42");
    let err = decode_jwt(&token, b"other-key", 1000).unwrap_err();
    assert!(matches!(err, ApiError::CannotDecodeJwtToken(_)));
    let err = decode_jwt(&token, b"server-key", 999999999).unwrap_err();
    assert!(matches!(err, ApiError::CannotDecodeJwtToken(_)));
}

#[test]
fn api_error_equality_and_message() {
    let a = ApiError::CacheError(String::from("down"));
    let b = ApiError::CacheError(String::from("down"));
    let c = ApiError::CannotEncodeJwtToken(String::from("down"));
    assert!(a == b);
    assert!(a != c);
    assert_eq!(a.message(), "down");
}
