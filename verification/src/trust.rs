//! The boundary to the outside world: signing and verifying through
//! `jsonwebtoken`'s crypto functions, the clock, and the random state-token
//! generator. Each item's contract is what the named outside function's
//! source and documentation show, and nothing more.

use rand::distr::SampleString;
use vstd::prelude::*;

verus! {

/// The error jsonwebtoken's crypto functions report.
#[verifier::external_type_specification]
#[verifier::external_body]
pub struct ExJwtError(jsonwebtoken::errors::Error);

/// What `jsonwebtoken::crypto::sign` returns for a message under a key with
/// HMAC-SHA256: a function of the two arguments alone (a base64url-encoded
/// authentication tag).
pub uninterp spec fn sig_of(key: Seq<u8>, msg: Seq<u8>) -> Seq<char>;

/// Whether `jsonwebtoken::crypto::verify` accepts a signature for a message
/// under a key with HMAC-SHA256: again a function of its arguments alone.
pub uninterp spec fn sig_ok(key: Seq<u8>, msg: Seq<u8>, sig: Seq<char>) -> bool;

/// Relies on `jsonwebtoken::crypto::sign` with `Algorithm::HS256` and a key
/// from `EncodingKey::from_secret`, under the crate's `rust_crypto`
/// provider: the HMAC-SHA256 signer accepts a secret of any length, signing
/// is infallible and the base64url encoding total, so the call succeeds;
/// the result is deterministic in key and message, verifies against them
/// (`crypto::verify` recomputes the same tag), and is base64url text, an
/// alphabet without `.`.
#[verifier::external_body]
pub fn sign_hs256(msg: &[u8], key: &[u8]) -> (r: Result<String, jsonwebtoken::errors::Error>)
    ensures
        r is Ok,
        r matches Ok(s) ==> {
            &&& s@ == sig_of(key@, msg@)
            &&& sig_ok(key@, msg@, s@)
            &&& forall|i: int| 0 <= i < s@.len() ==> s@[i] != '.'
        },
{
    let encoding_key = jsonwebtoken::EncodingKey::from_secret(key);
    jsonwebtoken::crypto::sign(msg, &encoding_key, jsonwebtoken::Algorithm::HS256)
}

/// Relies on `jsonwebtoken::crypto::verify` with `Algorithm::HS256` and a
/// key from `DecodingKey::from_secret`: it recomputes the tag for the
/// message under the key and compares; a malformed signature or a backend
/// failure rejects.
#[verifier::external_body]
pub fn verify_hs256(sig: &str, msg: &[u8], key: &[u8]) -> (r: bool)
    ensures
        r == sig_ok(key@, msg@, sig@),
{
    let decoding_key = jsonwebtoken::DecodingKey::from_secret(key);
    match jsonwebtoken::crypto::verify(sig, msg, &decoding_key, jsonwebtoken::Algorithm::HS256) {
        Ok(b) => b,
        Err(_) => false,
    }
}

/// Relies on `chrono::Utc::now`: the current instant, reported as epoch
/// seconds by `DateTime::timestamp`. `Utc::now` builds the instant from the
/// duration since the Unix epoch (and panics on a host clock before it), so
/// a returned reading is never negative; nothing more can be promised of
/// the clock's value.
#[verifier::external_body]
pub fn now_ts() -> (r: i64)
    ensures
        r >= 0,
{
    chrono::Utc::now().timestamp()
}

/// Whether a character is in the alphanumeric set `a-z A-Z 0-9`.
pub open spec fn is_alnum(c: char) -> bool {
    (97 <= c as int <= 122) || (65 <= c as int <= 90) || (48 <= c as int <= 57)
}

/// Relies on `rand::distr::SampleString::sample_string` over
/// `rand::distr::Alphanumeric` with the thread-local generator: sixteen
/// characters drawn uniformly from `a-z A-Z 0-9`. Nothing relates two
/// calls; only the length and alphabet hold of every outcome.
#[verifier::external_body]
pub fn random_state16() -> (r: String)
    ensures
        r@.len() == 16,
        forall|i: int| 0 <= i < r@.len() ==> is_alnum(r@[i]),
{
    rand::distr::Alphanumeric.sample_string(&mut rand::rng(), 16)
}

/// Relies on `String::from_utf8`: bytes below 128 are valid UTF-8 and
/// decode to the characters with the same codes, one each.
#[verifier::external_body]
pub(crate) fn ascii_to_string(v: Vec<u8>) -> (r: String)
    requires
        forall|i: int| 0 <= i < v@.len() ==> v@[i] < 128,
    ensures
        r@ == Seq::new(v@.len(), |i: int| v@[i] as char),
{
    String::from_utf8(v).unwrap_or_default()
}

} // verus!
