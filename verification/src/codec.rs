//! The session-claim codec: a claim is laid out as a fixed-format character
//! string, signed with a server-held symmetric key, and recovered and
//! checked again at verification time.
//!
//! Wire layout of the payload, all fields in order and self-delimiting:
//! the expiry instant as twenty digits, then the subject id, then every
//! profile field. A string field is its character count as twenty digits
//! followed by the characters themselves; optional fields start with `-`
//! (absent) or `+` (present); optional booleans are `-`, `t` or `f`.
//! The token is the payload, a `.`, and the signature, whose alphabet
//! holds no `.`.

use vstd::prelude::*;

use crate::errors::{ApiError, AuthError};
use crate::num::{
    lemma_fixed_props, lemma_pow10_vals, pow10, push_fixed, read_fixed, spec_fixed,
    spec_read_fixed,
};
use crate::trust::{sig_of, sig_ok, sign_hs256, verify_hs256};
use crate::user::{opt_str_view, DiscordUser, UserView};
use vstd::utf8::encode_utf8;

verus! {

/// Latest instant the codec will embed in a claim (the last second of year
/// 9999).
pub const MAX_INSTANT: i64 = 253402300799;

/// Most validity hours the expiry arithmetic can carry past any
/// representable clock reading without overflowing: the largest `h` with
/// `MAX_INSTANT + h * 3600 <= i64::MAX`.
pub const MAX_VALIDITY_HOURS: i64 = 2562047717625687;

/// `10^19`, the split point when a 128-bit field is printed as two
/// fixed-width halves.
pub const POW19: u128 = 10000000000000000000;

/// The trust-bearing payload of a credential: subject id, profile snapshot,
/// absolute expiry instant in epoch seconds.
#[derive(Clone, Debug)]
pub struct PrivateClaim {
    pub id: String,
    pub discord: DiscordUser,
    pub exp: i64,
}

/// Mathematical model of a claim.
#[verifier::ext_equal]
pub ghost struct ClaimView {
    pub id: Seq<char>,
    pub discord: UserView,
    pub exp: int,
}

impl View for PrivateClaim {
    type V = ClaimView;

    open spec fn view(&self) -> ClaimView {
        ClaimView { id: self.id@, discord: self.discord@, exp: self.exp as int }
    }
}

impl PrivateClaim {
    /// Builds the claim minted at instant `now` for the given profile:
    /// subject id mirrors the profile id, and the expiry is `now` plus the
    /// configured validity in hours.
    pub fn new(discord: DiscordUser, now: i64, hours: i64) -> (r: PrivateClaim)
        requires
            0 <= now <= MAX_INSTANT,
            0 <= hours <= MAX_VALIDITY_HOURS,
        ensures
            r@.id == discord@.id,
            r@.discord == discord@,
            r@.exp == now + hours * 3600,
    {
        let exp: i64 = now + hours * 3600;
        PrivateClaim { id: discord.id.clone(), exp, discord }
    }

    /// The absolute expiry instant of the claim, in epoch seconds.
    pub fn expiry(&self) -> (r: i64)
        ensures
            r as int == self@.exp,
    {
        self.exp
    }
}

impl ClaimView {
    /// Bounds every real claim meets: the expiry is a non-negative epoch
    /// second, and no embedded string is longer than the length field can
    /// carry.
    pub open spec fn wf(self) -> bool {
        &&& 0 <= self.exp <= i64::MAX
        &&& self.id.len() < pow10(20)
        &&& self.discord.wf()
    }
}

impl UserView {
    /// Length bounds of the profile's string fields.
    pub open spec fn wf(self) -> bool {
        &&& self.id.len() < pow10(20)
        &&& self.username.len() < pow10(20)
        &&& self.discriminator.len() < pow10(20)
        &&& (self.avatar matches Some(s) ==> s.len() < pow10(20))
        &&& (self.locale matches Some(s) ==> s.len() < pow10(20))
        &&& (self.email matches Some(s) ==> s.len() < pow10(20))
    }
}

// ---------------------------------------------------------------------------
// Serialization, specification level.
// ---------------------------------------------------------------------------

/// A string field: its length as twenty digits, then its characters.
pub open spec fn ser_str(s: Seq<char>) -> Seq<char> {
    spec_fixed(s.len() as int, 20) + s
}

/// An optional string field.
pub open spec fn ser_opt_str(o: Option<Seq<char>>) -> Seq<char> {
    match o {
        Option::None => seq!['-'],
        Option::Some(s) => seq!['+'] + ser_str(s),
    }
}

/// An optional boolean field.
pub open spec fn ser_opt_bool(o: Option<bool>) -> Seq<char> {
    match o {
        Option::None => seq!['-'],
        Option::Some(b) => if b {
            seq!['t']
        } else {
            seq!['f']
        },
    }
}

/// An optional 128-bit field, split at `10^19` into two printable halves.
pub open spec fn ser_opt_u128(o: Option<u128>) -> Seq<char> {
    match o {
        Option::None => seq!['-'],
        Option::Some(n) => seq!['+'] + spec_fixed(n as int / POW19 as int, 20) + spec_fixed(
            n as int % POW19 as int,
            19,
        ),
    }
}

/// An optional byte-sized field as three digits.
pub open spec fn ser_opt_u8(o: Option<u8>) -> Seq<char> {
    match o {
        Option::None => seq!['-'],
        Option::Some(n) => seq!['+'] + spec_fixed(n as int, 3),
    }
}

/// The profile snapshot, field by field.
pub open spec fn ser_user(u: UserView) -> Seq<char> {
    ser_str(u.id) + ser_str(u.username) + ser_str(u.discriminator) + ser_opt_str(u.avatar)
        + ser_opt_bool(u.bot) + ser_opt_bool(u.system) + ser_opt_bool(u.mfa_enabled)
        + ser_opt_str(u.locale) + ser_opt_bool(u.verified) + ser_opt_str(u.email) + ser_opt_u128(
        u.flags,
    ) + ser_opt_u8(u.premium_type) + ser_opt_u128(u.public_flags)
}

/// The whole payload: expiry, subject id, profile.
pub open spec fn ser_claim(c: ClaimView) -> Seq<char> {
    spec_fixed(c.exp, 20) + ser_str(c.id) + ser_user(c.discord)
}

/// True of a character sequence that holds no `.`, as the signature
/// alphabet does not.
pub open spec fn no_dot(s: Seq<char>) -> bool {
    forall|i: int| 0 <= i < s.len() ==> s[i] != '.'
}

/// The signed token for a claim under a key: payload, dot, signature.
pub open spec fn spec_token(c: ClaimView, key: Seq<u8>) -> Seq<char> {
    ser_claim(c) + seq!['.'] + sig_of(key, encode_utf8(ser_claim(c)))
}

// ---------------------------------------------------------------------------
// Serialization, executable level.
// ---------------------------------------------------------------------------

fn push_marker(out: &mut String, present: bool)
    ensures
        final(out)@ == old(out)@ + (if present {
            seq!['+']
        } else {
            seq!['-']
        }),
{
    let ghost prefix = out@;
    if present {
        out.append("+");
        proof {
            reveal_strlit("+");
            assert(out@ =~= prefix + seq!['+']);
        }
    } else {
        out.append("-");
        proof {
            reveal_strlit("-");
            assert(out@ =~= prefix + seq!['-']);
        }
    }
}

fn push_str_field(out: &mut String, f: &String)
    ensures
        final(out)@ == old(out)@ + ser_str(f@),
{
    let ghost prefix = out@;
    let n = f.as_str().unicode_len();
    proof {
        lemma_pow10_vals();
        assert((n as int) < pow10(20));
    }
    push_fixed(out, n as u128, 20);
    out.append(f.as_str());
    proof {
        assert(out@ =~= prefix + ser_str(f@));
    }
}

fn push_opt_str(out: &mut String, o: &Option<String>)
    ensures
        final(out)@ == old(out)@ + ser_opt_str(opt_str_view(*o)),
{
    let ghost prefix = out@;
    match o {
        Option::None => {
            push_marker(out, false);
        },
        Option::Some(s) => {
            push_marker(out, true);
            push_str_field(out, s);
        },
    }
    proof {
        assert(out@ =~= prefix + ser_opt_str(opt_str_view(*o)));
    }
}

fn push_opt_bool(out: &mut String, o: &Option<bool>)
    ensures
        final(out)@ == old(out)@ + ser_opt_bool(*o),
{
    let ghost prefix = out@;
    match o {
        Option::None => {
            out.append("-");
            proof {
                reveal_strlit("-");
            }
        },
        Option::Some(b) => {
            if *b {
                out.append("t");
                proof {
                    reveal_strlit("t");
                }
            } else {
                out.append("f");
                proof {
                    reveal_strlit("f");
                }
            }
        },
    }
    proof {
        assert(out@ =~= prefix + ser_opt_bool(*o));
    }
}

fn push_opt_u128(out: &mut String, o: &Option<u128>)
    ensures
        final(out)@ == old(out)@ + ser_opt_u128(*o),
{
    let ghost prefix = out@;
    match o {
        Option::None => {
            push_marker(out, false);
        },
        Option::Some(n) => {
            push_marker(out, true);
            let n = *n;
            let high: u128 = n / POW19;
            let low: u128 = n % POW19;
            proof {
                lemma_pow10_vals();
                assert((high as int) < pow10(20)) by (nonlinear_arith)
                    requires
                        high == n / POW19,
                        n <= u128::MAX,
                        POW19 == 10000000000000000000,
                        pow10(20) == 100000000000000000000;
                assert((low as int) < pow10(19));
            }
            push_fixed(out, high, 20);
            push_fixed(out, low, 19);
        },
    }
    proof {
        assert(out@ =~= prefix + ser_opt_u128(*o));
    }
}

fn push_opt_u8(out: &mut String, o: &Option<u8>)
    ensures
        final(out)@ == old(out)@ + ser_opt_u8(*o),
{
    let ghost prefix = out@;
    match o {
        Option::None => {
            push_marker(out, false);
        },
        Option::Some(n) => {
            push_marker(out, true);
            proof {
                lemma_pow10_vals();
            }
            push_fixed(out, *n as u128, 3);
        },
    }
    proof {
        assert(out@ =~= prefix + ser_opt_u8(*o));
    }
}

#[verifier::rlimit(60)]
fn push_user(out: &mut String, u: &DiscordUser)
    ensures
        final(out)@ == old(out)@ + ser_user(u@),
{
    let ghost prefix = out@;
    push_str_field(out, &u.id);
    push_str_field(out, &u.username);
    push_str_field(out, &u.discriminator);
    push_opt_str(out, &u.avatar);
    push_opt_bool(out, &u.bot);
    push_opt_bool(out, &u.system);
    push_opt_bool(out, &u.mfa_enabled);
    push_opt_str(out, &u.locale);
    push_opt_bool(out, &u.verified);
    push_opt_str(out, &u.email);
    push_opt_u128(out, &u.flags);
    push_opt_u8(out, &u.premium_type);
    push_opt_u128(out, &u.public_flags);
    proof {
        assert(out@ =~= prefix + ser_user(u@));
    }
}

/// The payload of a claim, appended to `out`.
fn push_claim(out: &mut String, c: &PrivateClaim)
    requires
        0 <= c@.exp,
    ensures
        final(out)@ == old(out)@ + ser_claim(c@),
{
    let ghost prefix = out@;
    proof {
        lemma_pow10_vals();
    }
    let exp = c.expiry();
    push_fixed(out, exp as u128, 20);
    push_str_field(out, &c.id);
    push_user(out, &c.discord);
    proof {
        assert(out@ =~= prefix + ser_claim(c@));
    }
}

/// Serializes and signs a claim: the credential string handed to the
/// browser. Pure computation plus the signing call, which cannot fail, so
/// success is unconditional and deterministic in the claim and the key.
pub fn create_jwt(claim: &PrivateClaim, key: &[u8]) -> (r: Result<String, ApiError>)
    requires
        0 <= claim@.exp,
    ensures
        r is Ok,
        r matches Ok(t) ==> {
            &&& t@ == spec_token(claim@, key@)
            &&& sig_ok(
                key@,
                encode_utf8(ser_claim(claim@)),
                sig_of(key@, encode_utf8(ser_claim(claim@))),
            )
            &&& no_dot(sig_of(key@, encode_utf8(ser_claim(claim@))))
        },
{
    let mut payload = String::new();
    push_claim(&mut payload, claim);
    proof {
        assert(payload@ =~= ser_claim(claim@));
    }
    let sig = match sign_hs256(payload.as_str().as_bytes(), key) {
        Ok(s) => s,
        Err(_) => {
            return Err(
                ApiError::CannotEncodeJwtToken(String::from_str("could not sign the session token")),
            );
        },
    };
    payload.append(".");
    payload.append(sig.as_str());
    proof {
        reveal_strlit(".");
        assert(payload@ =~= spec_token(claim@, key@));
    }
    Ok(payload)
}

// ---------------------------------------------------------------------------
// Parsing, specification level.
// ---------------------------------------------------------------------------

/// Reading a string field at `i`: its length, then that many characters.
pub open spec fn read_str_at(s: Seq<char>, i: int) -> Option<(Seq<char>, int)> {
    match spec_read_fixed(s, i, 20) {
        Option::None => Option::None,
        Option::Some((n, j)) => if j + n <= s.len() {
            Option::Some((s.subrange(j, j + n), j + n))
        } else {
            Option::None
        },
    }
}

/// Reading an optional string field at `i`.
pub open spec fn read_opt_str_at(s: Seq<char>, i: int) -> Option<(Option<Seq<char>>, int)> {
    if 0 <= i < s.len() {
        if s[i] == '-' {
            Option::Some((Option::None, i + 1))
        } else if s[i] == '+' {
            match read_str_at(s, i + 1) {
                Option::None => Option::None,
                Option::Some((f, j)) => Option::Some((Option::Some(f), j)),
            }
        } else {
            Option::None
        }
    } else {
        Option::None
    }
}

/// Reading an optional boolean field at `i`.
pub open spec fn read_opt_bool_at(s: Seq<char>, i: int) -> Option<(Option<bool>, int)> {
    if 0 <= i < s.len() {
        if s[i] == '-' {
            Option::Some((Option::None, i + 1))
        } else if s[i] == 't' {
            Option::Some((Option::Some(true), i + 1))
        } else if s[i] == 'f' {
            Option::Some((Option::Some(false), i + 1))
        } else {
            Option::None
        }
    } else {
        Option::None
    }
}

/// Reading an optional 128-bit field at `i`: two halves, recombined, and
/// rejected if the halves name a value too large to carry.
pub open spec fn read_opt_u128_at(s: Seq<char>, i: int) -> Option<(Option<u128>, int)> {
    if 0 <= i < s.len() {
        if s[i] == '-' {
            Option::Some((Option::None, i + 1))
        } else if s[i] == '+' {
            match spec_read_fixed(s, i + 1, 20) {
                Option::None => Option::None,
                Option::Some((high, j)) => match spec_read_fixed(s, j, 19) {
                    Option::None => Option::None,
                    Option::Some((low, j2)) => if high * (POW19 as int) + low <= u128::MAX {
                        Option::Some((Option::Some((high * (POW19 as int) + low) as u128), j2))
                    } else {
                        Option::None
                    },
                },
            }
        } else {
            Option::None
        }
    } else {
        Option::None
    }
}

/// Reading an optional byte-sized field at `i`.
pub open spec fn read_opt_u8_at(s: Seq<char>, i: int) -> Option<(Option<u8>, int)> {
    if 0 <= i < s.len() {
        if s[i] == '-' {
            Option::Some((Option::None, i + 1))
        } else if s[i] == '+' {
            match spec_read_fixed(s, i + 1, 3) {
                Option::None => Option::None,
                Option::Some((n, j)) => if n <= u8::MAX {
                    Option::Some((Option::Some(n as u8), j))
                } else {
                    Option::None
                },
            }
        } else {
            Option::None
        }
    } else {
        Option::None
    }
}

/// Reading the whole profile snapshot at `i`.
pub open spec fn read_user_at(s: Seq<char>, i: int) -> Option<(UserView, int)> {
    match read_str_at(s, i) {
        Option::None => Option::None,
        Option::Some((id, i)) => match read_str_at(s, i) {
            Option::None => Option::None,
            Option::Some((username, i)) => match read_str_at(s, i) {
                Option::None => Option::None,
                Option::Some((discriminator, i)) => match read_opt_str_at(s, i) {
                    Option::None => Option::None,
                    Option::Some((avatar, i)) => match read_opt_bool_at(s, i) {
                        Option::None => Option::None,
                        Option::Some((bot, i)) => match read_opt_bool_at(s, i) {
                            Option::None => Option::None,
                            Option::Some((system, i)) => match read_opt_bool_at(s, i) {
                                Option::None => Option::None,
                                Option::Some((mfa_enabled, i)) => match read_opt_str_at(s, i) {
                                    Option::None => Option::None,
                                    Option::Some((locale, i)) => match read_opt_bool_at(s, i) {
                                        Option::None => Option::None,
                                        Option::Some((verified, i)) => match read_opt_str_at(
                                            s,
                                            i,
                                        ) {
                                            Option::None => Option::None,
                                            Option::Some((email, i)) => match read_opt_u128_at(
                                                s,
                                                i,
                                            ) {
                                                Option::None => Option::None,
                                                Option::Some((flags, i)) => match read_opt_u8_at(
                                                    s,
                                                    i,
                                                ) {
                                                    Option::None => Option::None,
                                                    Option::Some(
                                                        (premium_type, i),
                                                    ) => match read_opt_u128_at(s, i) {
                                                        Option::None => Option::None,
                                                        Option::Some((public_flags, i)) => Option::Some(
                                                            (
                                                                UserView {
                                                                    id,
                                                                    username,
                                                                    discriminator,
                                                                    avatar,
                                                                    bot,
                                                                    system,
                                                                    mfa_enabled,
                                                                    locale,
                                                                    verified,
                                                                    email,
                                                                    flags,
                                                                    premium_type,
                                                                    public_flags,
                                                                },
                                                                i,
                                                            ),
                                                        ),
                                                    },
                                                },
                                            },
                                        },
                                    },
                                },
                            },
                        },
                    },
                },
            },
        },
    }
}

/// Parsing a whole payload: expiry, subject id, profile, nothing after.
pub open spec fn parse_claim_at(s: Seq<char>) -> Option<ClaimView> {
    match spec_read_fixed(s, 0, 20) {
        Option::None => Option::None,
        Option::Some((exp, i)) => if exp > i64::MAX {
            Option::None
        } else {
            match read_str_at(s, i) {
                Option::None => Option::None,
                Option::Some((id, i)) => match read_user_at(s, i) {
                    Option::None => Option::None,
                    Option::Some((discord, i)) => if i == s.len() {
                        Option::Some(ClaimView { id, discord, exp })
                    } else {
                        Option::None
                    },
                },
            }
        },
    }
}

// ---------------------------------------------------------------------------
// Parsing, executable level.
// ---------------------------------------------------------------------------

fn read_str_field(s: &str, i: usize) -> (r: Option<(String, usize)>)
    ensures
        match r {
            Option::None => read_str_at(s@, i as int) is None,
            Option::Some((f, j)) => read_str_at(s@, i as int) == Some((f@, j as int)),
        },
{
    match read_fixed(s, i, 20) {
        Option::None => Option::None,
        Option::Some((n, j)) => {
            let len = s.unicode_len();
            if n > (len - j) as u128 {
                return Option::None;
            }
            let n = n as usize;
            let f = s.substring_char(j, j + n);
            Option::Some((String::from_str(f), j + n))
        },
    }
}

fn read_opt_str_field(s: &str, i: usize) -> (r: Option<(Option<String>, usize)>)
    ensures
        match r {
            Option::None => read_opt_str_at(s@, i as int) is None,
            Option::Some((f, j)) => read_opt_str_at(s@, i as int) == Some((opt_str_view(f), j as int)),
        },
{
    let len = s.unicode_len();
    if i >= len {
        return Option::None;
    }
    let c = s.get_char(i);
    if c == '-' {
        Option::Some((Option::None, i + 1))
    } else if c == '+' {
        match read_str_field(s, i + 1) {
            Option::None => Option::None,
            Option::Some((f, j)) => Option::Some((Option::Some(f), j)),
        }
    } else {
        Option::None
    }
}

fn read_opt_bool_field(s: &str, i: usize) -> (r: Option<(Option<bool>, usize)>)
    ensures
        match r {
            Option::None => read_opt_bool_at(s@, i as int) is None,
            Option::Some((b, j)) => read_opt_bool_at(s@, i as int) == Some((b, j as int)),
        },
{
    let len = s.unicode_len();
    if i >= len {
        return Option::None;
    }
    let c = s.get_char(i);
    if c == '-' {
        Option::Some((Option::None, i + 1))
    } else if c == 't' {
        Option::Some((Option::Some(true), i + 1))
    } else if c == 'f' {
        Option::Some((Option::Some(false), i + 1))
    } else {
        Option::None
    }
}

fn read_opt_u128_field(s: &str, i: usize) -> (r: Option<(Option<u128>, usize)>)
    ensures
        match r {
            Option::None => read_opt_u128_at(s@, i as int) is None,
            Option::Some((n, j)) => read_opt_u128_at(s@, i as int) == Some((n, j as int)),
        },
{
    let len = s.unicode_len();
    if i >= len {
        return Option::None;
    }
    let c = s.get_char(i);
    if c == '-' {
        Option::Some((Option::None, i + 1))
    } else if c == '+' {
        let (high, j) = match read_fixed(s, i + 1, 20) {
            Option::None => {
                return Option::None;
            },
            Option::Some(x) => x,
        };
        let (low, j2) = match read_fixed(s, j, 19) {
            Option::None => {
                return Option::None;
            },
            Option::Some(x) => x,
        };
        match high.checked_mul(POW19) {
            Option::None => {
                proof {
                    assert((high as int) * (POW19 as int) + (low as int) > u128::MAX) by (nonlinear_arith)
                        requires
                            (high as int) * (POW19 as int) > u128::MAX,
                            low >= 0;
                }
                Option::None
            },
            Option::Some(hp) => {
                match hp.checked_add(low) {
                    Option::None => Option::None,
                    Option::Some(v) => Option::Some((Option::Some(v), j2)),
                }
            },
        }
    } else {
        Option::None
    }
}

fn read_opt_u8_field(s: &str, i: usize) -> (r: Option<(Option<u8>, usize)>)
    ensures
        match r {
            Option::None => read_opt_u8_at(s@, i as int) is None,
            Option::Some((n, j)) => read_opt_u8_at(s@, i as int) == Some((n, j as int)),
        },
{
    let len = s.unicode_len();
    if i >= len {
        return Option::None;
    }
    let c = s.get_char(i);
    if c == '-' {
        Option::Some((Option::None, i + 1))
    } else if c == '+' {
        match read_fixed(s, i + 1, 3) {
            Option::None => Option::None,
            Option::Some((n, j)) => {
                if n > 255 {
                    Option::None
                } else {
                    Option::Some((Option::Some(n as u8), j))
                }
            },
        }
    } else {
        Option::None
    }
}

/// Reads the whole profile snapshot back out of a payload.
#[verifier::rlimit(60)]
fn read_user(s: &str, i: usize) -> (r: Option<(DiscordUser, usize)>)
    ensures
        match r {
            Option::None => read_user_at(s@, i as int) is None,
            Option::Some((u, j)) => read_user_at(s@, i as int) == Some((u@, j as int)),
        },
{
    let (id, i) = match read_str_field(s, i) {
        Option::None => {
            return Option::None;
        },
        Option::Some(x) => x,
    };
    let (username, i) = match read_str_field(s, i) {
        Option::None => {
            return Option::None;
        },
        Option::Some(x) => x,
    };
    let (discriminator, i) = match read_str_field(s, i) {
        Option::None => {
            return Option::None;
        },
        Option::Some(x) => x,
    };
    let (avatar, i) = match read_opt_str_field(s, i) {
        Option::None => {
            return Option::None;
        },
        Option::Some(x) => x,
    };
    let (bot, i) = match read_opt_bool_field(s, i) {
        Option::None => {
            return Option::None;
        },
        Option::Some(x) => x,
    };
    let (system, i) = match read_opt_bool_field(s, i) {
        Option::None => {
            return Option::None;
        },
        Option::Some(x) => x,
    };
    let (mfa_enabled, i) = match read_opt_bool_field(s, i) {
        Option::None => {
            return Option::None;
        },
        Option::Some(x) => x,
    };
    let (locale, i) = match read_opt_str_field(s, i) {
        Option::None => {
            return Option::None;
        },
        Option::Some(x) => x,
    };
    let (verified, i) = match read_opt_bool_field(s, i) {
        Option::None => {
            return Option::None;
        },
        Option::Some(x) => x,
    };
    let (email, i) = match read_opt_str_field(s, i) {
        Option::None => {
            return Option::None;
        },
        Option::Some(x) => x,
    };
    let (flags, i) = match read_opt_u128_field(s, i) {
        Option::None => {
            return Option::None;
        },
        Option::Some(x) => x,
    };
    let (premium_type, i) = match read_opt_u8_field(s, i) {
        Option::None => {
            return Option::None;
        },
        Option::Some(x) => x,
    };
    let (public_flags, i) = match read_opt_u128_field(s, i) {
        Option::None => {
            return Option::None;
        },
        Option::Some(x) => x,
    };
    let u = DiscordUser {
        id,
        username,
        discriminator,
        avatar,
        bot,
        system,
        mfa_enabled,
        locale,
        verified,
        email,
        flags,
        premium_type,
        public_flags,
    };
    Option::Some((u, i))
}

/// Parses a payload back into a claim, accepting exactly the strings the
/// serializer produces.
fn parse_claim(s: &str) -> (r: Option<PrivateClaim>)
    ensures
        match r {
            Option::None => parse_claim_at(s@) is None,
            Option::Some(c) => parse_claim_at(s@) == Some(c@),
        },
{
    let (exp, i) = match read_fixed(s, 0, 20) {
        Option::None => {
            return Option::None;
        },
        Option::Some(x) => x,
    };
    if exp > i64::MAX as u128 {
        return Option::None;
    }
    let exp = exp as i64;
    let (id, i) = match read_str_field(s, i) {
        Option::None => {
            return Option::None;
        },
        Option::Some(x) => x,
    };
    let (discord, i) = match read_user(s, i) {
        Option::None => {
            return Option::None;
        },
        Option::Some(x) => x,
    };
    let len = s.unicode_len();
    if i != len {
        return Option::None;
    }
    Option::Some(PrivateClaim { id, discord, exp })
}

// ---------------------------------------------------------------------------
// Token verification.
// ---------------------------------------------------------------------------

/// The index of the last `.` of `t`, if any.
pub open spec fn rfind_dot(t: Seq<char>) -> Option<int>
    decreases t.len(),
{
    if t.len() == 0 {
        Option::None
    } else if t[t.len() - 1] == '.' {
        Option::Some(t.len() - 1)
    } else {
        rfind_dot(t.drop_last())
    }
}

/// A dot with no dot after it is the last dot.
proof fn lemma_rfind_dot_some(t: Seq<char>, i: int)
    requires
        0 <= i < t.len(),
        t[i] == '.',
        forall|j: int| i < j < t.len() ==> t[j] != '.',
    ensures
        rfind_dot(t) == Some(i),
    decreases t.len(),
{
    if i < t.len() - 1 {
        assert(t.drop_last()[i] == '.');
        lemma_rfind_dot_some(t.drop_last(), i);
    }
}

proof fn lemma_rfind_dot_none(t: Seq<char>)
    requires
        no_dot(t),
    ensures
        rfind_dot(t) is None,
    decreases t.len(),
{
    if t.len() > 0 {
        assert(forall|j: int| 0 <= j < t.len() - 1 ==> t.drop_last()[j] == t[j]);
        lemma_rfind_dot_none(t.drop_last());
    }
}

/// What verifying a token string under a key at instant `now` yields: the
/// payload's signature is checked first, then the payload's shape, then the
/// expiry; on success the embedded claim comes back unchanged.
pub open spec fn spec_verify(t: Seq<char>, key: Seq<u8>, now: int) -> Result<ClaimView, AuthError> {
    match rfind_dot(t) {
        Option::None => Result::Err(AuthError::InvalidSignature),
        Option::Some(i) => {
            let payload = t.subrange(0, i);
            let sig = t.subrange(i + 1, t.len() as int);
            if !sig_ok(key, encode_utf8(payload), sig) {
                Result::Err(AuthError::InvalidSignature)
            } else {
                match parse_claim_at(payload) {
                    Option::None => Result::Err(AuthError::InvalidSignature),
                    Option::Some(c) => if now >= c.exp {
                        Result::Err(AuthError::Expired)
                    } else {
                        Result::Ok(c)
                    },
                }
            }
        },
    }
}

fn find_last_dot(s: &str) -> (r: Option<usize>)
    ensures
        match r {
            Option::None => rfind_dot(s@) is None,
            Option::Some(i) => i < s@.len() && rfind_dot(s@) == Some(i as int),
        },
{
    let len = s.unicode_len();
    let mut k = len;
    while k > 0
        invariant
            k <= len,
            len == s@.len(),
            forall|j: int| k <= j < s@.len() ==> s@[j] != '.',
        decreases k,
    {
        k = k - 1;
        let c = s.get_char(k);
        if c == '.' {
            proof {
                lemma_rfind_dot_some(s@, k as int);
            }
            return Option::Some(k);
        }
    }
    proof {
        lemma_rfind_dot_none(s@);
    }
    Option::None
}

/// Checks a presented credential string. Fails with `InvalidSignature` when
/// the signature does not match the payload (or the token is mangled), with
/// `Expired` when the current instant has reached the claim's expiry, and
/// otherwise returns the embedded claim unchanged.
pub fn verify(token: &str, key: &[u8], now: i64) -> (r: Result<PrivateClaim, AuthError>)
    ensures
        ({
            let sv = spec_verify(token@, key@, now as int);
            match r {
                Result::Ok(c) => sv == Result::<ClaimView, AuthError>::Ok(c@),
                Result::Err(e) => sv == Result::<ClaimView, AuthError>::Err(e),
            }
        }),
{
    let i = match find_last_dot(token) {
        Option::None => {
            return Result::Err(AuthError::InvalidSignature);
        },
        Option::Some(i) => i,
    };
    let len = token.unicode_len();
    let payload = token.substring_char(0, i);
    let sig = token.substring_char(i + 1, len);
    let ok = verify_hs256(sig, payload.as_bytes(), key);
    if !ok {
        return Result::Err(AuthError::InvalidSignature);
    }
    match parse_claim(payload) {
        Option::None => Result::Err(AuthError::InvalidSignature),
        Option::Some(c) => {
            if now >= c.expiry() {
                Result::Err(AuthError::Expired)
            } else {
                Result::Ok(c)
            }
        },
    }
}

/// Decodes a credential for the identity layer; every verification failure
/// collapses into the codec's decode error, as the caller reports them all
/// alike.
pub fn decode_jwt(token: &str, key: &[u8], now: i64) -> (r: Result<PrivateClaim, ApiError>)
    ensures
        ({
            let sv = spec_verify(token@, key@, now as int);
            match r {
                Result::Ok(c) => sv == Result::<ClaimView, AuthError>::Ok(c@),
                Result::Err(e) => sv is Err && e matches ApiError::CannotDecodeJwtToken(_),
            }
        }),
{
    match verify(token, key, now) {
        Result::Ok(c) => Result::Ok(c),
        Result::Err(_) => Result::Err(
            ApiError::CannotDecodeJwtToken(String::from_str("invalid or expired session token")),
        ),
    }
}

// ---------------------------------------------------------------------------
// The round trip: what the serializer wrote, the parser reads back.
// ---------------------------------------------------------------------------

proof fn lemma_read_fixed_at(s: Seq<char>, i: int, n: int, w: nat)
    requires
        0 <= i,
        i + w <= s.len(),
        0 <= n < pow10(w),
        s.subrange(i, i + w) == spec_fixed(n, w),
    ensures
        spec_read_fixed(s, i, w as int) == Some((n, i + w)),
{
    lemma_fixed_props(n, w);
}

proof fn lemma_read_str_at(s: Seq<char>, i: int, f: Seq<char>)
    requires
        0 <= i,
        i + ser_str(f).len() <= s.len(),
        f.len() < pow10(20),
        s.subrange(i, i + ser_str(f).len()) == ser_str(f),
    ensures
        ser_str(f).len() == 20 + f.len(),
        read_str_at(s, i) == Some((f, i + ser_str(f).len())),
{
    lemma_fixed_props(f.len() as int, 20);
    let w20 = spec_fixed(f.len() as int, 20);
    assert(s.subrange(i, i + 20) =~= w20) by {
        assert(forall|m: int| 0 <= m < 20 ==> s.subrange(i, i + ser_str(f).len() as int)[m]
            == w20[m]);
    }
    lemma_read_fixed_at(s, i, f.len() as int, 20);
    assert(s.subrange(i + 20, i + 20 + f.len() as int) =~= f) by {
        assert(forall|m: int| 0 <= m < f.len() ==> s.subrange(i, i + ser_str(f).len() as int)[m
            + 20] == f[m]);
    }
}

proof fn lemma_read_opt_str_at(s: Seq<char>, i: int, o: Option<Seq<char>>)
    requires
        0 <= i,
        i + ser_opt_str(o).len() <= s.len(),
        o matches Some(f) ==> f.len() < pow10(20),
        s.subrange(i, i + ser_opt_str(o).len()) == ser_opt_str(o),
    ensures
        read_opt_str_at(s, i) == Some((o, i + ser_opt_str(o).len())),
{
    let piece = ser_opt_str(o);
    assert(s[i] == piece[0]);
    match o {
        Option::None => {
            assert(s[i] == '-');
        },
        Option::Some(f) => {
            assert(s[i] == '+');
            assert(s.subrange(i + 1, i + 1 + ser_str(f).len() as int) =~= ser_str(f)) by {
                assert(forall|m: int| 0 <= m < ser_str(f).len() ==> s.subrange(
                    i,
                    i + piece.len() as int,
                )[m + 1] == ser_str(f)[m]);
            }
            lemma_read_str_at(s, i + 1, f);
        },
    }
}

proof fn lemma_read_opt_bool_at(s: Seq<char>, i: int, o: Option<bool>)
    requires
        0 <= i,
        i + ser_opt_bool(o).len() <= s.len(),
        s.subrange(i, i + ser_opt_bool(o).len()) == ser_opt_bool(o),
    ensures
        ser_opt_bool(o).len() == 1,
        read_opt_bool_at(s, i) == Some((o, i + 1)),
{
    assert(s[i] == ser_opt_bool(o)[0]);
}

proof fn lemma_read_opt_u128_at(s: Seq<char>, i: int, o: Option<u128>)
    requires
        0 <= i,
        i + ser_opt_u128(o).len() <= s.len(),
        s.subrange(i, i + ser_opt_u128(o).len()) == ser_opt_u128(o),
    ensures
        read_opt_u128_at(s, i) == Some((o, i + ser_opt_u128(o).len())),
{
    let piece = ser_opt_u128(o);
    assert(s[i] == piece[0]);
    match o {
        Option::None => {
            assert(s[i] == '-');
        },
        Option::Some(n) => {
            assert(s[i] == '+');
            lemma_pow10_vals();
            let high = n as int / POW19 as int;
            let low = n as int % POW19 as int;
            assert(0 <= high < pow10(20)) by (nonlinear_arith)
                requires
                    high == n as int / POW19 as int,
                    0 <= n <= u128::MAX,
                    POW19 == 10000000000000000000,
                    pow10(20) == 100000000000000000000;
            assert(0 <= low < pow10(19));
            lemma_fixed_props(high, 20);
            lemma_fixed_props(low, 19);
            assert(s.subrange(i + 1, i + 21) =~= spec_fixed(high, 20)) by {
                assert(forall|m: int| 0 <= m < 20 ==> s.subrange(i, i + piece.len() as int)[m + 1]
                    == spec_fixed(high, 20)[m]);
            }
            assert(s.subrange(i + 21, i + 40) =~= spec_fixed(low, 19)) by {
                assert(forall|m: int| 0 <= m < 19 ==> s.subrange(i, i + piece.len() as int)[m + 21]
                    == spec_fixed(low, 19)[m]);
            }
            lemma_read_fixed_at(s, i + 1, high, 20);
            lemma_read_fixed_at(s, i + 21, low, 19);
            assert(high * (POW19 as int) + low == n) by (nonlinear_arith)
                requires
                    high == n as int / POW19 as int,
                    low == n as int % POW19 as int,
                    POW19 == 10000000000000000000,
                    0 <= n;
        },
    }
}

proof fn lemma_read_opt_u8_at(s: Seq<char>, i: int, o: Option<u8>)
    requires
        0 <= i,
        i + ser_opt_u8(o).len() <= s.len(),
        s.subrange(i, i + ser_opt_u8(o).len()) == ser_opt_u8(o),
    ensures
        read_opt_u8_at(s, i) == Some((o, i + ser_opt_u8(o).len())),
{
    let piece = ser_opt_u8(o);
    assert(s[i] == piece[0]);
    match o {
        Option::None => {
            assert(s[i] == '-');
        },
        Option::Some(n) => {
            assert(s[i] == '+');
            lemma_pow10_vals();
            lemma_fixed_props(n as int, 3);
            assert(s.subrange(i + 1, i + 4) =~= spec_fixed(n as int, 3)) by {
                assert(forall|m: int| 0 <= m < 3 ==> s.subrange(i, i + piece.len() as int)[m + 1]
                    == spec_fixed(n as int, 3)[m]);
            }
            lemma_read_fixed_at(s, i + 1, n as int, 3);
        },
    }
}

/// Where a profile's serialization sits inside `s`, each field's piece
/// sits at its offset.
#[verifier::rlimit(100)]
#[verifier::spinoff_prover]
proof fn lemma_user_pieces(s: Seq<char>, i: int, u: UserView)
    requires
        0 <= i,
        i + ser_user(u).len() <= s.len(),
        s.subrange(i, i + ser_user(u).len()) == ser_user(u),
    ensures
        ({
            let p1 = ser_str(u.id);
            let p2 = ser_str(u.username);
            let p3 = ser_str(u.discriminator);
            let p4 = ser_opt_str(u.avatar);
            let p5 = ser_opt_bool(u.bot);
            let p6 = ser_opt_bool(u.system);
            let p7 = ser_opt_bool(u.mfa_enabled);
            let p8 = ser_opt_str(u.locale);
            let p9 = ser_opt_bool(u.verified);
            let p10 = ser_opt_str(u.email);
            let p11 = ser_opt_u128(u.flags);
            let p12 = ser_opt_u8(u.premium_type);
            let p13 = ser_opt_u128(u.public_flags);
            let i1 = i + p1.len() as int;
            let i2 = i1 + p2.len() as int;
            let i3 = i2 + p3.len() as int;
            let i4 = i3 + p4.len() as int;
            let i5 = i4 + p5.len() as int;
            let i6 = i5 + p6.len() as int;
            let i7 = i6 + p7.len() as int;
            let i8 = i7 + p8.len() as int;
            let i9 = i8 + p9.len() as int;
            let i10 = i9 + p10.len() as int;
            let i11 = i10 + p11.len() as int;
            let i12 = i11 + p12.len() as int;
            let i13 = i12 + p13.len() as int;
            &&& i13 == i + ser_user(u).len()
            &&& s.subrange(i, i1) == p1
            &&& s.subrange(i1, i2) == p2
            &&& s.subrange(i2, i3) == p3
            &&& s.subrange(i3, i4) == p4
            &&& s.subrange(i4, i5) == p5
            &&& s.subrange(i5, i6) == p6
            &&& s.subrange(i6, i7) == p7
            &&& s.subrange(i7, i8) == p8
            &&& s.subrange(i8, i9) == p9
            &&& s.subrange(i9, i10) == p10
            &&& s.subrange(i10, i11) == p11
            &&& s.subrange(i11, i12) == p12
            &&& s.subrange(i12, i13) == p13
        }),
{
    let p1 = ser_str(u.id);
    let p2 = ser_str(u.username);
    let p3 = ser_str(u.discriminator);
    let p4 = ser_opt_str(u.avatar);
    let p5 = ser_opt_bool(u.bot);
    let p6 = ser_opt_bool(u.system);
    let p7 = ser_opt_bool(u.mfa_enabled);
    let p8 = ser_opt_str(u.locale);
    let p9 = ser_opt_bool(u.verified);
    let p10 = ser_opt_str(u.email);
    let p11 = ser_opt_u128(u.flags);
    let p12 = ser_opt_u8(u.premium_type);
    let p13 = ser_opt_u128(u.public_flags);
    let whole = ser_user(u);
    let i1 = i + p1.len() as int;
    let i2 = i1 + p2.len() as int;
    let i3 = i2 + p3.len() as int;
    let i4 = i3 + p4.len() as int;
    let i5 = i4 + p5.len() as int;
    let i6 = i5 + p6.len() as int;
    let i7 = i6 + p7.len() as int;
    let i8 = i7 + p8.len() as int;
    let i9 = i8 + p9.len() as int;
    let i10 = i9 + p10.len() as int;
    let i11 = i10 + p11.len() as int;
    let i12 = i11 + p12.len() as int;
    let i13 = i12 + p13.len() as int;
    assert(whole =~= p1 + p2 + p3 + p4 + p5 + p6 + p7 + p8 + p9 + p10 + p11 + p12 + p13);
    assert(i13 == i + whole.len());
    assert(s.subrange(i, i1) =~= p1) by {
        assert(forall|m: int| 0 <= m < p1.len() ==> s.subrange(i, i + whole.len() as int)[m]
            == p1[m]);
    }
    assert(s.subrange(i1, i2) =~= p2) by {
        assert(forall|m: int| 0 <= m < p2.len() ==> s.subrange(i, i + whole.len() as int)[m + (i1
            - i)] == p2[m]);
    }
    assert(s.subrange(i2, i3) =~= p3) by {
        assert(forall|m: int| 0 <= m < p3.len() ==> s.subrange(i, i + whole.len() as int)[m + (i2
            - i)] == p3[m]);
    }
    assert(s.subrange(i3, i4) =~= p4) by {
        assert(forall|m: int| 0 <= m < p4.len() ==> s.subrange(i, i + whole.len() as int)[m + (i3
            - i)] == p4[m]);
    }
    assert(s.subrange(i4, i5) =~= p5) by {
        assert(forall|m: int| 0 <= m < p5.len() ==> s.subrange(i, i + whole.len() as int)[m + (i4
            - i)] == p5[m]);
    }
    assert(s.subrange(i5, i6) =~= p6) by {
        assert(forall|m: int| 0 <= m < p6.len() ==> s.subrange(i, i + whole.len() as int)[m + (i5
            - i)] == p6[m]);
    }
    assert(s.subrange(i6, i7) =~= p7) by {
        assert(forall|m: int| 0 <= m < p7.len() ==> s.subrange(i, i + whole.len() as int)[m + (i6
            - i)] == p7[m]);
    }
    assert(s.subrange(i7, i8) =~= p8) by {
        assert(forall|m: int| 0 <= m < p8.len() ==> s.subrange(i, i + whole.len() as int)[m + (i7
            - i)] == p8[m]);
    }
    assert(s.subrange(i8, i9) =~= p9) by {
        assert(forall|m: int| 0 <= m < p9.len() ==> s.subrange(i, i + whole.len() as int)[m + (i8
            - i)] == p9[m]);
    }
    assert(s.subrange(i9, i10) =~= p10) by {
        assert(forall|m: int| 0 <= m < p10.len() ==> s.subrange(i, i + whole.len() as int)[m + (i9
            - i)] == p10[m]);
    }
    assert(s.subrange(i10, i11) =~= p11) by {
        assert(forall|m: int| 0 <= m < p11.len() ==> s.subrange(i, i + whole.len() as int)[m + (
        i10 - i)] == p11[m]);
    }
    assert(s.subrange(i11, i12) =~= p12) by {
        assert(forall|m: int| 0 <= m < p12.len() ==> s.subrange(i, i + whole.len() as int)[m + (
        i11 - i)] == p12[m]);
    }
    assert(s.subrange(i12, i13) =~= p13) by {
        assert(forall|m: int| 0 <= m < p13.len() ==> s.subrange(i, i + whole.len() as int)[m + (
        i12 - i)] == p13[m]);
    }
}

#[verifier::rlimit(100)]
#[verifier::spinoff_prover]
proof fn lemma_read_user_at(s: Seq<char>, i: int, u: UserView)
    requires
        0 <= i,
        u.wf(),
        i + ser_user(u).len() <= s.len(),
        s.subrange(i, i + ser_user(u).len()) == ser_user(u),
    ensures
        read_user_at(s, i) == Some((u, i + ser_user(u).len())),
{
    let p1 = ser_str(u.id);
    let p2 = ser_str(u.username);
    let p3 = ser_str(u.discriminator);
    let p4 = ser_opt_str(u.avatar);
    let p5 = ser_opt_bool(u.bot);
    let p6 = ser_opt_bool(u.system);
    let p7 = ser_opt_bool(u.mfa_enabled);
    let p8 = ser_opt_str(u.locale);
    let p9 = ser_opt_bool(u.verified);
    let p10 = ser_opt_str(u.email);
    let p11 = ser_opt_u128(u.flags);
    let p12 = ser_opt_u8(u.premium_type);
    let p13 = ser_opt_u128(u.public_flags);
    let i1 = i + p1.len() as int;
    let i2 = i1 + p2.len() as int;
    let i3 = i2 + p3.len() as int;
    let i4 = i3 + p4.len() as int;
    let i5 = i4 + p5.len() as int;
    let i6 = i5 + p6.len() as int;
    let i7 = i6 + p7.len() as int;
    let i8 = i7 + p8.len() as int;
    let i9 = i8 + p9.len() as int;
    let i10 = i9 + p10.len() as int;
    let i11 = i10 + p11.len() as int;
    let i12 = i11 + p12.len() as int;
    lemma_user_pieces(s, i, u);
    lemma_read_str_at(s, i, u.id);
    lemma_read_str_at(s, i1, u.username);
    lemma_read_str_at(s, i2, u.discriminator);
    lemma_read_opt_str_at(s, i3, u.avatar);
    lemma_read_opt_bool_at(s, i4, u.bot);
    lemma_read_opt_bool_at(s, i5, u.system);
    lemma_read_opt_bool_at(s, i6, u.mfa_enabled);
    lemma_read_opt_str_at(s, i7, u.locale);
    lemma_read_opt_bool_at(s, i8, u.verified);
    lemma_read_opt_str_at(s, i9, u.email);
    lemma_read_opt_u128_at(s, i10, u.flags);
    lemma_read_opt_u8_at(s, i11, u.premium_type);
    lemma_read_opt_u128_at(s, i12, u.public_flags);
}

/// A well-formed claim's payload parses back to exactly that claim.
pub proof fn lemma_parse_ser_claim(c: ClaimView)
    requires
        c.wf(),
    ensures
        parse_claim_at(ser_claim(c)) == Some(c),
{
    let s = ser_claim(c);
    let e20 = spec_fixed(c.exp, 20);
    let p_id = ser_str(c.id);
    let p_u = ser_user(c.discord);
    assert(s =~= e20 + p_id + p_u);
    lemma_pow10_vals();
    lemma_fixed_props(c.exp, 20);
    let i1: int = 20;
    let i2 = i1 + p_id.len() as int;
    let i3 = i2 + p_u.len() as int;
    assert(s.subrange(0, i1) =~= e20) by {
        assert(forall|m: int| 0 <= m < 20 ==> s[m] == e20[m]);
    }
    assert(s.subrange(i1, i2) =~= p_id) by {
        assert(forall|m: int| 0 <= m < p_id.len() ==> s[m + i1] == p_id[m]);
    }
    assert(s.subrange(i2, i3) =~= p_u) by {
        assert(forall|m: int| 0 <= m < p_u.len() ==> s[m + i2] == p_u[m]);
    }
    lemma_read_fixed_at(s, 0, c.exp, 20);
    lemma_read_str_at(s, i1, c.id);
    lemma_read_user_at(s, i2, c.discord);
    assert(i3 == s.len());
}

/// An issued token splits back into its payload and signature, and the
/// payload parses to the issued claim; verification then turns only on the
/// signature check and the expiry comparison.
pub proof fn lemma_verify_issued(c: ClaimView, key: Seq<u8>, sg: Seq<char>, now: int)
    requires
        c.wf(),
        no_dot(sg),
        sig_ok(key, encode_utf8(ser_claim(c)), sg),
    ensures
        spec_verify(ser_claim(c) + seq!['.'] + sg, key, now) == if now >= c.exp {
            Result::<ClaimView, AuthError>::Err(AuthError::Expired)
        } else {
            Result::<ClaimView, AuthError>::Ok(c)
        },
{
    let t = ser_claim(c) + seq!['.'] + sg;
    let i = ser_claim(c).len() as int;
    assert(t[i] == '.');
    assert(forall|j: int| i < j < t.len() ==> t[j] == sg[j - i - 1]);
    lemma_rfind_dot_some(t, i);
    assert(t.subrange(0, i) =~= ser_claim(c));
    assert(t.subrange(i + 1, t.len() as int) =~= sg);
    lemma_parse_ser_claim(c);
}

/// The codec round trip: a claim issued for a user, presented before its
/// expiry instant, verifies and yields the embedded user unchanged. The
/// signature hypothesis is what the signing backend's contract states of
/// every token it returns.
pub proof fn lemma_issue_then_verify_ok(c: ClaimView, key: Seq<u8>, sg: Seq<char>, now: int)
    requires
        c.wf(),
        no_dot(sg),
        sig_ok(key, encode_utf8(ser_claim(c)), sg),
        now < c.exp,
    ensures
        spec_verify(ser_claim(c) + seq!['.'] + sg, key, now) == Result::<ClaimView,
            AuthError,
        >::Ok(c),
{
    lemma_verify_issued(c, key, sg, now);
}

/// Verifying any issued token at or past its expiry instant fails with
/// `Expired` and with no other kind of error.
pub proof fn lemma_verify_expired(c: ClaimView, key: Seq<u8>, sg: Seq<char>, now: int)
    requires
        c.wf(),
        no_dot(sg),
        sig_ok(key, encode_utf8(ser_claim(c)), sg),
        now >= c.exp,
    ensures
        spec_verify(ser_claim(c) + seq!['.'] + sg, key, now) == Result::<ClaimView,
            AuthError,
        >::Err(AuthError::Expired),
{
    lemma_verify_issued(c, key, sg, now);
}

} // verus!
