//! Login initiation: issue a state token and build the provider's
//! authorization URL, with every query value form-encoded.

use vstd::prelude::*;

use crate::codec::MAX_INSTANT;
use crate::config::Config;
use crate::csrf::{live_tokens, StateStore, STATE_TTL_SECONDS};
use crate::trust::{ascii_to_string, is_alnum};

verus! {

/// Whether a byte passes through form-encoding untouched: ASCII
/// alphanumerics and `* - . _`.
pub open spec fn is_unreserved(b: u8) -> bool {
    (97 <= b <= 122) || (65 <= b <= 90) || (48 <= b <= 57) || b == 42 || b == 45 || b == 46
        || b == 95
}

/// The ASCII code of one uppercase hexadecimal digit.
pub open spec fn spec_hex_digit(d: int) -> int {
    if d < 10 {
        48 + d
    } else {
        55 + d
    }
}

/// One byte form-encoded: space becomes `+`, an unreserved byte stays, and
/// anything else becomes `%` and two hexadecimal digits.
pub open spec fn enc_byte(b: u8) -> Seq<u8> {
    if b == 32 {
        seq![43u8]
    } else if is_unreserved(b) {
        seq![b]
    } else {
        seq![37u8, spec_hex_digit(b as int / 16) as u8, spec_hex_digit(b as int % 16) as u8]
    }
}

/// A byte string form-encoded, byte by byte.
pub open spec fn enc_bytes(bs: Seq<u8>) -> Seq<u8>
    decreases bs.len(),
{
    if bs.len() == 0 {
        Seq::empty()
    } else {
        enc_bytes(bs.drop_last()) + enc_byte(bs.last())
    }
}

/// Encoded output read back as characters.
pub open spec fn bytes_as_chars(bs: Seq<u8>) -> Seq<char> {
    Seq::new(bs.len(), |i: int| bs[i] as char)
}

/// A string's form-encoding: its UTF-8 bytes encoded, as characters.
pub open spec fn enc_str(s: Seq<char>) -> Seq<char> {
    bytes_as_chars(enc_bytes(vstd::utf8::encode_utf8(s)))
}

/// The scope list joined by single spaces.
pub open spec fn join_spaces(ss: Seq<Seq<char>>) -> Seq<char>
    decreases ss.len(),
{
    if ss.len() == 0 {
        Seq::empty()
    } else if ss.len() == 1 {
        ss[0]
    } else {
        join_spaces(ss.drop_last()) + seq![' '] + ss.last()
    }
}

/// The provider authorization URL for a given configuration and state
/// token, parameters in the order the redirect is built with.
pub open spec fn spec_authorize_url(
    client_id: Seq<char>,
    scopes: Seq<char>,
    redirect: Seq<char>,
    state: Seq<char>,
) -> Seq<char> {
    "https://discord.com/oauth2/authorize?state="@ + enc_str(state) + "&prompt=none&client_id="@
        + enc_str(client_id) + "&response_type=code&scope="@ + enc_str(scopes)
        + "&redirect_uri="@ + enc_str(redirect)
}

proof fn lemma_enc_bytes_ascii(bs: Seq<u8>)
    ensures
        forall|i: int| 0 <= i < enc_bytes(bs).len() ==> enc_bytes(bs)[i] < 128,
    decreases bs.len(),
{
    if bs.len() > 0 {
        lemma_enc_bytes_ascii(bs.drop_last());
        let left = enc_bytes(bs.drop_last());
        let right = enc_byte(bs.last());
        assert(enc_bytes(bs) == left + right);
        assert(forall|i: int| 0 <= i < right.len() ==> right[i] < 128);
        assert(forall|i: int| 0 <= i < enc_bytes(bs).len() ==> enc_bytes(bs)[i] < 128) by {
            assert(forall|i: int|
                0 <= i < left.len() + right.len() ==> (left + right)[i] == (if i < left.len() {
                    left[i]
                } else {
                    right[i - left.len()]
                }));
        }
    }
}

fn hex_digit(d: u8) -> (r: u8)
    requires
        d < 16,
    ensures
        r as int == spec_hex_digit(d as int),
{
    if d < 10 {
        48 + d
    } else {
        55 + d
    }
}

fn is_unreserved_byte(b: u8) -> (r: bool)
    ensures
        r == is_unreserved(b),
{
    (97 <= b && b <= 122) || (65 <= b && b <= 90) || (48 <= b && b <= 57) || b == 42 || b == 45
        || b == 46 || b == 95
}

/// Form-encodes a string's UTF-8 bytes.
fn encode_component(s: &str) -> (r: Vec<u8>)
    ensures
        r@ == enc_bytes(vstd::utf8::encode_utf8(s@)),
{
    let bv = s.as_bytes_vec();
    let mut out: Vec<u8> = Vec::new();
    let n = bv.len();
    let mut i: usize = 0;
    while i < n
        invariant
            i <= n,
            n == bv@.len(),
            bv@ == vstd::utf8::encode_utf8(s@),
            out@ == enc_bytes(bv@.subrange(0, i as int)),
        decreases n - i,
    {
        let b = bv[i];
        proof {
            let prev = bv@.subrange(0, i as int);
            let next = bv@.subrange(0, i as int + 1);
            assert(next.drop_last() =~= prev);
            assert(next.last() == bv@[i as int]);
        }
        if b == 32 {
            out.push(43);
        } else if is_unreserved_byte(b) {
            out.push(b);
        } else {
            out.push(37);
            out.push(hex_digit(b / 16));
            out.push(hex_digit(b % 16));
        }
        proof {
            assert(out@ =~= enc_bytes(bv@.subrange(0, i as int + 1)));
        }
        i = i + 1;
    }
    proof {
        assert(bv@.subrange(0, n as int) =~= bv@);
    }
    out
}

/// Form-encodes a string, yielding the encoded text.
fn encode_component_string(s: &str) -> (r: String)
    ensures
        r@ == enc_str(s@),
{
    let v = encode_component(s);
    proof {
        lemma_enc_bytes_ascii(vstd::utf8::encode_utf8(s@));
    }
    ascii_to_string(v)
}

/// Joins the configured scopes with single spaces.
pub fn join_scopes(scopes: &Vec<String>) -> (r: String)
    ensures
        r@ == join_spaces(scopes@.map_values(|s: String| s@)),
{
    let ghost gs = scopes@.map_values(|s: String| s@);
    let mut r = String::new();
    let n = scopes.len();
    let mut i: usize = 0;
    while i < n
        invariant
            i <= n,
            n == scopes@.len(),
            gs == scopes@.map_values(|s: String| s@),
            gs.len() == n,
            r@ == join_spaces(gs.subrange(0, i as int)),
        decreases n - i,
    {
        proof {
            let prev = gs.subrange(0, i as int);
            let next = gs.subrange(0, i as int + 1);
            assert(next.drop_last() =~= prev);
            assert(next.last() == gs[i as int]);
            assert(next[0] == gs[0]);
        }
        if i > 0 {
            r.append(" ");
            proof {
                reveal_strlit(" ");
            }
        }
        r.append(scopes[i].as_str());
        proof {
            assert(r@ =~= join_spaces(gs.subrange(0, i as int + 1)));
        }
        i = i + 1;
    }
    proof {
        assert(gs.subrange(0, n as int) =~= gs);
    }
    r
}

/// Builds the provider authorization URL for a state token.
pub fn build_authorize_url(cfg: &Config, state: &str) -> (r: String)
    ensures
        r@ == spec_authorize_url(
            cfg.discord_id@,
            join_spaces(cfg.discord_scopes@.map_values(|s: String| s@)),
            cfg.discord_redirect@,
            state@,
        ),
{
    let scopes = join_scopes(&cfg.discord_scopes);
    let mut url = String::from_str("https://discord.com/oauth2/authorize?state=");
    let e_state = encode_component_string(state);
    url.append(e_state.as_str());
    url.append("&prompt=none&client_id=");
    let e_id = encode_component_string(cfg.discord_id.as_str());
    url.append(e_id.as_str());
    url.append("&response_type=code&scope=");
    let e_scope = encode_component_string(scopes.as_str());
    url.append(e_scope.as_str());
    url.append("&redirect_uri=");
    let e_redirect = encode_component_string(cfg.discord_redirect.as_str());
    url.append(e_redirect.as_str());
    proof {
        assert(url@ =~= spec_authorize_url(
            cfg.discord_id@,
            join_spaces(cfg.discord_scopes@.map_values(|s: String| s@)),
            cfg.discord_redirect@,
            state@,
        ));
    }
    url
}

/// Login initiation: issue a state token at instant `now`, store it with
/// its time to live, and hand back the redirect URL together with the
/// token.
pub fn login_begin(store: &mut StateStore, cfg: &Config, now: i64) -> (r: (String, String))
    requires
        old(store).wf(),
        0 <= now <= MAX_INSTANT,
    ensures
        final(store).wf(),
        final(store)@ == live_tokens(old(store)@, now as int).insert(
            r.1@,
            now + STATE_TTL_SECONDS,
        ),
        r.1@.len() == 16,
        forall|i: int| 0 <= i < r.1@.len() ==> is_alnum(r.1@[i]),
        r.0@ == spec_authorize_url(
            cfg.discord_id@,
            join_spaces(cfg.discord_scopes@.map_values(|s: String| s@)),
            cfg.discord_redirect@,
            r.1@,
        ),
{
    let state = store.issue_at(now);
    let url = build_authorize_url(cfg, state.as_str());
    (url, state)
}

} // verus!
