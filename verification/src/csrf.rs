//! The CSRF state broker: issues single-use anti-replay tokens with a short
//! time to live and redeems each at most once. The ephemeral store is
//! modelled as the map from outstanding token to expiry instant.

use vstd::prelude::*;

use crate::codec::MAX_INSTANT;
use crate::errors::AuthError;
use crate::trust::{is_alnum, random_state16};

verus! {

/// Seconds a freshly issued state token stays redeemable.
pub const STATE_TTL_SECONDS: i64 = 90;

/// What one redemption attempt does to the store's contents: a token that
/// is present and unexpired is consumed and the attempt succeeds; any other
/// attempt leaves the store unchanged and fails with `InvalidState`.
pub open spec fn spec_redeem(m: Map<Seq<char>, int>, t: Seq<char>, now: int) -> (
    Map<Seq<char>, int>,
    Result<(), AuthError>,
) {
    if m.contains_key(t) && now < m[t] {
        (m.remove(t), Result::Ok(()))
    } else {
        (m, Result::Err(AuthError::InvalidState))
    }
}

/// The entries of `m` still alive at instant `now`: what the store's
/// time-to-live reclamation leaves standing.
pub open spec fn live_tokens(m: Map<Seq<char>, int>, now: int) -> Map<Seq<char>, int> {
    Map::new(|k: Seq<char>| m.contains_key(k) && now < m[k], |k: Seq<char>| m[k])
}

/// The ephemeral store of outstanding state tokens.
pub struct StateStore {
    entries: Vec<(String, i64)>,
}

spec fn keys_distinct(s: Seq<(String, i64)>) -> bool {
    forall|m: int, n: int| 0 <= m < n < s.len() ==> s[m].0@ != s[n].0@
}

spec fn entries_map(s: Seq<(String, i64)>) -> Map<Seq<char>, int>
    decreases s.len(),
{
    if s.len() == 0 {
        Map::empty()
    } else {
        entries_map(s.drop_last()).insert(s.last().0@, s.last().1 as int)
    }
}

proof fn lemma_entries_map_not_contains(s: Seq<(String, i64)>, k: Seq<char>)
    requires
        forall|m: int| 0 <= m < s.len() ==> s[m].0@ != k,
    ensures
        !entries_map(s).contains_key(k),
    decreases s.len(),
{
    if s.len() > 0 {
        assert(forall|m: int| 0 <= m < s.len() - 1 ==> s.drop_last()[m].0@ != k);
        lemma_entries_map_not_contains(s.drop_last(), k);
    }
}

proof fn lemma_entries_map_get(s: Seq<(String, i64)>, idx: int)
    requires
        keys_distinct(s),
        0 <= idx < s.len(),
    ensures
        entries_map(s).contains_key(s[idx].0@),
        entries_map(s)[s[idx].0@] == s[idx].1 as int,
    decreases s.len(),
{
    if idx < s.len() - 1 {
        assert(forall|m: int, n: int|
            0 <= m < n < s.len() - 1 ==> s.drop_last()[m].0@ != s.drop_last()[n].0@);
        lemma_entries_map_get(s.drop_last(), idx);
        assert(s[idx].0@ != s.last().0@);
    }
}

proof fn lemma_entries_map_remove(s: Seq<(String, i64)>, idx: int)
    requires
        keys_distinct(s),
        0 <= idx < s.len(),
    ensures
        entries_map(s.remove(idx)) == entries_map(s).remove(s[idx].0@),
    decreases s.len(),
{
    broadcast use vstd::map::group_map_axioms;

    let key = s[idx].0@;
    if idx == s.len() - 1 {
        assert(s.remove(idx) =~= s.drop_last());
        assert(forall|m: int| 0 <= m < s.len() - 1 ==> s.drop_last()[m].0@ != key);
        lemma_entries_map_not_contains(s.drop_last(), key);
        assert(entries_map(s.drop_last()) =~= entries_map(s.drop_last()).insert(
            key,
            s[idx].1 as int,
        ).remove(key));
    } else {
        let short = s.drop_last();
        assert(forall|m: int, n: int| 0 <= m < n < short.len() ==> short[m].0@ != short[n].0@);
        lemma_entries_map_remove(short, idx);
        assert(s.remove(idx) =~= short.remove(idx).push(s.last()));
        assert(s.remove(idx).drop_last() =~= short.remove(idx));
        assert(s.remove(idx).last() == s.last());
        assert(key != s.last().0@);
        assert(entries_map(short).remove(key).insert(s.last().0@, s.last().1 as int)
            =~= entries_map(short).insert(s.last().0@, s.last().1 as int).remove(key));
    }
}

/// Character-by-character string equality.
fn str_eq(a: &str, b: &str) -> (r: bool)
    ensures
        r == (a@ == b@),
{
    let la = a.unicode_len();
    let lb = b.unicode_len();
    if la != lb {
        return false;
    }
    let mut k: usize = 0;
    while k < la
        invariant
            k <= la,
            la == a@.len(),
            la == b@.len(),
            forall|j: int| 0 <= j < k ==> a@[j] == b@[j],
        decreases la - k,
    {
        if a.get_char(k) != b.get_char(k) {
            return false;
        }
        k = k + 1;
    }
    proof {
        assert(a@ =~= b@);
    }
    true
}

impl View for StateStore {
    type V = Map<Seq<char>, int>;

    closed spec fn view(&self) -> Map<Seq<char>, int> {
        entries_map(self.entries@)
    }
}

impl StateStore {
    /// The store's internal well-formedness: no token is held twice.
    /// Established by `new` and preserved by every operation.
    pub closed spec fn wf(self) -> bool {
        keys_distinct(self.entries@)
    }

    /// An empty store: no token outstanding.
    pub fn new() -> (r: StateStore)
        ensures
            r@ == Map::<Seq<char>, int>::empty(),
            r.wf(),
    {
        let entries: Vec<(String, i64)> = Vec::new();
        let r = StateStore { entries };
        proof {
            assert(r@ =~= Map::<Seq<char>, int>::empty());
        }
        r
    }

    /// The index of the entry holding `token`, if one does.
    fn find(&self, token: &str) -> (r: Option<usize>)
        ensures
            match r {
                Option::Some(k) => k < self.entries@.len() && self.entries@[k as int].0@ == token@,
                Option::None => !self@.contains_key(token@),
            },
    {
        let n = self.entries.len();
        let mut k: usize = 0;
        while k < n
            invariant
                k <= n,
                n == self.entries@.len(),
                forall|j: int| 0 <= j < k ==> self.entries@[j].0@ != token@,
            decreases n - k,
        {
            if str_eq(self.entries[k].0.as_str(), token) {
                return Option::Some(k);
            }
            k = k + 1;
        }
        proof {
            lemma_entries_map_not_contains(self.entries@, token@);
        }
        Option::None
    }

    /// Issues a fresh state token at instant `now`: entries whose time to
    /// live has lapsed are swept out, and sixteen random alphanumeric
    /// characters are stored under their own value with the short time to
    /// live and returned for the authorization redirect.
    pub fn issue_at(&mut self, now: i64) -> (r: String)
        requires
            old(self).wf(),
            0 <= now <= MAX_INSTANT,
        ensures
            final(self).wf(),
            r@.len() == 16,
            forall|i: int| 0 <= i < r@.len() ==> is_alnum(r@[i]),
            final(self)@ == live_tokens(old(self)@, now as int).insert(
                r@,
                now + STATE_TTL_SECONDS,
            ),
    {
        self.evict_expired(now);
        let token = random_state16();
        self.put(token.clone(), now + STATE_TTL_SECONDS);
        token
    }

    /// Drops every entry whose expiry instant has been reached, as the
    /// store's time-to-live reclamation promises: no abandoned token
    /// lingers.
    pub fn evict_expired(&mut self, now: i64)
        requires
            old(self).wf(),
        ensures
            final(self).wf(),
            final(self)@ == live_tokens(old(self)@, now as int),
    {
        let mut k: usize = 0;
        while k < self.entries.len()
            invariant
                self.wf(),
                k <= self.entries@.len(),
                forall|j: int| 0 <= j < k ==> now < self.entries@[j].1,
                forall|key: Seq<char>| #[trigger]
                    self@.contains_key(key) ==> old(self)@.contains_key(key) && self@[key]
                        == old(self)@[key],
                forall|key: Seq<char>|
                    old(self)@.contains_key(key) && now < old(self)@[key] ==> #[trigger]
                        self@.contains_key(key),
            decreases self.entries@.len() - k,
        {
            let exp = self.entries[k].1;
            if exp <= now {
                let ghost pre = self@;
                let ghost prek = self.entries@[k as int].0@;
                proof {
                    lemma_entries_map_get(self.entries@, k as int);
                    lemma_entries_map_remove(self.entries@, k as int);
                }
                let _ = self.entries.remove(k);
                proof {
                    broadcast use vstd::map::group_map_axioms;

                    assert(keys_distinct(self.entries@));
                    assert(self@ == pre.remove(prek));
                    assert(pre[prek] <= now);
                    assert forall|key: Seq<char>|
                        old(self)@.contains_key(key) && now < old(self)@[key] implies #[trigger]
                        self@.contains_key(key) by {
                        assert(pre.contains_key(key) && pre[key] == old(self)@[key]);
                        assert(key != prek);
                    }
                }
            } else {
                k = k + 1;
            }
        }
        proof {
            assert forall|key: Seq<char>| self@.contains_key(key) implies old(self)@.contains_key(
                key,
            ) && now < old(self)@[key] && self@[key] == old(self)@[key] by {
                if forall|j: int|
                    0 <= j < self.entries@.len() ==> self.entries@[j].0@ != key {
                    lemma_entries_map_not_contains(self.entries@, key);
                } else {
                    let j = choose|j: int|
                        0 <= j < self.entries@.len() && self.entries@[j].0@ == key;
                    lemma_entries_map_get(self.entries@, j);
                }
            }
            assert(self@ =~= live_tokens(old(self)@, now as int));
        }
    }

    /// Stores `token` with expiry instant `exp`, replacing any entry under
    /// the same value: the store's set-with-expiry capability.
    pub fn put(&mut self, token: String, exp: i64)
        requires
            old(self).wf(),
        ensures
            final(self).wf(),
            final(self)@ == old(self)@.insert(token@, exp as int),
    {
        let found = self.find(token.as_str());
        match found {
            Option::Some(k) => {
                proof {
                    lemma_entries_map_remove(self.entries@, k as int);
                }
                let _ = self.entries.remove(k);
                proof {
                    assert(keys_distinct(self.entries@));
                    assert(!self@.contains_key(token@)) by {
                        assert(forall|m: int|
                            0 <= m < self.entries@.len() ==> self.entries@[m].0@ != token@);
                        lemma_entries_map_not_contains(self.entries@, token@);
                    }
                    assert(self@ =~= old(self)@.remove(token@));
                }
                self.push_absent(token, exp);
                proof {
                    assert(self@ =~= old(self)@.insert(token@, exp as int));
                }
            },
            Option::None => {
                self.push_absent(token, exp);
                proof {
                    assert(self@ =~= old(self)@.insert(token@, exp as int));
                }
            },
        }
    }

    /// Appends an entry whose key is not yet present.
    fn push_absent(&mut self, token: String, exp: i64)
        requires
            old(self).wf(),
            !old(self)@.contains_key(token@),
        ensures
            final(self).wf(),
            final(self)@ == old(self)@.insert(token@, exp as int),
    {
        proof {
            if exists|m: int|
                0 <= m < self.entries@.len() && self.entries@[m].0@ == token@ {
                let m = choose|m: int|
                    0 <= m < self.entries@.len() && self.entries@[m].0@ == token@;
                lemma_entries_map_get(self.entries@, m);
                assert(false);
            }
        }
        self.entries.push((token, exp));
        proof {
            assert(self.entries@.drop_last() =~= old(self).entries@);
            assert(keys_distinct(self.entries@));
        }
    }

    /// Redeems a presented state token at instant `now`: succeeds and
    /// consumes the token exactly when it is outstanding and unexpired, and
    /// otherwise fails with `InvalidState` leaving the store unchanged.
    pub fn redeem_at(&mut self, token: &str, now: i64) -> (r: Result<(), AuthError>)
        requires
            old(self).wf(),
        ensures
            final(self).wf(),
            (final(self)@, r) == spec_redeem(old(self)@, token@, now as int),
    {
        let found = self.find(token);
        match found {
            Option::None => Result::Err(AuthError::InvalidState),
            Option::Some(k) => {
                proof {
                    lemma_entries_map_get(self.entries@, k as int);
                }
                let exp = self.entries[k].1;
                if now < exp {
                    proof {
                        lemma_entries_map_remove(self.entries@, k as int);
                    }
                    let _ = self.entries.remove(k);
                    Result::Ok(())
                } else {
                    Result::Err(AuthError::InvalidState)
                }
            },
        }
    }
}

// ---------------------------------------------------------------------------
// Laws of the broker.
// ---------------------------------------------------------------------------

/// A token issued at `now` can be redeemed at any instant strictly before
/// `now` plus the time to live.
pub proof fn lemma_issue_then_redeem(m: Map<Seq<char>, int>, t: Seq<char>, now: int, later: int)
    requires
        later < now + STATE_TTL_SECONDS,
    ensures
        spec_redeem(m.insert(t, now + STATE_TTL_SECONDS), t, later).1 is Ok,
{
    broadcast use vstd::map::group_map_axioms;

}

/// Redemption is single-use: after a successful redemption of a token, a
/// second attempt on the same token fails with `InvalidState`, whatever
/// instant it is made at.
pub proof fn lemma_redeem_single_use(m: Map<Seq<char>, int>, t: Seq<char>, now: int, later: int)
    requires
        spec_redeem(m, t, now).1 is Ok,
    ensures
        spec_redeem(spec_redeem(m, t, now).0, t, later).1 == Result::<(), AuthError>::Err(
            AuthError::InvalidState,
        ),
        spec_redeem(spec_redeem(m, t, now).0, t, later).0 == spec_redeem(m, t, now).0,
{
    broadcast use vstd::map::group_map_axioms;

}

/// A token kept past its expiry instant can no longer be redeemed.
pub proof fn lemma_redeem_expired(m: Map<Seq<char>, int>, t: Seq<char>, now: int)
    requires
        m.contains_key(t),
        now >= m[t],
    ensures
        spec_redeem(m, t, now) == (m, Result::<(), AuthError>::Err(AuthError::InvalidState)),
{
}

} // verus!
