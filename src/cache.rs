//! The per-tenant cache of signing keys: merging fetched key sets, evicting
//! keys that were not advertised for a while, and turning a cached key into a
//! key that checks signatures.
use vstd::prelude::*;
use vstd::string::*;
use vstd::utf8::encode_utf8;
use crate::error::EntraIdError;
use crate::table::{entries_map, lemma_entries_map, Table};
use crate::token::b64url_decoded;
use crate::types::{CachedJwk, Jwk, Kid, TenantId};

verus! {

/// The keys of one tenant, by `kid`.
pub type KeyMap = Map<Seq<char>, CachedJwk>;

/// Time from `since` to `now`; zero when `now` is earlier (as
/// `Instant::duration_since` saturates).
pub open spec fn elapsed(now: u64, since: u64) -> int {
    if now >= since {
        now - since
    } else {
        0
    }
}

/// A key that was advertised less than `ttl` ago.
pub open spec fn is_fresh(c: CachedJwk, now: u64, ttl: u64) -> bool {
    elapsed(now, c.last_seen_at) < ttl
}

/// `keys` after merging the fetched keys in order: a `kid` already present
/// keeps its key material and is marked as seen `now`; a new `kid` is added,
/// seen `now`.
pub open spec fn merged(keys: KeyMap, fetched: Seq<Jwk>, now: u64) -> KeyMap
    decreases fetched.len(),
{
    if fetched.len() == 0 {
        keys
    } else {
        let m = merged(keys, fetched.drop_last(), now);
        let j = fetched.last();
        if m.contains_key(j.kid@) {
            m.insert(j.kid@, CachedJwk { jwk: m[j.kid@].jwk, last_seen_at: now })
        } else {
            m.insert(j.kid@, CachedJwk { jwk: j, last_seen_at: now })
        }
    }
}

/// The fresh keys of `keys`.
pub open spec fn fresh_keys(keys: KeyMap, now: u64, ttl: u64) -> KeyMap {
    Map::new(|k: Seq<char>| keys.contains_key(k) && is_fresh(keys[k], now, ttl), |k: Seq<char>| keys[k])
}

/// `k` is a key of `keys` seen no earlier than any other.
pub open spec fn is_most_recent(keys: KeyMap, k: Seq<char>) -> bool {
    &&& keys.contains_key(k)
    &&& forall|o: Seq<char>| #[trigger]
        keys.contains_key(o) ==> keys[o].last_seen_at <= keys[k].last_seen_at
}

/// `after` is what eviction leaves of `before`: its fresh keys; or, when none
/// is fresh, a most recently seen key alone.
pub open spec fn cleaned(before: KeyMap, after: KeyMap, now: u64, ttl: u64) -> bool {
    if exists|k: Seq<char>| #[trigger] before.contains_key(k) && is_fresh(before[k], now, ttl) {
        after == fresh_keys(before, now, ttl)
    } else if before.dom() =~= Set::empty() {
        after == before
    } else {
        exists|k: Seq<char>|
            #[trigger] is_most_recent(before, k) && after == Map::<Seq<char>, CachedJwk>::empty().insert(
                k,
                before[k],
            )
    }
}

/// Merging never removes a key, keeps the material of every `kid` already
/// cached, and marks every fetched `kid` as seen `now`.
pub proof fn lemma_merge_keeps_and_touches(keys: KeyMap, fetched: Seq<Jwk>, now: u64)
    ensures
        forall|k: Seq<char>| #[trigger]
            keys.contains_key(k) ==> merged(keys, fetched, now).contains_key(k) && merged(
                keys,
                fetched,
                now,
            )[k].jwk == keys[k].jwk,
        forall|i: int|
            0 <= i < fetched.len() ==> merged(keys, fetched, now).contains_key(
                (#[trigger] fetched[i]).kid@,
            ) && merged(keys, fetched, now)[fetched[i].kid@].last_seen_at == now,
        forall|k: Seq<char>| #[trigger]
            merged(keys, fetched, now).contains_key(k) ==> keys.contains_key(k) || exists|i: int|
                0 <= i < fetched.len() && (#[trigger] fetched[i]).kid@ == k,
    decreases fetched.len(),
{
    if fetched.len() > 0 {
        let p = fetched.drop_last();
        lemma_merge_keeps_and_touches(keys, p, now);
        assert forall|i: int| 0 <= i < fetched.len() implies merged(keys, fetched, now).contains_key(
            (#[trigger] fetched[i]).kid@,
        ) && merged(keys, fetched, now)[fetched[i].kid@].last_seen_at == now by {
            if i < fetched.len() - 1 {
                assert(fetched[i] == p[i]);
            }
        }
        assert forall|k: Seq<char>| #[trigger]
            merged(keys, fetched, now).contains_key(k) implies keys.contains_key(k) || exists|i: int|
                0 <= i < fetched.len() && (#[trigger] fetched[i]).kid@ == k by {
            if k != fetched.last().kid@ && !keys.contains_key(k) {
                assert(merged(keys, p, now).contains_key(k));
                let i = choose|i: int| 0 <= i < p.len() && (#[trigger] p[i]).kid@ == k;
                assert(fetched[i] == p[i]);
            } else if k == fetched.last().kid@ {
                assert(fetched[fetched.len() - 1].kid@ == k);
            }
        }
    }
}

/// With a clock that does not go back (no key seen after `now`), a merge
/// leaves every key seen no later than `now`, and every fetched `kid` that was
/// already cached keeps its material and moves its last sighting forward to
/// `now`.
pub proof fn lemma_merge_moves_forward(keys: KeyMap, fetched: Seq<Jwk>, now: u64)
    requires
        forall|k: Seq<char>| #[trigger] keys.contains_key(k) ==> keys[k].last_seen_at <= now,
    ensures
        forall|k: Seq<char>| #[trigger]
            merged(keys, fetched, now).contains_key(k) ==> merged(keys, fetched, now)[k].last_seen_at
                <= now,
        forall|i: int|
            0 <= i < fetched.len() && keys.contains_key((#[trigger] fetched[i]).kid@) ==> {
                let after = merged(keys, fetched, now)[fetched[i].kid@];
                &&& after.last_seen_at == now
                &&& now >= keys[fetched[i].kid@].last_seen_at
                &&& after.jwk == keys[fetched[i].kid@].jwk
            },
    decreases fetched.len(),
{
    lemma_merge_keeps_and_touches(keys, fetched, now);
    if fetched.len() > 0 {
        lemma_merge_moves_forward(keys, fetched.drop_last(), now);
    }
}

/// A `kid` new to the cache takes the material of its first occurrence among
/// the fetched keys, seen `now`; so a token signed with that key finds it.
pub proof fn lemma_merge_adds_new_key(keys: KeyMap, fetched: Seq<Jwk>, now: u64, i: int)
    requires
        0 <= i < fetched.len(),
        !keys.contains_key(fetched[i].kid@),
        forall|j: int| 0 <= j < i ==> (#[trigger] fetched[j]).kid@ != fetched[i].kid@,
    ensures
        merged(keys, fetched, now).contains_key(fetched[i].kid@),
        merged(keys, fetched, now)[fetched[i].kid@] == (CachedJwk { jwk: fetched[i], last_seen_at: now }),
    decreases fetched.len(),
{
    let k = fetched[i];
    let p = fetched.drop_last();
    if i < fetched.len() - 1 {
        assert forall|j: int| 0 <= j < i implies (#[trigger] p[j]).kid@ != p[i].kid@ by {
            assert(p[j] == fetched[j]);
        }
        lemma_merge_adds_new_key(keys, p, now, i);
        assert(p[i] == k);
    } else {
        assert(p =~= fetched.subrange(0, i));
        lemma_merge_keeps_and_touches(keys, p, now);
        if merged(keys, p, now).contains_key(k.kid@) {
            let j = choose|j: int| 0 <= j < p.len() && (#[trigger] p[j]).kid@ == k.kid@;
            assert(fetched[j] == p[j]);
        }
    }
}

/// Eviction keeps at least one key of a tenant that had keys, even when all
/// of them are older than the time to live: one that was seen most recently.
pub proof fn lemma_cleanup_keeps_most_recent(before: KeyMap, after: KeyMap, now: u64, ttl: u64)
    requires
        cleaned(before, after, now, ttl),
        before.dom().finite(),
        !(before.dom() =~= Set::empty()),
    ensures
        exists|k: Seq<char>| #[trigger] is_most_recent(before, k) && after.contains_key(k) && after[k]
            == before[k],
        forall|k: Seq<char>| #[trigger] after.contains_key(k) ==> before.contains_key(k) && after[k] == before[k],
{
    if exists|k: Seq<char>| #[trigger] before.contains_key(k) && is_fresh(before[k], now, ttl) {
        let f = choose|k: Seq<char>| #[trigger] before.contains_key(k) && is_fresh(before[k], now, ttl);
        lemma_most_recent_exists(before);
        let m = choose|k: Seq<char>| #[trigger] is_most_recent(before, k);
        assert(before[f].last_seen_at <= before[m].last_seen_at);
        assert(is_fresh(before[m], now, ttl));
        assert(after.contains_key(m));
    } else {
        let m = choose|k: Seq<char>|
            #[trigger] is_most_recent(before, k) && after == Map::<Seq<char>, CachedJwk>::empty().insert(
                k,
                before[k],
            );
        assert(after.contains_key(m));
    }
}

/// A map with keys has a key seen no earlier than any other.
pub proof fn lemma_most_recent_exists(keys: KeyMap)
    requires
        keys.dom().finite(),
        !(keys.dom() =~= Set::empty()),
    ensures
        exists|k: Seq<char>| #[trigger] is_most_recent(keys, k),
    decreases keys.dom().len(),
{
    let k0 = keys.dom().choose();
    let rest = keys.remove(k0);
    if rest.dom() =~= Set::empty() {
        assert(is_most_recent(keys, k0));
    } else {
        lemma_most_recent_exists(rest);
        let k1 = choose|k: Seq<char>| #[trigger] is_most_recent(rest, k);
        if keys[k1].last_seen_at >= keys[k0].last_seen_at {
            assert(is_most_recent(keys, k1));
        } else {
            assert(is_most_recent(keys, k0));
        }
    }
}

/// Whether a key's RSA components are both base64url text, which is what
/// `DecodingKey::from_rsa_components` asks of them.
pub open spec fn rsa_usable(j: Jwk) -> bool {
    &&& b64url_decoded(encode_utf8(j.n@)) is Some
    &&& b64url_decoded(encode_utf8(j.e@)) is Some
}

/// Relies on `jsonwebtoken::DecodingKey::from_rsa_components`, which succeeds
/// exactly when both components decode as base64url without padding.
#[verifier::external_body]
fn rsa_decoding_key(n: &str, e: &str) -> (r: Result<jsonwebtoken::DecodingKey, jsonwebtoken::errors::Error>)
    ensures
        r is Ok <==> (b64url_decoded(n.spec_bytes()) is Some && b64url_decoded(e.spec_bytes()) is Some),
{
    jsonwebtoken::DecodingKey::from_rsa_components(n, e)
}

/// Turns a key's RSA components into a key that checks signatures.
pub fn decoding_key_from_jwk(jwk: &Jwk) -> (r: Result<jsonwebtoken::DecodingKey, EntraIdError>)
    ensures
        r is Ok <==> rsa_usable(*jwk),
        r matches Err(e) ==> e matches EntraIdError::CreateDecodingKeyError(kid, _) && kid@ == jwk.kid@,
{
    match rsa_decoding_key(jwk.n.as_str(), jwk.e.as_str()) {
        Ok(k) => Ok(k),
        Err(err) => Err(EntraIdError::CreateDecodingKeyError(Kid(jwk.kid.clone()), err)),
    }
}

/// Merges fetched keys into one tenant's key table.
fn merge_into(keys: &mut Table<CachedJwk>, fetched: Vec<Jwk>, now: u64)
    requires
        old(keys).wf(),
    ensures
        final(keys).wf(),
        final(keys)@ == merged(old(keys)@, fetched@, now),
{
    let ghost start = keys@;
    let ghost all = fetched@;
    let mut rest = fetched;
    let ghost mut done: int = 0;
    while rest.len() > 0
        invariant
            keys.wf(),
            0 <= done <= all.len(),
            done + rest@.len() == all.len(),
            rest@ == all.subrange(done, all.len() as int),
            keys@ == merged(start, all.subrange(0, done), now),
        decreases rest@.len(),
    {
        let ghost before = all.subrange(0, done);
        let j = rest.remove(0);
        let ghost after = all.subrange(0, done + 1);
        assert(after.drop_last() =~= before);
        assert(after.last() == j);
        let kid = j.kid.clone();
        match keys.remove(&kid) {
            Some(mut existing) => {
                existing.last_seen_at = now;
                keys.insert(kid, existing);
            },
            None => {
                keys.insert(kid, CachedJwk { jwk: j, last_seen_at: now });
            },
        }
        proof {
            assert(keys@ =~= merged(start, after, now));
        }
        proof {
            done = done + 1;
        }
        assert(rest@ =~= all.subrange(done, all.len() as int));
    }
    assert(all.subrange(0, all.len() as int) =~= all);
}

/// What eviction leaves of one tenant's key table.
fn retain_fresh(keys: Table<CachedJwk>, now: u64, ttl: u64) -> (r: Table<CachedJwk>)
    requires
        keys.wf(),
    ensures
        r.wf(),
        cleaned(keys@, r@, now, ttl),
{
    let ghost before = keys@;
    let ghost all = keys.spec_entries();
    proof {
        lemma_entries_map(all);
    }
    let mut rest = keys.into_entries();
    let mut retained: Table<CachedJwk> = Table::new();
    let mut best: Option<(String, CachedJwk)> = None;
    while rest.len() > 0
        invariant
            retained.wf(),
            rest@ == all.subrange(0, rest@.len() as int),
            rest@.len() <= all.len(),
            crate::table::unique_keys(all),
            before == entries_map(all),
            forall|k: Seq<char>| #[trigger]
                retained@.contains_key(k) <==> exists|j: int|
                    rest@.len() <= j < all.len() && (#[trigger] all[j]).0@ == k && is_fresh(
                        all[j].1,
                        now,
                        ttl,
                    ),
            forall|j: int|
                rest@.len() <= j < all.len() && is_fresh(all[j].1, now, ttl) ==> retained@[(
                #[trigger] all[j]).0@] == all[j].1,
            match best {
                None => forall|j: int|
                    rest@.len() <= j < all.len() ==> is_fresh((#[trigger] all[j]).1, now, ttl),
                Some((k, c)) => exists|i: int|
                    rest@.len() <= i < all.len() && (#[trigger] all[i]).0@ == k@ && all[i].1 == c
                        && forall|j: int|
                        rest@.len() <= j < all.len() && !is_fresh((#[trigger] all[j]).1, now, ttl)
                            ==> all[j].1.last_seen_at <= c.last_seen_at,
            },
        decreases rest@.len(),
    {
        let ghost n = rest@.len() - 1;
        let (kid, c) = rest.pop().unwrap();
        assert(all[n] == (kid, c));
        assert(rest@ =~= all.subrange(0, n));
        let age = if now >= c.last_seen_at {
            now - c.last_seen_at
        } else {
            0
        };
        if age < ttl {
            proof {
                assert forall|j: int| n < j < all.len() implies all[j].0@ != kid@ by {
                    assert(all[n].0@ == kid@);
                }
            }
            retained.insert(kid, c);
        } else {
            let replace = match &best {
                None => true,
                Some((_, b)) => b.last_seen_at < c.last_seen_at,
            };
            if replace {
                best = Some((kid, c));
            }
        }
    }
    proof {
        lemma_entries_map(all);
    }
    if retained.is_empty() {
        proof {
            assert forall|k: Seq<char>| before.contains_key(k) implies !is_fresh(before[k], now, ttl) by {
                let j = choose|j: int| 0 <= j < all.len() && (#[trigger] all[j]).0@ == k;
                assert(!retained@.contains_key(k));
            }
        }
        match best {
            Some((kid, c)) => {
                proof {
                    let i = choose|i: int|
                        0 <= i < all.len() && (#[trigger] all[i]).0@ == kid@ && all[i].1 == c;
                    assert(before.contains_key(kid@));
                    assert forall|o: Seq<char>| #[trigger]
                        before.contains_key(o) implies before[o].last_seen_at <= before[kid@].last_seen_at by {
                        let j = choose|j: int| 0 <= j < all.len() && (#[trigger] all[j]).0@ == o;
                        assert(!is_fresh(all[j].1, now, ttl));
                    }
                    assert(is_most_recent(before, kid@));
                }
                let mut single: Table<CachedJwk> = Table::new();
                let ghost k = kid@;
                single.insert(kid, c);
                proof {
                    assert(single@ == Map::<Seq<char>, CachedJwk>::empty().insert(k, before[k]));
                }
                single
            },
            None => {
                proof {
                    assert(before.dom() =~= Set::empty()) by {
                        assert forall|k: Seq<char>| !before.contains_key(k) by {
                            if before.contains_key(k) {
                                let j = choose|j: int| 0 <= j < all.len() && (#[trigger] all[j]).0@ == k;
                                assert(is_fresh(all[j].1, now, ttl));
                            }
                        }
                    }
                    assert(retained@ =~= before);
                }
                retained
            },
        }
    } else {
        proof {
            let k0 = choose|k: Seq<char>| retained@.contains_key(k);
            assert(retained@.contains_key(k0));
            let j0 = choose|j: int|
                0 <= j < all.len() && (#[trigger] all[j]).0@ == k0 && is_fresh(all[j].1, now, ttl);
            assert(entries_map(all).contains_key(all[j0].0@));
            assert(before.contains_key(k0) && is_fresh(before[k0], now, ttl));
            assert(retained@ =~= fresh_keys(before, now, ttl)) by {
                assert forall|k: Seq<char>| #[trigger]
                    retained@.contains_key(k) <==> fresh_keys(before, now, ttl).contains_key(k) by {
                    if retained@.contains_key(k) {
                        let j = choose|j: int|
                            0 <= j < all.len() && (#[trigger] all[j]).0@ == k && is_fresh(all[j].1, now, ttl);
                        assert(entries_map(all).contains_key(all[j].0@));
                        assert(before[k] == all[j].1);
                    }
                    if fresh_keys(before, now, ttl).contains_key(k) {
                        let j = choose|j: int| 0 <= j < all.len() && (#[trigger] all[j]).0@ == k;
                        assert(entries_map(all).contains_key(all[j].0@));
                        assert(before[k] == all[j].1);
                    }
                }
                assert forall|k: Seq<char>| #[trigger]
                    retained@.contains_key(k) implies retained@[k] == before[k] by {
                    let j = choose|j: int|
                        0 <= j < all.len() && (#[trigger] all[j]).0@ == k && is_fresh(all[j].1, now, ttl);
                    assert(entries_map(all).contains_key(all[j].0@));
                    assert(before[k] == all[j].1);
                }
            }
        }
        retained
    }
}

/// The cached keys of every registered tenant, and how long an unseen key
/// stays.
pub struct JwksCache {
    entries: Table<Table<CachedJwk>>,
    ttl: u64,
}

impl View for JwksCache {
    type V = Map<Seq<char>, KeyMap>;

    closed spec fn view(&self) -> Map<Seq<char>, KeyMap> {
        self.entries@.map_values(|t: Table<CachedJwk>| t@)
    }
}

impl JwksCache {
    pub closed spec fn wf(&self) -> bool {
        &&& self.entries.wf()
        &&& forall|t: Seq<char>| #[trigger] self.entries@.contains_key(t) ==> self.entries@[t].wf()
    }

    /// Each tenant holds finitely many keys.
    pub proof fn lemma_finite(&self)
        requires
            self.wf(),
        ensures
            forall|t: Seq<char>| #[trigger] self@.contains_key(t) ==> self@[t].dom().finite(),
    {
        assert forall|t: Seq<char>| #[trigger] self@.contains_key(t) implies self@[t].dom().finite() by {
            crate::table::lemma_entries_map_finite(self.entries@[t].spec_entries());
        }
    }

    /// How long a key that the identity provider stopped advertising stays.
    pub closed spec fn spec_ttl(&self) -> u64 {
        self.ttl
    }

    /// An empty cache whose keys stay `ttl` milliseconds after they were
    /// last advertised.
    pub fn new(ttl: u64) -> (r: Self)
        ensures
            r.wf(),
            r@ == Map::<Seq<char>, KeyMap>::empty(),
            r.spec_ttl() == ttl,
    {
        let r = JwksCache { entries: Table::new(), ttl };
        assert(r@ =~= Map::<Seq<char>, KeyMap>::empty());
        r
    }

    pub fn ttl(&self) -> (r: u64)
        ensures
            r == self.spec_ttl(),
    {
        self.ttl
    }

    /// Gives a tenant the keys of its first fetch, each seen `now`.
    pub fn install(&mut self, tenant_id: &TenantId, fetched: Vec<Jwk>, now: u64)
        requires
            old(self).wf(),
        ensures
            final(self).wf(),
            final(self).spec_ttl() == old(self).spec_ttl(),
            final(self)@ == old(self)@.insert(
                tenant_id@,
                merged(Map::<Seq<char>, CachedJwk>::empty(), fetched@, now),
            ),
    {
        let mut keys: Table<CachedJwk> = Table::new();
        merge_into(&mut keys, fetched, now);
        let ghost m = keys@;
        self.entries.insert(tenant_id.0.clone(), keys);
        assert(self@ =~= old(self)@.insert(tenant_id@, m));
    }

    /// Merges keys fetched for a tenant; an unknown tenant is left alone.
    /// No key is removed.
    pub fn merge(&mut self, tenant_id: &TenantId, fetched: Vec<Jwk>, now: u64)
        requires
            old(self).wf(),
        ensures
            final(self).wf(),
            final(self).spec_ttl() == old(self).spec_ttl(),
            old(self)@.contains_key(tenant_id@) ==> final(self)@ == old(self)@.insert(
                tenant_id@,
                merged(old(self)@[tenant_id@], fetched@, now),
            ),
            !old(self)@.contains_key(tenant_id@) ==> final(self)@ == old(self)@,
    {
        match self.entries.remove(&tenant_id.0) {
            Some(mut keys) => {
                merge_into(&mut keys, fetched, now);
                let ghost m = keys@;
                self.entries.insert(tenant_id.0.clone(), keys);
                assert(self@ =~= old(self)@.insert(tenant_id@, m));
            },
            None => {
                assert(self@ =~= old(self)@);
            },
        }
    }

    /// Evicts every key not advertised within the time to live, keeping for
    /// each tenant that had keys at least its most recently seen one.
    pub fn cleanup(&mut self, now: u64)
        requires
            old(self).wf(),
        ensures
            final(self).wf(),
            final(self).spec_ttl() == old(self).spec_ttl(),
            final(self)@.dom() == old(self)@.dom(),
            forall|t: Seq<char>| #[trigger]
                old(self)@.contains_key(t) ==> cleaned(old(self)@[t], final(self)@[t], now, old(self).spec_ttl()),
    {
        let ttl = self.ttl;
        let ghost old_view = self@;
        let ghost old_entries = self.entries@;
        let ghost all = self.entries.spec_entries();
        proof {
            lemma_entries_map(all);
        }
        let mut taken: Table<Table<CachedJwk>> = Table::new();
        std::mem::swap(&mut self.entries, &mut taken);
        let mut rest = taken.into_entries();
        let mut out: Table<Table<CachedJwk>> = Table::new();
        while rest.len() > 0
            invariant
                out.wf(),
                rest@ == all.subrange(0, rest@.len() as int),
                rest@.len() <= all.len(),
                crate::table::unique_keys(all),
                old_entries == entries_map(all),
                forall|t: Seq<char>| #[trigger] old_entries.contains_key(t) ==> old_entries[t].wf(),
                forall|t: Seq<char>| #[trigger]
                    out@.contains_key(t) <==> exists|j: int|
                        rest@.len() <= j < all.len() && (#[trigger] all[j]).0@ == t,
                forall|t: Seq<char>| #[trigger]
                    out@.contains_key(t) ==> out@[t].wf() && cleaned(old_entries[t]@, out@[t]@, now, ttl),
            decreases rest@.len(),
        {
            let ghost n = rest@.len() - 1;
            let (tid, keys) = rest.pop().unwrap();
            assert(all[n] == (tid, keys));
            assert(rest@ =~= all.subrange(0, n));
            proof {
                lemma_entries_map(all);
                assert(entries_map(all).contains_key(all[n].0@));
            }
            assert(old_entries.contains_key(tid@) && old_entries[tid@] == keys);
            let kept = retain_fresh(keys, now, ttl);
            out.insert(tid, kept);
        }
        self.entries = out;
        proof {
            assert(self@.dom() =~= old_view.dom()) by {
                assert forall|t: Seq<char>| self@.contains_key(t) <==> old_view.contains_key(t) by {
                    if old_view.contains_key(t) {
                        assert(old_entries.contains_key(t));
                    }
                }
            }
        }
    }

    /// The key that checks signatures made with the tenant's key `kid`, when
    /// the cache holds that key and its RSA components are usable.
    pub fn find_decoding_key(&self, tenant_id: &TenantId, key_id: &Kid) -> (r: Option<
        jsonwebtoken::DecodingKey,
    >)
        requires
            self.wf(),
        ensures
            r is Some <==> (self@.contains_key(tenant_id@) && self@[tenant_id@].contains_key(key_id@)
                && rsa_usable(self@[tenant_id@][key_id@].jwk)),
    {
        let keys = self.entries.get(&tenant_id.0)?;
        let cached = keys.get(&key_id.0)?;
        decoding_key_from_jwk(&cached.jwk).ok()
    }

    /// The key that checks signatures made with the tenant's key `kid`, or
    /// the error that names the tenant and the `kid` when the cache has no
    /// usable key for them.
    pub fn decoding_key_or_error(&self, tenant_id: &TenantId, key_id: &Kid) -> (r: Result<
        jsonwebtoken::DecodingKey,
        EntraIdError,
    >)
        requires
            self.wf(),
        ensures
            r is Ok <==> (self@.contains_key(tenant_id@) && self@[tenant_id@].contains_key(key_id@)
                && rsa_usable(self@[tenant_id@][key_id@].jwk)),
            r matches Err(e) ==> e matches EntraIdError::DecodingKeyNotFound(t, k) && t@ == tenant_id@
                && k@ == key_id@,
    {
        match self.find_decoding_key(tenant_id, key_id) {
            Some(k) => Ok(k),
            None => Err(
                EntraIdError::DecodingKeyNotFound(
                    TenantId(tenant_id.0.clone()),
                    Kid(key_id.0.clone()),
                ),
            ),
        }
    }

    /// When the tenant's key `kid` was last advertised.
    pub fn last_seen_at(&self, tenant_id: &TenantId, key_id: &Kid) -> (r: Option<u64>)
        requires
            self.wf(),
        ensures
            r matches Some(t) ==> self@.contains_key(tenant_id@) && self@[tenant_id@].contains_key(
                key_id@,
            ) && t == self@[tenant_id@][key_id@].last_seen_at,
            r is None <==> !(self@.contains_key(tenant_id@) && self@[tenant_id@].contains_key(
                key_id@,
            )),
    {
        match self.entries.get(&tenant_id.0) {
            Some(keys) => match keys.get(&key_id.0) {
                Some(c) => Some(c.last_seen_at),
                None => None,
            },
            None => None,
        }
    }

    /// How many keys the tenant has; `None` for an unknown tenant.
    pub fn key_count(&self, tenant_id: &TenantId) -> (r: Option<usize>)
        requires
            self.wf(),
        ensures
            r is Some <==> self@.contains_key(tenant_id@),
            r matches Some(n) ==> (n == 0 <==> self@[tenant_id@].dom() =~= Set::empty()),
    {
        match self.entries.get(&tenant_id.0) {
            Some(keys) => {
                let empty = keys.is_empty();
                let n = keys.len();
                proof {
                    lemma_entries_map(keys.spec_entries());
                    if !empty {
                        assert(n > 0) by {
                            let k = choose|k: Seq<char>| keys@.contains_key(k);
                            assert(keys@.contains_key(k));
                        }
                    } else if n > 0 {
                        assert(keys@.contains_key(keys.spec_entries()[0].0@));
                    }
                }
                Some(n)
            },
            None => None,
        }
    }
}

} // verus!
