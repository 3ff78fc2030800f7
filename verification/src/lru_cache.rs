//! The `lru` crate's least-recently-used cache, as the library uses it.
//!
//! A cache's contents are modelled as its entries ordered from most to least
//! recently used.
use lru::LruCache;
use vstd::prelude::*;

use crate::keys::{has_key, key_pos, lemma_has_key_first, lemma_key_pos, lemma_unique_lookup, lookup, unique_keys};
use crate::peer::identity::PeerIdentity;

verus! {

/// Least-recently-used caches of the `lru` crate, opaque here.
#[verifier::external_type_specification]
#[verifier::external_body]
#[verifier::reject_recursive_types(K)]
#[verifier::reject_recursive_types(V)]
#[verifier::reject_recursive_types(S)]
pub struct ExLruCache<K, V, S>(LruCache<K, V, S>);

/// The hash builder `lru` uses by default, opaque here.
#[verifier::external_type_specification]
#[verifier::external_body]
pub struct ExLruDefaultHasher(lru::DefaultHasher);

/// The entries after a lookup of `k`: a present entry becomes the most recent.
pub open spec fn lru_touched<V>(s: Seq<([u8; 32], V)>, k: [u8; 32]) -> Seq<([u8; 32], V)> {
    if has_key(s, k) {
        seq![s[key_pos(s, k)]] + s.remove(key_pos(s, k))
    } else {
        s
    }
}

/// The entries after storing `v` under `k` in a cache of `cap` entries: the
/// pair becomes the most recent entry, replacing the old one for `k`; a new
/// key in a full cache evicts the least recent entry.
pub open spec fn lru_stored<V>(s: Seq<([u8; 32], V)>, k: [u8; 32], v: V, cap: nat) -> Seq<([u8; 32], V)> {
    if has_key(s, k) {
        seq![(k, v)] + s.remove(key_pos(s, k))
    } else if s.len() >= cap {
        seq![(k, v)] + s.drop_last()
    } else {
        seq![(k, v)] + s
    }
}

/// A stored value is what the next lookup of its key finds.
pub proof fn lemma_stored_is_found<V>(s: Seq<([u8; 32], V)>, k: [u8; 32], v: V, cap: nat)
    ensures
        lookup(lru_stored(s, k, v, cap), k) == Some(v),
{
    let t = lru_stored(s, k, v, cap);
    assert(t[0] == (k, v));
    lemma_key_pos(t, k, 0);
}

/// Storing keeps a cache of at most `cap` entries within `cap` entries.
pub proof fn lemma_stored_within_capacity<V>(s: Seq<([u8; 32], V)>, k: [u8; 32], v: V, cap: nat)
    requires
        cap >= 1,
        s.len() <= cap,
    ensures
        lru_stored(s, k, v, cap).len() <= cap,
{
    if has_key(s, k) {
        lemma_has_key_first(s, k);
    }
}

/// Storing keeps every key at most once.
pub proof fn lemma_stored_unique<V>(s: Seq<([u8; 32], V)>, k: [u8; 32], v: V, cap: nat)
    requires
        unique_keys(s),
        cap >= 1,
    ensures
        unique_keys(lru_stored(s, k, v, cap)),
{
    let t = lru_stored(s, k, v, cap);
    if has_key(s, k) {
        let p = key_pos(s, k);
        lemma_has_key_first(s, k);
        let rest = s.remove(p);
        assert forall|i: int, j: int| 0 <= i < j < t.len() implies t[i].0 != t[j].0 by {
            if i == 0 {
                let jj = if j - 1 < p {
                    j - 1
                } else {
                    j
                };
                assert(t[j] == s[jj]);
            } else {
                let ii = if i - 1 < p {
                    i - 1
                } else {
                    i
                };
                let jj = if j - 1 < p {
                    j - 1
                } else {
                    j
                };
                assert(t[i] == s[ii]);
                assert(t[j] == s[jj]);
            }
        }
    } else {
        assert forall|i: int, j: int| 0 <= i < j < t.len() implies t[i].0 != t[j].0 by {
            if i == 0 {
                assert(t[j] == s[j - 1]);
            } else {
                assert(t[i] == s[i - 1]);
                assert(t[j] == s[j - 1]);
            }
        }
    }
}

/// A lookup changes the order of the entries only: with unique keys, every
/// key finds the same value before and after.
pub proof fn lemma_touched_keeps_lookups<V>(s: Seq<([u8; 32], V)>, k: [u8; 32], k2: [u8; 32])
    requires
        unique_keys(s),
    ensures
        unique_keys(lru_touched(s, k)),
        lru_touched(s, k).len() == s.len(),
        lookup(lru_touched(s, k), k2) == lookup(s, k2),
{
    let t = lru_touched(s, k);
    if has_key(s, k) {
        let p = key_pos(s, k);
        lemma_has_key_first(s, k);
        assert(t.len() == s.len());
        // position in `t` of the entry at position `q` of `s`
        assert forall|q: int| 0 <= q < s.len() implies #[trigger] s[q] == t[if q == p {
            0
        } else if q < p {
            q + 1
        } else {
            q
        }] by {}
        assert forall|i: int, j: int| 0 <= i < j < t.len() implies t[i].0 != t[j].0 by {
            let ii = if i == 0 {
                p
            } else if i - 1 < p {
                i - 1
            } else {
                i
            };
            let jj = if j - 1 < p {
                j - 1
            } else {
                j
            };
            assert(t[i] == s[ii]);
            assert(t[j] == s[jj]);
        }
        if has_key(s, k2) {
            let q = key_pos(s, k2);
            lemma_has_key_first(s, k2);
            let tq = if q == p {
                0
            } else if q < p {
                q + 1
            } else {
                q
            };
            assert(s[q] == t[tq]);
            lemma_unique_lookup(s, k2, q);
            lemma_unique_lookup(t, k2, tq);
        } else {
            assert forall|i: int| 0 <= i < t.len() implies t[i].0 != k2 by {
                let ii = if i == 0 {
                    p
                } else if i - 1 < p {
                    i - 1
                } else {
                    i
                };
                assert(t[i] == s[ii]);
            }
        }
    }
}

/// Entries of a cache from message ids to transaction hashes, most recent first.
pub uninterp spec fn hash_cache_entries(c: LruCache<[u8; 32], String>) -> Seq<([u8; 32], Seq<char>)>;

/// Capacity of a cache from message ids to transaction hashes.
pub uninterp spec fn hash_cache_capacity(c: LruCache<[u8; 32], String>) -> nat;

/// Entries of a cache from destinations to next hops, most recent first.
pub uninterp spec fn route_cache_entries(c: LruCache<[u8; 32], Vec<PeerIdentity>>) -> Seq<([u8; 32], Seq<PeerIdentity>)>;

/// Capacity of a cache from destinations to next hops.
pub uninterp spec fn route_cache_capacity(c: LruCache<[u8; 32], Vec<PeerIdentity>>) -> nat;

/// An empty cache holding at most `cap` entries (`LruCache::new`).
#[verifier::external_body]
pub(crate) fn hash_cache_new(cap: usize) -> (c: LruCache<[u8; 32], String>)
    requires
        cap > 0,
    ensures
        hash_cache_entries(c) == Seq::<([u8; 32], Seq<char>)>::empty(),
        hash_cache_capacity(c) == cap,
{
    LruCache::new(std::num::NonZeroUsize::new(cap).unwrap())
}

/// Looks `k` up (`LruCache::get`), making a found entry the most recent, and
/// returns a copy of its value.
#[verifier::external_body]
pub(crate) fn hash_cache_get(c: &mut LruCache<[u8; 32], String>, k: &[u8; 32]) -> (v: Option<String>)
    ensures
        hash_cache_entries(*final(c)) == lru_touched(hash_cache_entries(*old(c)), *k),
        hash_cache_capacity(*final(c)) == hash_cache_capacity(*old(c)),
        match v {
            Some(s) => has_key(hash_cache_entries(*old(c)), *k) && s@ == hash_cache_entries(
                *old(c),
            )[key_pos(hash_cache_entries(*old(c)), *k)].1,
            None => !has_key(hash_cache_entries(*old(c)), *k),
        },
{
    c.get(k).cloned()
}

/// Stores `v` under `k` as the most recent entry (`LruCache::put`), evicting
/// the least recent entry when a new key meets a full cache.
#[verifier::external_body]
pub(crate) fn hash_cache_put(c: &mut LruCache<[u8; 32], String>, k: [u8; 32], v: String)
    ensures
        hash_cache_entries(*final(c)) == lru_stored(
            hash_cache_entries(*old(c)),
            k,
            v@,
            hash_cache_capacity(*old(c)),
        ),
        hash_cache_capacity(*final(c)) == hash_cache_capacity(*old(c)),
{
    c.put(k, v);
}

/// An empty cache holding at most `cap` entries (`LruCache::new`).
#[verifier::external_body]
pub(crate) fn route_cache_new(cap: usize) -> (c: LruCache<[u8; 32], Vec<PeerIdentity>>)
    requires
        cap > 0,
    ensures
        route_cache_entries(c) == Seq::<([u8; 32], Seq<PeerIdentity>)>::empty(),
        route_cache_capacity(c) == cap,
{
    LruCache::new(std::num::NonZeroUsize::new(cap).unwrap())
}

/// Looks `k` up (`LruCache::get`), making a found entry the most recent, and
/// returns a copy of its value.
#[verifier::external_body]
pub(crate) fn route_cache_get(c: &mut LruCache<[u8; 32], Vec<PeerIdentity>>, k: &[u8; 32]) -> (v: Option<Vec<PeerIdentity>>)
    ensures
        route_cache_entries(*final(c)) == lru_touched(route_cache_entries(*old(c)), *k),
        route_cache_capacity(*final(c)) == route_cache_capacity(*old(c)),
        match v {
            Some(hops) => has_key(route_cache_entries(*old(c)), *k) && hops@
                == route_cache_entries(*old(c))[key_pos(route_cache_entries(*old(c)), *k)].1,
            None => !has_key(route_cache_entries(*old(c)), *k),
        },
{
    c.get(k).cloned()
}

/// Stores `v` under `k` as the most recent entry (`LruCache::put`), evicting
/// the least recent entry when a new key meets a full cache.
#[verifier::external_body]
pub(crate) fn route_cache_put(c: &mut LruCache<[u8; 32], Vec<PeerIdentity>>, k: [u8; 32], v: Vec<PeerIdentity>)
    ensures
        route_cache_entries(*final(c)) == lru_stored(
            route_cache_entries(*old(c)),
            k,
            v@,
            route_cache_capacity(*old(c)),
        ),
        route_cache_capacity(*final(c)) == route_cache_capacity(*old(c)),
{
    c.put(k, v);
}

/// Number of entries (`LruCache::len`).
#[verifier::external_body]
pub(crate) fn route_cache_len(c: &LruCache<[u8; 32], Vec<PeerIdentity>>) -> (n: usize)
    ensures
        n == route_cache_entries(*c).len(),
{
    c.len()
}

} // verus!
