//! Routing table with LRU cache and observability counters.
use lru::LruCache;
use std::sync::Arc;
use vstd::prelude::*;

use crate::keys::{has_key, key_pos, unique_keys};
use crate::lru_cache::{
    lemma_stored_unique, lemma_stored_within_capacity, lemma_touched_keeps_lookups, lru_stored,
    lru_touched, route_cache_capacity, route_cache_entries, route_cache_get,
    route_cache_len, route_cache_new, route_cache_put,
};
use crate::metrics::{bump, Metrics};
use crate::peer::identity::PeerIdentity;

verus! {

/// Cache capacity used when none is given.
pub const DEFAULT_ROUTE_CAPACITY: usize = 128;

/// The routes after storing each entry in turn.
pub open spec fn routes_stored(s: Seq<([u8; 32], Seq<PeerIdentity>)>, entries: Seq<([u8; 32], Seq<PeerIdentity>)>, cap: nat) -> Seq<([u8; 32], Seq<PeerIdentity>)>
    decreases entries.len(),
{
    if entries.len() == 0 {
        s
    } else {
        let last = entries.last();
        lru_stored(routes_stored(s, entries.drop_last(), cap), last.0, last.1, cap)
    }
}

/// LRU-backed routing table that tracks cache hits, misses, and refresh events.
pub struct RoutingTable {
    cache: LruCache<[u8; 32], Vec<PeerIdentity>>,
    metrics: Arc<Metrics>,
}

impl RoutingTable {
    /// Cached routes, most recently used first.
    pub closed spec fn routes(&self) -> Seq<([u8; 32], Seq<PeerIdentity>)> {
        route_cache_entries(self.cache)
    }

    pub closed spec fn capacity(&self) -> nat {
        route_cache_capacity(self.cache)
    }

    /// Each destination is cached once, and the cache holds at most its
    /// capacity, which is at least one.
    pub open spec fn wf(&self) -> bool {
        &&& unique_keys(self.routes())
        &&& self.capacity() >= 1
        &&& self.routes().len() <= self.capacity()
    }

    /// A table holding up to `capacity` routes (128 when `capacity` is 0).
    pub fn new(capacity: usize, metrics: Arc<Metrics>) -> (t: Self)
        ensures
            t.wf(),
            t.routes() == Seq::<([u8; 32], Seq<PeerIdentity>)>::empty(),
            t.capacity() == (if capacity > 0 {
                capacity
            } else {
                DEFAULT_ROUTE_CAPACITY
            }),
    {
        let cap = if capacity > 0 {
            capacity
        } else {
            DEFAULT_ROUTE_CAPACITY
        };
        Self { cache: route_cache_new(cap), metrics }
    }

    /// Look up next hops for `dest` (a hit becomes the most recently used
    /// route). Increments `routing_table_hits` or `routing_table_misses`.
    pub fn lookup(&mut self, dest: &[u8; 32]) -> (hops: Option<Vec<PeerIdentity>>)
        requires
            old(self).wf(),
        ensures
            final(self).wf(),
            final(self).routes() == lru_touched(old(self).routes(), *dest),
            final(self).capacity() == old(self).capacity(),
            match hops {
                Some(h) => has_key(old(self).routes(), *dest) && h@ == old(self).routes()[key_pos(
                    old(self).routes(),
                    *dest,
                )].1,
                None => !has_key(old(self).routes(), *dest),
            },
    {
        proof {
            lemma_touched_keeps_lookups(self.routes(), *dest, *dest);
        }
        let found = route_cache_get(&mut self.cache, dest);
        match found {
            Some(hops) => {
                bump(&self.metrics.routing_table_hits);
                Some(hops)
            },
            None => {
                bump(&self.metrics.routing_table_misses);
                None
            },
        }
    }

    /// Insert or overwrite next hops for `dest`, as the most recently used route.
    pub fn insert(&mut self, dest: [u8; 32], next_hops: Vec<PeerIdentity>)
        requires
            old(self).wf(),
        ensures
            final(self).wf(),
            final(self).routes() == lru_stored(old(self).routes(), dest, next_hops@, old(self).capacity()),
            final(self).capacity() == old(self).capacity(),
    {
        proof {
            lemma_stored_unique(self.routes(), dest, next_hops@, self.capacity());
            lemma_stored_within_capacity(self.routes(), dest, next_hops@, self.capacity());
        }
        route_cache_put(&mut self.cache, dest, next_hops);
    }

    /// Bulk-refresh the table from a new set of entries, stored in order.
    /// Increments `routing_table_refreshes` once per call.
    pub fn refresh(&mut self, entries: Vec<([u8; 32], Vec<PeerIdentity>)>)
        requires
            old(self).wf(),
        ensures
            final(self).wf(),
            final(self).routes() == routes_stored(
                old(self).routes(),
                entries@.map_values(|e: ([u8; 32], Vec<PeerIdentity>)| (e.0, e.1@)),
                old(self).capacity(),
            ),
            final(self).capacity() == old(self).capacity(),
    {
        let ghost start = self.routes();
        let ghost views = entries@.map_values(|e: ([u8; 32], Vec<PeerIdentity>)| (e.0, e.1@));
        let mut remaining = entries;
        let n = remaining.len();
        let mut k: usize = 0;
        while k < n
            invariant
                n == views.len(),
                k <= n,
                remaining@.len() == n - k,
                forall|j: int|
                    0 <= j < n - k ==> (#[trigger] remaining@[j]).0 == views[k + j].0
                        && remaining@[j].1@ == views[k + j].1,
                self.capacity() == old(self).capacity(),
                self.routes() == routes_stored(start, views.take(k as int), self.capacity()),
                self.wf(),
            decreases n - k,
        {
            let (dest, hops) = remaining.remove(0);
            proof {
                assert(views.take(k + 1).drop_last() =~= views.take(k as int));
                assert(views.take(k + 1).last() == views[k as int]);
            }
            proof {
                lemma_stored_unique(self.routes(), dest, hops@, self.capacity());
                lemma_stored_within_capacity(self.routes(), dest, hops@, self.capacity());
            }
            route_cache_put(&mut self.cache, dest, hops);
            k += 1;
        }
        assert(views.take(n as int) =~= views);
        bump(&self.metrics.routing_table_refreshes);
    }

    pub fn len(&self) -> (n: usize)
        ensures
            n == self.routes().len(),
    {
        route_cache_len(&self.cache)
    }

    pub fn is_empty(&self) -> (b: bool)
        ensures
            b == (self.routes().len() == 0),
    {
        route_cache_len(&self.cache) == 0
    }
}

} // verus!
