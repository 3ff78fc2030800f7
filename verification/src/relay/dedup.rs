//! Remembers which envelopes a relay already submitted, and their results.
use lru::LruCache;
use vstd::prelude::*;

use crate::gossip::bloom::{bits_for, hashes_for, SlidingBloomFilter};
use crate::keys::{has_key, key_pos, unique_keys};
use crate::lru_cache::{
    hash_cache_capacity, hash_cache_entries, hash_cache_get, hash_cache_new, hash_cache_put,
    lemma_stored_unique, lemma_stored_within_capacity, lemma_touched_keeps_lookups, lru_stored,
    lru_touched,
};

verus! {

/// False-positive rate of the seen-id filter, per million (1%).
pub const SEEN_IDS_FALSE_POSITIVES_PER_MILLION: u32 = 10_000;

/// Cache capacity used when none is given.
pub const DEFAULT_CACHE_CAPACITY: usize = 1000;

pub struct RelayDeduplicator {
    seen_ids: SlidingBloomFilter,
    result_cache: LruCache<[u8; 32], String>,  // message_id -> stellar tx hash
}

impl RelayDeduplicator {
    /// Cached results, most recently used first.
    pub closed spec fn results(&self) -> Seq<([u8; 32], Seq<char>)> {
        hash_cache_entries(self.result_cache)
    }

    pub closed spec fn capacity(&self) -> nat {
        hash_cache_capacity(self.result_cache)
    }

    /// The filter of submitted ids.
    pub closed spec fn seen(&self) -> SlidingBloomFilter {
        self.seen_ids
    }

    /// The filter is well formed, each id is cached once, and the cache holds
    /// at most its capacity, which is at least one.
    pub open spec fn wf(&self) -> bool {
        &&& self.seen().wf()
        &&& unique_keys(self.results())
        &&& self.capacity() >= 1
        &&& self.results().len() <= self.capacity()
    }

    /// A deduplicator remembering up to `capacity` results (1000 when
    /// `capacity` is 0), with a seen-id filter sized for `capacity` ids at a 1%
    /// false-positive rate.
    pub fn new(capacity: usize) -> (d: Self)
        requires
            bits_for(capacity as int, hashes_for(SEEN_IDS_FALSE_POSITIVES_PER_MILLION as int))
                <= usize::MAX,
        ensures
            d.wf(),
            d.results() == Seq::<([u8; 32], Seq<char>)>::empty(),
            d.capacity() == (if capacity > 0 {
                capacity
            } else {
                DEFAULT_CACHE_CAPACITY
            }),
    {
        let seen_ids = SlidingBloomFilter::new(capacity, SEEN_IDS_FALSE_POSITIVES_PER_MILLION);
        let cache_capacity = if capacity > 0 {
            capacity
        } else {
            DEFAULT_CACHE_CAPACITY
        };
        let result_cache = hash_cache_new(cache_capacity);
        Self { seen_ids, result_cache }
    }

    /// The transaction hash recorded for `message_id`, if it is still cached
    /// (a hit becomes the most recently used entry). Returns `None` for ids
    /// never submitted or evicted since.
    pub fn check(&mut self, message_id: &[u8; 32]) -> (hash: Option<String>)
        requires
            old(self).wf(),
        ensures
            final(self).wf(),
            final(self).results() == lru_touched(old(self).results(), *message_id),
            final(self).capacity() == old(self).capacity(),
            final(self).seen() == old(self).seen(),
            match hash {
                Some(h) => has_key(old(self).results(), *message_id) && h@ == old(
                    self,
                ).results()[key_pos(old(self).results(), *message_id)].1,
                None => !has_key(old(self).results(), *message_id),
            },
    {
        proof {
            lemma_touched_keeps_lookups(self.results(), *message_id, *message_id);
        }
        hash_cache_get(&mut self.result_cache, message_id)
    }

    /// Record that a message_id has been successfully submitted with the given tx hash.
    pub fn mark_submitted(&mut self, message_id: [u8; 32], tx_hash: String)
        requires
            old(self).wf(),
        ensures
            final(self).wf(),
            final(self).results() == lru_stored(
                old(self).results(),
                message_id,
                tx_hash@,
                old(self).capacity(),
            ),
            final(self).capacity() == old(self).capacity(),
            final(self).seen().holds(message_id),
    {
        self.seen_ids.add(&message_id);
        proof {
            crate::gossip::bloom::lemma_added_holds(
                old(self).seen().windows(),
                message_id,
                old(self).seen().hashes(),
                old(self).seen().window_capacity(),
            );
        }
        proof {
            lemma_stored_unique(self.results(), message_id, tx_hash@, self.capacity());
            lemma_stored_within_capacity(self.results(), message_id, tx_hash@, self.capacity());
        }
        hash_cache_put(&mut self.result_cache, message_id, tx_hash);
    }
}

} // verus!
