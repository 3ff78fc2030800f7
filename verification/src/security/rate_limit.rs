//! Per-peer message rate limiting with violation tracking.
use vstd::prelude::*;

use crate::keys::{
    find_key, first_at, has_key, key_differs, key_pos, lemma_filter_keeps_unique,
    lemma_has_key_first, lemma_key_pos, lemma_map_keeps_unique, lemma_push_keeps_unique,
    lemma_remove_keeps_unique, lemma_same_keys, lemma_update_keeps_unique, lookup, unique_keys,
    without_key,
};
use crate::peer::identity::PeerIdentity;
use crate::transport::connection::TransportType;

verus! {

broadcast use vstd::seq_lib::group_seq_properties;

/// A token-bucket limiter of the `governor` crate on its default (monotonic)
/// clock, `governor::DefaultDirectRateLimiter`, held opaquely.
#[verifier::external_body]
struct DirectLimiter {
    inner: governor::DefaultDirectRateLimiter,
}

/// A fresh bucket for a quota of `rate` messages per second with a burst of
/// `rate` (`governor::Quota::per_second`, then `governor::RateLimiter::direct`):
/// no message offered yet.
#[verifier::external_body]
fn governor_bucket(rate: u32) -> (b: TokenBucket)
    requires
        rate >= 1,
    ensures
        b.offers@ == 0,
        b.burst@ == rate,
{
    let quota = governor::Quota::per_second(std::num::NonZeroU32::new(rate).unwrap());
    let inner = governor::RateLimiter::direct(quota);
    TokenBucket { limiter: DirectLimiter { inner }, offers: Ghost(0), burst: Ghost(rate as nat) }
}

/// Offers one message to the bucket's limiter (`governor::RateLimiter::check`)
/// and returns whether it let it through. Whether a later message is admitted
/// depends on the time; what holds whatever the timing is that, on a
/// monotonic clock, the generic cell rate algorithm admits every one of the
/// first `burst` messages offered to a fresh limiter (`Gcra::test_and_update`,
/// with `tau = t * burst`).
#[verifier::external_body]
fn governor_check(b: &mut TokenBucket) -> (ok: bool)
    ensures
        final(b).offers@ == old(b).offers@ + 1,
        final(b).burst@ == old(b).burst@,
        old(b).offers@ < old(b).burst@ ==> ok,
{
    b.limiter.inner.check().is_ok()
}

/// Rate limiter configuration for different transport types.
#[derive(Debug, Clone, Copy)]
pub struct RateLimitConfig {
    /// Maximum messages per second for BLE transport
    pub ble_messages_per_second: u32,
    /// Maximum messages per second for WiFi-Direct transport
    pub wifi_messages_per_second: u32,
    /// Number of violations before triggering a ban
    pub violation_threshold: u32,
}

impl Default for RateLimitConfig {
    fn default() -> (c: Self)
        ensures
            c.ble_messages_per_second == 10,
            c.wifi_messages_per_second == 100,
            c.violation_threshold == 10,
    {
        Self { ble_messages_per_second: 10, wifi_messages_per_second: 100, violation_threshold: 10 }
    }
}

/// What is known of a token bucket: the rate it refills at (messages per
/// second, which is also its burst) and how many messages were offered to it.
pub struct BucketView {
    pub rate: nat,
    pub requests: nat,
}

/// A token bucket: a `governor` limiter refilled at a fixed number of
/// messages per second, with the number of messages offered to it and the
/// burst it was built with.
struct TokenBucket {
    limiter: DirectLimiter,
    offers: Ghost<nat>,
    burst: Ghost<nat>,
}

impl TokenBucket {
    spec fn view(&self) -> BucketView {
        BucketView { rate: self.burst@, requests: self.offers@ }
    }

    /// A fresh bucket refilled at `rate` messages per second.
    fn per_second(rate: u32) -> (b: Self)
        requires
            rate >= 1,
        ensures
            b.view() == (BucketView { rate: rate as nat, requests: 0 }),
    {
        governor_bucket(rate)
    }

    /// Offers one message to the bucket; returns whether a token let it
    /// through, which it does while fewer than `rate` messages were offered.
    fn admits(&mut self) -> (ok: bool)
        ensures
            final(self).view() == (BucketView {
                requests: old(self).view().requests + 1,
                ..old(self).view()
            }),
            old(self).view().requests < old(self).view().rate ==> ok,
    {
        governor_check(self)
    }
}

/// Per-peer rate limiter state tracking violations.
/// Maintains separate limiters for BLE and WiFi-Direct transports.
struct PeerRateLimitState {
    ble: TokenBucket,
    wifi: TokenBucket,
    violation_count: u32,
}

/// The BLE and WiFi-Direct buckets of a peer, in that order.
pub type PeerBuckets = (BucketView, BucketView);

/// The buckets recorded per peer key.
pub type BucketEntries = Seq<([u8; 32], PeerBuckets)>;

/// The bucket of `b` that messages over `transport` are offered to.
pub open spec fn bucket_for(b: PeerBuckets, transport: TransportType) -> BucketView {
    match transport {
        TransportType::Ble => b.0,
        TransportType::WifiDirect => b.1,
    }
}

/// The rate a bucket is built with for a configured rate: at least one.
pub open spec fn at_least_one(rate: u32) -> u32 {
    if rate > 1 {
        rate
    } else {
        1
    }
}

/// The buckets a peer first seen gets under `config`, nothing offered yet.
pub open spec fn fresh_buckets(config: RateLimitConfig) -> PeerBuckets {
    (
        BucketView { rate: at_least_one(config.ble_messages_per_second) as nat, requests: 0 },
        BucketView { rate: at_least_one(config.wifi_messages_per_second) as nat, requests: 0 },
    )
}

/// The buckets after `k` is tracked: an untracked peer gets fresh buckets.
pub open spec fn buckets_tracked(s: BucketEntries, k: [u8; 32], config: RateLimitConfig) -> BucketEntries {
    if has_key(s, k) {
        s
    } else {
        s.push((k, fresh_buckets(config)))
    }
}

/// The buckets of a peer after one message over `transport` is offered to
/// that transport's bucket; the other bucket is untouched.
pub open spec fn offered(b: PeerBuckets, transport: TransportType) -> PeerBuckets {
    match transport {
        TransportType::Ble => (BucketView { requests: b.0.requests + 1, ..b.0 }, b.1),
        TransportType::WifiDirect => (b.0, BucketView { requests: b.1.requests + 1, ..b.1 }),
    }
}

/// The buckets after a rate check of `k` over `transport`: the peer is
/// tracked, then its bucket for the transport is offered the message.
pub open spec fn buckets_checked(
    s: BucketEntries,
    k: [u8; 32],
    transport: TransportType,
    config: RateLimitConfig,
) -> BucketEntries {
    let t = buckets_tracked(s, k, config);
    t.update(key_pos(t, k), (k, offered(t[key_pos(t, k)].1, transport)))
}

impl PeerRateLimitState {
    /// Offers one message to the bucket of `transport`.
    fn offer(&mut self, transport: TransportType) -> (ok: bool)
        ensures
            (final(self).ble.view(), final(self).wifi.view()) == offered(
                (old(self).ble.view(), old(self).wifi.view()),
                transport,
            ),
            final(self).violation_count == old(self).violation_count,
            ({
                let b = bucket_for((old(self).ble.view(), old(self).wifi.view()), transport);
                b.requests < b.rate ==> ok
            }),
    {
        match transport {
            TransportType::Ble => self.ble.admits(),
            TransportType::WifiDirect => self.wifi.admits(),
        }
    }
}

/// Violation counts recorded per peer key.
pub type ViolationEntries = Seq<([u8; 32], u32)>;

/// The violation count of `k`, zero when the peer is not tracked.
pub open spec fn violations_of(s: ViolationEntries, k: [u8; 32]) -> u32 {
    match lookup(s, k) {
        Some(c) => c,
        None => 0,
    }
}

/// The entries after a rate check of `k` whose limiter `admitted` the message
/// (or not): an untracked peer is first added with no violations; then an
/// admitted message clears the count and a refused one adds a violation.
pub open spec fn check_recorded(s: ViolationEntries, k: [u8; 32], admitted: bool) -> ViolationEntries {
    let present = if has_key(s, k) {
        s
    } else {
        s.push((k, 0u32))
    };
    let pos = key_pos(present, k);
    present.update(
        pos,
        (
            k,
            if admitted {
                0u32
            } else {
                (present[pos].1 + 1) as u32
            },
        ),
    )
}

/// The verdict of a rate check: `Ok` when admitted, otherwise `Err(ban)` with
/// `ban` once the violations reach the threshold.
pub open spec fn check_verdict(s: ViolationEntries, k: [u8; 32], admitted: bool, threshold: u32) -> Result<(), bool> {
    if admitted {
        Ok(())
    } else {
        Err(violations_of(s, k) + 1 >= threshold)
    }
}

/// A rate check touches only the checked peer: an admitted message resets its
/// violations, a refused one adds one, and every other peer's count is unchanged.
pub proof fn lemma_check_recorded(s: ViolationEntries, k: [u8; 32], admitted: bool, other: [u8; 32])
    ensures
        violations_of(check_recorded(s, k, admitted), k) == (if admitted {
            0u32
        } else {
            (violations_of(s, k) + 1) as u32
        }),
        other != k ==> violations_of(check_recorded(s, k, admitted), other) == violations_of(
            s,
            other,
        ),
{
    let present = if has_key(s, k) {
        s
    } else {
        s.push((k, 0u32))
    };
    if has_key(s, k) {
        lemma_has_key_first(s, k);
    } else {
        assert(first_at(present, k, s.len() as int));
        lemma_key_pos(present, k, s.len() as int);
    }
    let pos = key_pos(present, k);
    let t = check_recorded(s, k, admitted);
    assert(first_at(t, k, pos));
    lemma_key_pos(t, k, pos);
    if other != k {
        if has_key(s, other) {
            let q = key_pos(s, other);
            lemma_has_key_first(s, other);
            assert(first_at(t, other, q));
            lemma_key_pos(t, other, q);
        } else {
            assert(!has_key(t, other));
        }
    }
}

/// A rate check offers the message to the checked peer's bucket for its
/// transport only: that bucket counts one more request, the peer's other
/// bucket and every other peer's buckets are unchanged, and a peer first seen
/// gets buckets at the configured rates.
pub proof fn lemma_buckets_checked(
    s: BucketEntries,
    k: [u8; 32],
    transport: TransportType,
    config: RateLimitConfig,
    other: [u8; 32],
)
    ensures
        lookup(buckets_checked(s, k, transport, config), k) == Some(
            offered(
                match lookup(s, k) {
                    Some(b) => b,
                    None => fresh_buckets(config),
                },
                transport,
            ),
        ),
        other != k ==> lookup(buckets_checked(s, k, transport, config), other) == lookup(s, other),
{
    let t = buckets_tracked(s, k, config);
    if has_key(s, k) {
        lemma_has_key_first(s, k);
    } else {
        assert(first_at(t, k, s.len() as int));
        lemma_key_pos(t, k, s.len() as int);
    }
    let pos = key_pos(t, k);
    let u = buckets_checked(s, k, transport, config);
    assert(first_at(u, k, pos));
    lemma_key_pos(u, k, pos);
    if other != k {
        if has_key(s, other) {
            let q = key_pos(s, other);
            lemma_has_key_first(s, other);
            assert(first_at(u, other, q));
            lemma_key_pos(u, other, q);
        } else {
            assert(!has_key(u, other));
        }
    }
}

/// Rate limiter that enforces per-peer message rate limits using a token bucket algorithm.
///
/// It maintains separate rate limits for BLE (10 msg/s by default) and
/// WiFi-Direct (100 msg/s by default) transports.
pub struct RateLimiter {
    config: RateLimitConfig,
    /// Per-peer rate limiters and violation tracking
    peer_limiters: Vec<([u8; 32], PeerRateLimitState)>,
}

/// Violation counts of the per-peer states, by key.
spec fn violation_view(v: Seq<([u8; 32], PeerRateLimitState)>) -> ViolationEntries {
    v.map_values(|e: ([u8; 32], PeerRateLimitState)| (e.0, e.1.violation_count))
}

/// Buckets of the per-peer states, by key.
spec fn bucket_view(v: Seq<([u8; 32], PeerRateLimitState)>) -> BucketEntries {
    v.map_values(|e: ([u8; 32], PeerRateLimitState)| (e.0, (e.1.ble.view(), e.1.wifi.view())))
}

impl RateLimiter {
    pub closed spec fn entries(&self) -> ViolationEntries {
        violation_view(self.peer_limiters@)
    }

    pub closed spec fn config(&self) -> RateLimitConfig {
        self.config
    }

    /// The BLE and WiFi-Direct buckets of each tracked peer, in the order of
    /// `entries`.
    pub closed spec fn buckets(&self) -> BucketEntries {
        bucket_view(self.peer_limiters@)
    }

    /// Every peer key has at most one state; the buckets are listed under the
    /// same keys as the violation counts, each built at the configured rates
    /// (at least one message per second).
    pub open spec fn wf(&self) -> bool {
        &&& unique_keys(self.entries())
        &&& self.buckets().len() == self.entries().len()
        &&& forall|i: int|
            0 <= i < self.buckets().len() ==> {
                &&& #[trigger] self.buckets()[i].0 == self.entries()[i].0
                &&& self.buckets()[i].1.0.rate == at_least_one(
                    self.config().ble_messages_per_second,
                )
                &&& self.buckets()[i].1.1.rate == at_least_one(
                    self.config().wifi_messages_per_second,
                )
            }
    }

    /// Create a new rate limiter with the default configuration.
    pub fn new() -> (r: Self)
        ensures
            r.wf(),
            r.entries() == ViolationEntries::empty(),
            r.buckets() == BucketEntries::empty(),
            r.config().ble_messages_per_second == 10,
            r.config().wifi_messages_per_second == 100,
            r.config().violation_threshold == 10,
    {
        Self::with_config(RateLimitConfig::default())
    }

    /// Create a new rate limiter with a custom configuration.
    pub fn with_config(config: RateLimitConfig) -> (r: Self)
        ensures
            r.wf(),
            r.entries() == ViolationEntries::empty(),
            r.buckets() == BucketEntries::empty(),
            r.config() == config,
    {
        let r = Self { config, peer_limiters: Vec::new() };
        assert(r.entries() =~= ViolationEntries::empty());
        assert(r.buckets() =~= BucketEntries::empty());
        r
    }

    /// The position of the entry for `key`, if any.
    fn find(&self, key: &[u8; 32]) -> (pos: Option<usize>)
        ensures
            match pos {
                Some(i) => first_at(self.entries(), *key, i as int) && key_pos(self.entries(), *key)
                    == i,
                None => !has_key(self.entries(), *key),
            },
    {
        let pos = find_key(&self.peer_limiters, key);
        proof {
            let s = self.peer_limiters@;
            let v = self.entries();
            assert(forall|j: int| 0 <= j < s.len() ==> #[trigger] v[j].0 == s[j].0);
            match pos {
                Some(i) => {
                    assert(first_at(v, *key, i as int));
                    crate::keys::lemma_key_pos(v, *key, i as int);
                },
                None => {
                    if has_key(v, *key) {
                        let j = choose|j: int| 0 <= j < v.len() && v[j].0 == *key;
                        assert(s[j].0 == *key);
                    }
                },
            }
        }
        pos
    }

    /// The position of `key`'s state, creating a fresh one (limiters at the
    /// configured rates, at least one message per second) when there is none.
    fn track(&mut self, key: &[u8; 32]) -> (pos: usize)
        requires
            old(self).wf(),
        ensures
            final(self).wf(),
            final(self).entries() == (if has_key(old(self).entries(), *key) {
                old(self).entries()
            } else {
                old(self).entries().push((*key, 0u32))
            }),
            final(self).buckets() == buckets_tracked(old(self).buckets(), *key, old(self).config()),
            first_at(final(self).entries(), *key, pos as int),
            key_pos(final(self).entries(), *key) == pos,
            first_at(final(self).buckets(), *key, pos as int),
            key_pos(final(self).buckets(), *key) == pos,
            final(self).config() == old(self).config(),
    {
        proof {
            lemma_same_keys(self.entries(), self.buckets(), *key);
        }
        match self.find(key) {
            Some(i) => {
                proof {
                    lemma_key_pos(self.buckets(), *key, i as int);
                }
                i
            },
            None => {
                let ble_rate = if self.config.ble_messages_per_second > 1 {
                    self.config.ble_messages_per_second
                } else {
                    1
                };
                let wifi_rate = if self.config.wifi_messages_per_second > 1 {
                    self.config.wifi_messages_per_second
                } else {
                    1
                };
                let state = PeerRateLimitState {
                    ble: TokenBucket::per_second(ble_rate),
                    wifi: TokenBucket::per_second(wifi_rate),
                    violation_count: 0,
                };
                let ghost before = self.entries();
                let ghost before_buckets = self.buckets();
                proof {
                    lemma_push_keeps_unique(before, (*key, 0u32));
                }
                self.peer_limiters.push((*key, state));
                let i = self.peer_limiters.len() - 1;
                proof {
                    assert(self.entries() =~= before.push((*key, 0u32)));
                    assert(self.buckets() =~= before_buckets.push((*key, fresh_buckets(self.config))));
                    assert(first_at(self.entries(), *key, i as int));
                    assert(first_at(self.buckets(), *key, i as int));
                    crate::keys::lemma_key_pos(self.entries(), *key, i as int);
                    crate::keys::lemma_key_pos(self.buckets(), *key, i as int);
                }
                i
            },
        }
    }

    /// Applies the outcome of a limiter check to `peer`'s record: whether its
    /// limiter `admitted` the message. Returns `Ok(())` when admitted (clearing
    /// the violations), otherwise `Err(true)` once the violations reach the
    /// threshold and `Err(false)` before.
    pub fn record_check_outcome(&mut self, peer: &PeerIdentity, admitted: bool) -> (verdict: Result<(), bool>)
        requires
            old(self).wf(),
            violations_of(old(self).entries(), peer.pubkey) < u32::MAX,
        ensures
            final(self).wf(),
            final(self).entries() == check_recorded(old(self).entries(), peer.pubkey, admitted),
            final(self).buckets() == buckets_tracked(
                old(self).buckets(),
                peer.pubkey,
                old(self).config(),
            ),
            verdict == check_verdict(
                old(self).entries(),
                peer.pubkey,
                admitted,
                old(self).config().violation_threshold,
            ),
            final(self).config() == old(self).config(),
    {
        let i = self.track(&peer.pubkey);
        self.settle(i, &peer.pubkey, admitted)
    }

    /// Records the verdict for the state at `i`, the first one for `key`.
    fn settle(&mut self, i: usize, key: &[u8; 32], admitted: bool) -> (verdict: Result<(), bool>)
        requires
            old(self).wf(),
            first_at(old(self).entries(), *key, i as int),
            key_pos(old(self).entries(), *key) == i,
            old(self).entries()[i as int].1 < u32::MAX,
        ensures
            final(self).wf(),
            final(self).entries() == old(self).entries().update(
                i as int,
                (
                    *key,
                    if admitted {
                        0u32
                    } else {
                        (old(self).entries()[i as int].1 + 1) as u32
                    },
                ),
            ),
            verdict == (if admitted {
                Ok(())
            } else {
                Err(old(self).entries()[i as int].1 + 1 >= old(self).config().violation_threshold)
            }),
            final(self).buckets() == old(self).buckets(),
            final(self).config() == old(self).config(),
    {
        let ghost before = self.entries();
        let ghost before_buckets = self.buckets();
        let threshold = self.config.violation_threshold;
        let entry = &mut self.peer_limiters[i];
        if admitted {
            entry.1.violation_count = 0;
            proof {
                assert(self.entries() =~= before.update(i as int, (*key, 0u32)));
                assert(self.buckets() =~= before_buckets);
                lemma_update_keeps_unique(before, i as int, (*key, 0u32));
                assert forall|j: int| 0 <= j < self.entries().len() implies #[trigger] self.entries()[j].0
                    == before[j].0 by {}
            }
            Ok(())
        } else {
            entry.1.violation_count = entry.1.violation_count + 1;
            let count = entry.1.violation_count;
            proof {
                assert(self.entries() =~= before.update(i as int, (*key, count)));
                assert(self.buckets() =~= before_buckets);
                lemma_update_keeps_unique(before, i as int, (*key, count));
                assert forall|j: int| 0 <= j < self.entries().len() implies #[trigger] self.entries()[j].0
                    == before[j].0 by {}
            }
            if count >= threshold {
                Err(true)
            } else {
                Err(false)
            }
        }
    }

    /// Check if a message from a peer should be allowed based on rate limits.
    ///
    /// Returns:
    /// - `Ok(())` if the message is within rate limits
    /// - `Err(true)` if the peer has exceeded the violation threshold and should be banned
    /// - `Err(false)` if the message exceeds the rate limit but hasn't hit the threshold yet
    pub fn check_rate_limit(&mut self, peer: &PeerIdentity, transport_type: TransportType) -> (verdict: Result<(), bool>)
        requires
            old(self).wf(),
            violations_of(old(self).entries(), peer.pubkey) < u32::MAX,
        ensures
            final(self).wf(),
            final(self).buckets() == buckets_checked(
                old(self).buckets(),
                peer.pubkey,
                transport_type,
                old(self).config(),
            ),
            has_key(final(self).buckets(), peer.pubkey),
            ({
                let b = final(self).buckets()[key_pos(final(self).buckets(), peer.pubkey)].1;
                &&& b.0.rate == at_least_one(old(self).config().ble_messages_per_second)
                &&& b.1.rate == at_least_one(old(self).config().wifi_messages_per_second)
            }),
            ({
                let before = match lookup(old(self).buckets(), peer.pubkey) {
                    Some(b) => b,
                    None => fresh_buckets(old(self).config()),
                };
                let b = bucket_for(before, transport_type);
                b.requests < b.rate ==> {
                    &&& verdict == Ok::<(), bool>(())
                    &&& final(self).entries() == check_recorded(
                        old(self).entries(),
                        peer.pubkey,
                        true,
                    )
                }
            }),
            exists|admitted: bool|
                {
                    &&& final(self).entries() == #[trigger] check_recorded(
                        old(self).entries(),
                        peer.pubkey,
                        admitted,
                    )
                    &&& verdict == check_verdict(
                        old(self).entries(),
                        peer.pubkey,
                        admitted,
                        old(self).config().violation_threshold,
                    )
                },
            final(self).config() == old(self).config(),
    {
        let ghost old_buckets = self.buckets();
        proof {
            if has_key(old_buckets, peer.pubkey) {
                lemma_has_key_first(old_buckets, peer.pubkey);
            }
        }
        let i = self.track(&peer.pubkey);
        proof {
            let before = match lookup(old_buckets, peer.pubkey) {
                Some(b) => b,
                None => fresh_buckets(old(self).config()),
            };
            assert(self.buckets()[i as int].1 == before);
        }
        let ghost tracked_entries = self.entries();
        let ghost tracked_buckets = self.buckets();
        let admitted = {
            let entry = &mut self.peer_limiters[i];
            entry.1.offer(transport_type)
        };
        proof {
            assert(self.entries() =~= tracked_entries);
            assert(self.buckets() =~= tracked_buckets.update(
                i as int,
                (peer.pubkey, offered(tracked_buckets[i as int].1, transport_type)),
            ));
            lemma_update_keeps_unique(
                tracked_buckets,
                i as int,
                (peer.pubkey, offered(tracked_buckets[i as int].1, transport_type)),
            );
            assert(first_at(self.buckets(), peer.pubkey, i as int));
            lemma_key_pos(self.buckets(), peer.pubkey, i as int);
        }
        let verdict = self.settle(i, &peer.pubkey, admitted);
        assert(self.entries() == check_recorded(old(self).entries(), peer.pubkey, admitted));
        verdict
    }

    /// Remove rate limiter state for a peer (e.g., when they disconnect).
    pub fn remove_peer(&mut self, peer: &PeerIdentity)
        requires
            old(self).wf(),
        ensures
            final(self).wf(),
            final(self).entries() == (if has_key(old(self).entries(), peer.pubkey) {
                old(self).entries().remove(key_pos(old(self).entries(), peer.pubkey))
            } else {
                old(self).entries()
            }),
            final(self).buckets() == (if has_key(old(self).buckets(), peer.pubkey) {
                old(self).buckets().remove(key_pos(old(self).buckets(), peer.pubkey))
            } else {
                old(self).buckets()
            }),
            final(self).config() == old(self).config(),
    {
        proof {
            lemma_same_keys(self.entries(), self.buckets(), peer.pubkey);
        }
        if let Some(i) = self.find(&peer.pubkey) {
            let ghost before = self.peer_limiters@;
            proof {
                lemma_remove_keeps_unique(self.entries(), i as int);
            }
            let _removed = self.peer_limiters.remove(i);
            assert(self.entries() =~= violation_view(before).remove(i as int));
            assert(self.buckets() =~= bucket_view(before).remove(i as int));
        }
    }

    /// Whether the limiter holds state for `peer`.
    pub fn tracks_peer(&self, peer: &PeerIdentity) -> (b: bool)
        ensures
            b == has_key(self.entries(), peer.pubkey),
    {
        match self.find(&peer.pubkey) {
            Some(_) => true,
            None => false,
        }
    }

    /// Get the current violation count for a peer.
    pub fn get_violation_count(&self, peer: &PeerIdentity) -> (count: u32)
        ensures
            count == violations_of(self.entries(), peer.pubkey),
    {
        match self.find(&peer.pubkey) {
            Some(i) => self.peer_limiters[i].1.violation_count,
            None => 0,
        }
    }

    /// Clear all rate limiter state.
    pub fn clear(&mut self)
        requires
            old(self).wf(),
        ensures
            final(self).wf(),
            final(self).entries() == ViolationEntries::empty(),
            final(self).buckets() == BucketEntries::empty(),
            final(self).config() == old(self).config(),
    {
        self.peer_limiters = Vec::new();
        assert(self.entries() =~= ViolationEntries::empty());
        assert(self.buckets() =~= BucketEntries::empty());
    }
}

impl Default for RateLimiter {
    fn default() -> (r: Self)
        ensures
            r.wf(),
            r.entries() == ViolationEntries::empty(),
            r.buckets() == BucketEntries::empty(),
            r.config().ble_messages_per_second == 10,
            r.config().wifi_messages_per_second == 100,
            r.config().violation_threshold == 10,
    {
        Self::new()
    }
}

} // verus!
