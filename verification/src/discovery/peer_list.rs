//! The table of known peers, keyed by public key.
use vstd::prelude::*;

use crate::discovery::events::DiscoveryEvent;
use crate::keys::{
    find_key, first_at, has_key, key_pos, lemma_filter_keeps_unique, lemma_has_key_first,
    lemma_map_keeps_unique, lemma_unique_lookup, lemma_update_keeps_unique, lookup, unique_keys,
};
use crate::peer::identity::PeerIdentity;
use crate::peer::peer_node::{ban_expired, banned_until, fresh_peer, unbanned, Peer};
use crate::time::now_unix_sec;

verus! {

broadcast use vstd::seq_lib::group_seq_properties;

/// Entries of the table: a public key and the peer recorded under it.
pub type PeerEntries = Seq<([u8; 32], Peer)>;

/// A peer seen within `expiry` seconds of `now`.
pub open spec fn is_active(p: Peer, now: u64, expiry: u64) -> bool {
    (if now >= p.last_seen_unix_sec {
        now - p.last_seen_unix_sec
    } else {
        0
    }) <= expiry
}

pub open spec fn active_entry(now: u64, expiry: u64) -> spec_fn(([u8; 32], Peer)) -> bool {
    |e: ([u8; 32], Peer)| is_active(e.1, now, expiry)
}

pub open spec fn stale_entry(now: u64, expiry: u64) -> spec_fn(([u8; 32], Peer)) -> bool {
    |e: ([u8; 32], Peer)| !is_active(e.1, now, expiry)
}

/// An entry of a peer seen within `expiry` seconds of `now` and not banned.
pub open spec fn reachable_entry(now: u64, expiry: u64) -> spec_fn(([u8; 32], Peer)) -> bool {
    |e: ([u8; 32], Peer)| is_active(e.1, now, expiry) && !e.1.is_banned
}

/// The identities of the entries' peers, in order.
pub open spec fn identities_of(s: PeerEntries) -> Seq<PeerIdentity> {
    s.map_values(|e: ([u8; 32], Peer)| e.1.identity)
}

/// The peers of the entries, in order.
pub open spec fn peers_of(s: PeerEntries) -> Seq<Peer> {
    s.map_values(|e: ([u8; 32], Peer)| e.1)
}

/// A `PeerLost` event for each entry, in order.
pub open spec fn lost_events(s: PeerEntries) -> Seq<DiscoveryEvent> {
    s.map_values(|e: ([u8; 32], Peer)| DiscoveryEvent::PeerLost(e.1.identity))
}

/// The table after `k` is seen at `now`: its entry's last-seen time is
/// refreshed, or a fresh entry is appended.
pub open spec fn seen_at(s: PeerEntries, k: [u8; 32], now: u64) -> PeerEntries {
    if has_key(s, k) {
        s.update(key_pos(s, k), (k, Peer { last_seen_unix_sec: now, ..s[key_pos(s, k)].1 }))
    } else {
        s.push((k, Peer { last_seen_unix_sec: now, ..fresh_peer(k) }))
    }
}

/// The event reported when `k` is seen with `signal_strength`.
pub open spec fn seen_event(s: PeerEntries, k: [u8; 32], signal_strength: u8) -> DiscoveryEvent {
    if has_key(s, k) {
        DiscoveryEvent::PeerUpdated(s[key_pos(s, k)].1.identity, signal_strength)
    } else {
        DiscoveryEvent::PeerDiscovered(PeerIdentity { pubkey: k })
    }
}

/// Entry `e` after a ban-expiry check at `now`.
pub open spec fn expiry_checked(e: ([u8; 32], Peer), now: u64) -> ([u8; 32], Peer) {
    if ban_expired(e.1, now) {
        (e.0, unbanned(e.1))
    } else {
        e
    }
}

/// The identities of the entries whose ban runs out at `now`, in order.
pub open spec fn expired_bans(s: PeerEntries, now: u64) -> Seq<PeerIdentity> {
    s.filter(|e: ([u8; 32], Peer)| ban_expired(e.1, now)).map_values(
        |e: ([u8; 32], Peer)| e.1.identity,
    )
}

/// Seeing a peer keeps every key recorded once; the peer's last-seen time is
/// then `now`, and what is recorded under any other key is unchanged.
pub proof fn lemma_seen_at_records(s: PeerEntries, k: [u8; 32], now: u64, other: [u8; 32])
    requires
        unique_keys(s),
    ensures
        unique_keys(seen_at(s, k, now)),
        lookup(seen_at(s, k, now), k) matches Some(p) && p.last_seen_unix_sec == now,
        other != k ==> lookup(seen_at(s, k, now), other) == lookup(s, other),
{
    let t = seen_at(s, k, now);
    if has_key(s, k) {
        let p = key_pos(s, k);
        lemma_has_key_first(s, k);
        assert(forall|i: int| 0 <= i < s.len() ==> #[trigger] t[i].0 == s[i].0);
        lemma_unique_lookup(t, k, p);
        if other != k && has_key(s, other) {
            let q = key_pos(s, other);
            lemma_has_key_first(s, other);
            lemma_unique_lookup(s, other, q);
            lemma_unique_lookup(t, other, q);
        } else if other != k {
            assert(!has_key(t, other));
        }
    } else {
        assert(forall|i: int| 0 <= i < s.len() ==> #[trigger] t[i] == s[i]);
        lemma_unique_lookup(t, k, s.len() as int);
        if has_key(s, other) {
            let q = key_pos(s, other);
            lemma_has_key_first(s, other);
            lemma_unique_lookup(s, other, q);
            lemma_unique_lookup(t, other, q);
        } else if other != k {
            assert(!has_key(t, other));
        }
    }
}

/// Pruning loses no peer silently: every entry is either kept (active) or
/// reported lost (stale).
pub proof fn lemma_prune_partitions(s: PeerEntries, now: u64, expiry: u64)
    ensures
        s.filter(active_entry(now, expiry)).len() + lost_events(
            s.filter(stale_entry(now, expiry)),
        ).len() == s.len(),
    decreases s.len(),
{
    if s.len() > 0 {
        let t = s.drop_last();
        lemma_prune_partitions(t, now, expiry);
        assert(t.push(s.last()) =~= s);
        t.lemma_filter_push(s.last(), active_entry(now, expiry));
        t.lemma_filter_push(s.last(), stale_entry(now, expiry));
    }
}

/// `new` is `old` after banning `k` at clock reading `now` for `duration_sec`
/// seconds: the entry of a known key is banned until `now + duration_sec`,
/// unless that time does not fit in 64 bits; otherwise nothing changes.
pub open spec fn ban_recorded(old: PeerEntries, new: PeerEntries, k: [u8; 32], duration_sec: u64, now: u64) -> bool {
    if has_key(old, k) && now + duration_sec <= u64::MAX {
        new == old.update(key_pos(old, k), (k, banned_until(old[key_pos(old, k)].1, now + duration_sec)))
    } else {
        new == old
    }
}

/// Each entry's peer has the identity of the key it is recorded under.
pub open spec fn keys_match_identities(s: PeerEntries) -> bool {
    forall|i: int| 0 <= i < s.len() ==> #[trigger] s[i].1.identity.pubkey == s[i].0
}

/// Keeping some entries keeps each one under its own peer's key.
pub proof fn lemma_filter_keeps_identities(s: PeerEntries, p: spec_fn(([u8; 32], Peer)) -> bool)
    requires
        keys_match_identities(s),
    ensures
        keys_match_identities(s.filter(p)),
{
    assert forall|j: int| 0 <= j < s.filter(p).len() implies #[trigger] s.filter(p)[j].1.identity.pubkey
        == s.filter(p)[j].0 by {
        let e = s.filter(p)[j];
        assert(s.filter(p).contains(e));
        s.lemma_filter_contains_rev(p, e);
    }
}

/// A table with unique keys, each under its own peer, lists each identity once.
pub proof fn lemma_identities_distinct(s: PeerEntries)
    requires
        unique_keys(s),
        keys_match_identities(s),
    ensures
        forall|a: int, b: int|
            0 <= a < b < s.len() ==> #[trigger] identities_of(s)[a] != #[trigger] identities_of(s)[b],
{
    assert forall|a: int, b: int| 0 <= a < b < s.len() implies #[trigger] identities_of(s)[a]
        != #[trigger] identities_of(s)[b] by {
        assert(s[a].0 != s[b].0);
        assert(identities_of(s)[a] == s[a].1.identity);
        assert(identities_of(s)[b] == s[b].1.identity);
        assert(s[a].1.identity.pubkey == s[a].0);
        assert(s[b].1.identity.pubkey == s[b].0);
    }
}

/// The candidates for a fanout round at `now` are distinct peers.
pub proof fn lemma_reachable_distinct(s: PeerEntries, now: u64, expiry: u64)
    requires
        unique_keys(s),
        keys_match_identities(s),
    ensures
        forall|a: int, b: int|
            0 <= a < b < identities_of(s.filter(reachable_entry(now, expiry))).len()
                ==> #[trigger] identities_of(s.filter(reachable_entry(now, expiry)))[a]
                != #[trigger] identities_of(s.filter(reachable_entry(now, expiry)))[b],
{
    lemma_filter_keeps_unique(s, reachable_entry(now, expiry));
    lemma_filter_keeps_identities(s, reachable_entry(now, expiry));
    lemma_identities_distinct(s.filter(reachable_entry(now, expiry)));
}

pub struct PeerList {
    /// Public key and the peer recorded under it
    peers: Vec<([u8; 32], Peer)>,
    /// How many seconds before a peer is considered offline
    expiry_seconds: u64,
}

impl PeerList {
    pub closed spec fn entries(&self) -> PeerEntries {
        self.peers@
    }

    pub closed spec fn expiry(&self) -> u64 {
        self.expiry_seconds
    }

    /// Every public key is recorded at most once, under a peer whose identity
    /// carries that key.
    pub open spec fn wf(&self) -> bool {
        &&& unique_keys(self.entries())
        &&& keys_match_identities(self.entries())
    }

    pub fn new(expiry_seconds: u64) -> (list: Self)
        ensures
            list.wf(),
            list.entries() == PeerEntries::empty(),
            list.expiry() == expiry_seconds,
    {
        Self { peers: Vec::new(), expiry_seconds }
    }

    /// The position of `pubkey`'s entry, if any.
    fn find(&self, pubkey: &[u8; 32]) -> (pos: Option<usize>)
        ensures
            match pos {
                Some(i) => first_at(self.entries(), *pubkey, i as int) && key_pos(
                    self.entries(),
                    *pubkey,
                ) == i,
                None => !has_key(self.entries(), *pubkey),
            },
    {
        find_key(&self.peers, pubkey)
    }

    /// Records that `pubkey` was seen at `now`: refreshes the last-seen time of a
    /// known peer (reporting `PeerUpdated`) or adds a new one (reporting
    /// `PeerDiscovered`).
    pub fn insert_or_update_at(&mut self, pubkey: [u8; 32], signal_strength: u8, now: u64) -> (ev: Option<DiscoveryEvent>)
        requires
            old(self).wf(),
        ensures
            final(self).wf(),
            final(self).entries() == seen_at(old(self).entries(), pubkey, now),
            final(self).expiry() == old(self).expiry(),
            ev == Some(seen_event(old(self).entries(), pubkey, signal_strength)),
    {
        match self.find(&pubkey) {
            Some(i) => {
                let mut peer = self.peers[i].1;
                peer.last_seen_unix_sec = now;
                self.peers.set(i, (pubkey, peer));
                Some(DiscoveryEvent::PeerUpdated(peer.identity, signal_strength))
            },
            None => {
                let mut peer = Peer::new(pubkey);
                peer.last_seen_unix_sec = now;
                let identity = peer.identity;
                self.peers.push((pubkey, peer));
                Some(DiscoveryEvent::PeerDiscovered(identity))
            },
        }
    }

    /// Insert a new peer or update the last-seen timestamp for an existing one,
    /// at the system clock's time.
    /// Returns `PeerDiscovered` for first contact, `PeerUpdated` for subsequent contacts.
    pub fn insert_or_update(&mut self, pubkey: [u8; 32], signal_strength: u8) -> (ev: Option<DiscoveryEvent>)
        requires
            old(self).wf(),
        ensures
            final(self).wf(),
            exists|now: u64| final(self).entries() == #[trigger] seen_at(old(self).entries(), pubkey, now),
            final(self).expiry() == old(self).expiry(),
            ev == Some(seen_event(old(self).entries(), pubkey, signal_strength)),
    {
        let now = now_unix_sec();
        self.insert_or_update_at(pubkey, signal_strength, now)
    }

    /// The peers seen within the expiry window before `now`, in table order.
    pub fn get_active_peers_at(&self, now: u64) -> (active: Vec<&Peer>)
        ensures
            active@.len() == peers_of(self.entries().filter(active_entry(now, self.expiry()))).len(),
            forall|i: int|
                0 <= i < active@.len() ==> *#[trigger] active@[i] == peers_of(
                    self.entries().filter(active_entry(now, self.expiry())),
                )[i],
    {
        let ghost pred = active_entry(now, self.expiry());
        let mut active: Vec<&Peer> = Vec::new();
        let n = self.peers.len();
        let mut i: usize = 0;
        while i < n
            invariant
                n == self.peers@.len(),
                i <= n,
                pred == active_entry(now, self.expiry()),
                active@.len() == self.peers@.take(i as int).filter(pred).len(),
                forall|j: int|
                    0 <= j < active@.len() ==> *#[trigger] active@[j] == self.peers@.take(
                        i as int,
                    ).filter(pred)[j].1,
            decreases n - i,
        {
            proof {
                assert(self.peers@.take(i + 1) =~= self.peers@.take(i as int).push(
                    self.peers@[i as int],
                ));
                self.peers@.take(i as int).lemma_filter_push(self.peers@[i as int], pred);
            }
            let entry = &self.peers[i];
            let last_seen = entry.1.last_seen_unix_sec;
            let idle = if now >= last_seen {
                now - last_seen
            } else {
                0
            };
            if idle <= self.expiry_seconds {
                active.push(&entry.1);
            }
            i += 1;
        }
        assert(self.peers@.take(n as int) =~= self.peers@);
        active
    }

    /// The identities of the peers seen within the expiry window before `now`
    /// and not banned, in table order: the candidates for a fanout round.
    pub fn reachable_identities_at(&self, now: u64) -> (ids: Vec<PeerIdentity>)
        ensures
            ids@ == identities_of(self.entries().filter(reachable_entry(now, self.expiry()))),
    {
        let ghost pred = reachable_entry(now, self.expiry());
        let mut ids: Vec<PeerIdentity> = Vec::new();
        let n = self.peers.len();
        let mut i: usize = 0;
        while i < n
            invariant
                n == self.peers@.len(),
                i <= n,
                pred == reachable_entry(now, self.expiry()),
                ids@ == identities_of(self.peers@.take(i as int).filter(pred)),
            decreases n - i,
        {
            proof {
                assert(self.peers@.take(i + 1) =~= self.peers@.take(i as int).push(
                    self.peers@[i as int],
                ));
                self.peers@.take(i as int).lemma_filter_push(self.peers@[i as int], pred);
            }
            let entry = &self.peers[i];
            let last_seen = entry.1.last_seen_unix_sec;
            let idle = if now >= last_seen {
                now - last_seen
            } else {
                0
            };
            if idle <= self.expiry_seconds && !entry.1.is_banned {
                ids.push(entry.1.identity);
            }
            i += 1;
            assert(ids@ =~= identities_of(self.peers@.take(i as int).filter(pred)));
        }
        assert(self.peers@.take(n as int) =~= self.peers@);
        ids
    }

    /// Returns only peers whose last-seen timestamp is within the expiry window
    /// of the system clock's time.
    pub fn get_active_peers(&self) -> (active: Vec<&Peer>)
        ensures
            exists|now: u64|
                {
                    &&& active@.len() == #[trigger] peers_of(
                        self.entries().filter(active_entry(now, self.expiry())),
                    ).len()
                    &&& forall|i: int|
                        0 <= i < active@.len() ==> *#[trigger] active@[i] == peers_of(
                            self.entries().filter(active_entry(now, self.expiry())),
                        )[i]
                },
    {
        let now = now_unix_sec();
        self.get_active_peers_at(now)
    }

    /// Removes the peers not seen within the expiry window before `now` and
    /// reports a `PeerLost` event for each, in table order.
    pub fn prune_stale_peers_at(&mut self, now: u64) -> (lost: Vec<DiscoveryEvent>)
        requires
            old(self).wf(),
        ensures
            final(self).wf(),
            final(self).entries() == old(self).entries().filter(
                active_entry(now, old(self).expiry()),
            ),
            final(self).expiry() == old(self).expiry(),
            lost@ == lost_events(old(self).entries().filter(stale_entry(now, old(self).expiry()))),
    {
        let ghost keep = active_entry(now, self.expiry());
        let ghost drop = stale_entry(now, self.expiry());
        let ghost start = self.peers@;
        let mut kept: Vec<([u8; 32], Peer)> = Vec::new();
        let mut lost: Vec<DiscoveryEvent> = Vec::new();
        let n = self.peers.len();
        let mut i: usize = 0;
        while i < n
            invariant
                n == start.len(),
                self.peers@ == start,
                i <= n,
                keep == active_entry(now, self.expiry()),
                drop == stale_entry(now, self.expiry()),
                kept@ == start.take(i as int).filter(keep),
                lost@ == lost_events(start.take(i as int).filter(drop)),
            decreases n - i,
        {
            proof {
                assert(start.take(i + 1) =~= start.take(i as int).push(start[i as int]));
                start.take(i as int).lemma_filter_push(start[i as int], keep);
                start.take(i as int).lemma_filter_push(start[i as int], drop);
                assert(lost_events(start.take(i as int).filter(drop).push(start[i as int]))
                    =~= lost_events(start.take(i as int).filter(drop)).push(
                    DiscoveryEvent::PeerLost(start[i as int].1.identity),
                ));
            }
            let entry = self.peers[i];
            let last_seen = entry.1.last_seen_unix_sec;
            let idle = if now >= last_seen {
                now - last_seen
            } else {
                0
            };
            if idle <= self.expiry_seconds {
                kept.push(entry);
            } else {
                lost.push(DiscoveryEvent::PeerLost(entry.1.identity));
            }
            i += 1;
        }
        assert(start.take(n as int) =~= start);
        proof {
            lemma_filter_keeps_unique(start, keep);
            lemma_filter_keeps_identities(start, keep);
        }
        self.peers = kept;
        lost
    }

    /// Removes stale peers (beyond the expiry window at the system clock's time)
    /// and returns a `PeerLost` event for each.
    pub fn prune_stale_peers(&mut self) -> (lost: Vec<DiscoveryEvent>)
        requires
            old(self).wf(),
        ensures
            final(self).wf(),
            exists|now: u64|
                {
                    &&& final(self).entries() == #[trigger] old(self).entries().filter(
                        active_entry(now, old(self).expiry()),
                    )
                    &&& lost@ == lost_events(
                        old(self).entries().filter(stale_entry(now, old(self).expiry())),
                    )
                },
            final(self).expiry() == old(self).expiry(),
    {
        let now = now_unix_sec();
        self.prune_stale_peers_at(now)
    }

    /// Returns total number of tracked peers (including stale ones not yet pruned).
    pub fn len(&self) -> (n: usize)
        ensures
            n == self.entries().len(),
    {
        self.peers.len()
    }

    pub fn is_empty(&self) -> (b: bool)
        ensures
            b == (self.entries().len() == 0),
    {
        self.peers.len() == 0
    }

    /// Directly set last_seen_unix_sec for a peer by pubkey; no effect for an
    /// unknown key.
    pub fn set_last_seen(&mut self, pubkey: &[u8; 32], ts: u64)
        requires
            old(self).wf(),
        ensures
            final(self).wf(),
            final(self).entries() == (if has_key(old(self).entries(), *pubkey) {
                old(self).entries().update(
                    key_pos(old(self).entries(), *pubkey),
                    (
                        *pubkey,
                        Peer {
                            last_seen_unix_sec: ts,
                            ..old(self).entries()[key_pos(old(self).entries(), *pubkey)].1
                        },
                    ),
                )
            } else {
                old(self).entries()
            }),
            final(self).expiry() == old(self).expiry(),
    {
        if let Some(i) = self.find(pubkey) {
            let mut peer = self.peers[i].1;
            peer.last_seen_unix_sec = ts;
            self.peers.set(i, (*pubkey, peer));
        }
    }

    /// Bans a known peer from `now` for `duration_sec` seconds; returns whether
    /// the peer was found.
    pub fn ban_peer_at(&mut self, pubkey: &[u8; 32], duration_sec: u64, now: u64) -> (found: bool)
        requires
            old(self).wf(),
            now + duration_sec <= u64::MAX,
        ensures
            final(self).wf(),
            found == has_key(old(self).entries(), *pubkey),
            final(self).entries() == (if found {
                old(self).entries().update(
                    key_pos(old(self).entries(), *pubkey),
                    (
                        *pubkey,
                        banned_until(
                            old(self).entries()[key_pos(old(self).entries(), *pubkey)].1,
                            now + duration_sec,
                        ),
                    ),
                )
            } else {
                old(self).entries()
            }),
            final(self).expiry() == old(self).expiry(),
    {
        if let Some(i) = self.find(pubkey) {
            let mut peer = self.peers[i].1;
            peer.ban_at(duration_sec, now);
            self.peers.set(i, (*pubkey, peer));
            true
        } else {
            false
        }
    }

    /// Ban a peer for the specified duration (in seconds) from the system
    /// clock's time. Returns true if the peer was found; it is then banned,
    /// unless the expiry time would not fit in 64 bits, in which case the table
    /// is left unchanged.
    pub fn ban_peer(&mut self, pubkey: &[u8; 32], duration_sec: u64) -> (found: bool)
        requires
            old(self).wf(),
        ensures
            final(self).wf(),
            found == has_key(old(self).entries(), *pubkey),
            final(self).expiry() == old(self).expiry(),
            exists|now: u64| #[trigger] ban_recorded(old(self).entries(), final(self).entries(), *pubkey, duration_sec, now),
    {
        let now = now_unix_sec();
        if now <= u64::MAX - duration_sec {
            let found = self.ban_peer_at(pubkey, duration_sec, now);
            assert(ban_recorded(old(self).entries(), self.entries(), *pubkey, duration_sec, now));
            found
        } else {
            let found = match self.find(pubkey) {
                Some(_) => true,
                None => false,
            };
            assert(ban_recorded(old(self).entries(), self.entries(), *pubkey, duration_sec, now));
            found
        }
    }

    /// Check if a peer is currently banned.
    /// Note: This does not check expiration. Use check_ban_expirations() to update expired bans.
    pub fn is_peer_banned(&self, pubkey: &[u8; 32]) -> (banned: bool)
        ensures
            banned == (has_key(self.entries(), *pubkey) && lookup(
                self.entries(),
                *pubkey,
            ).unwrap().is_banned),
    {
        match self.find(pubkey) {
            Some(i) => self.peers[i].1.is_banned,
            None => false,
        }
    }

    /// Unban a peer immediately; returns whether the peer was found.
    pub fn unban_peer(&mut self, pubkey: &[u8; 32]) -> (found: bool)
        requires
            old(self).wf(),
        ensures
            final(self).wf(),
            found == has_key(old(self).entries(), *pubkey),
            final(self).entries() == (if found {
                old(self).entries().update(
                    key_pos(old(self).entries(), *pubkey),
                    (*pubkey, unbanned(old(self).entries()[key_pos(old(self).entries(), *pubkey)].1)),
                )
            } else {
                old(self).entries()
            }),
            final(self).expiry() == old(self).expiry(),
    {
        if let Some(i) = self.find(pubkey) {
            let mut peer = self.peers[i].1;
            peer.is_banned = false;
            peer.ban_expires_at_unix_sec = 0;
            self.peers.set(i, (*pubkey, peer));
            true
        } else {
            false
        }
    }

    /// Lifts every ban that has run out at `now` and returns the identities of
    /// the peers unbanned, in table order.
    pub fn check_ban_expirations_at(&mut self, now: u64) -> (lifted: Vec<PeerIdentity>)
        requires
            old(self).wf(),
        ensures
            final(self).wf(),
            final(self).entries() == old(self).entries().map_values(
                |e: ([u8; 32], Peer)| expiry_checked(e, now),
            ),
            final(self).expiry() == old(self).expiry(),
            lifted@ == expired_bans(old(self).entries(), now),
    {
        let ghost start = self.peers@;
        let ghost pred = |e: ([u8; 32], Peer)| ban_expired(e.1, now);
        let mut lifted: Vec<PeerIdentity> = Vec::new();
        let n = self.peers.len();
        let mut i: usize = 0;
        while i < n
            invariant
                n == start.len(),
                i <= n,
                self.peers@.len() == n,
                self.expiry_seconds == old(self).expiry_seconds,
                pred == (|e: ([u8; 32], Peer)| ban_expired(e.1, now)),
                forall|j: int| 0 <= j < i ==> self.peers@[j] == expiry_checked(start[j], now),
                forall|j: int| i <= j < n ==> self.peers@[j] == start[j],
                lifted@ == start.take(i as int).filter(pred).map_values(
                    |e: ([u8; 32], Peer)| e.1.identity,
                ),
            decreases n - i,
        {
            proof {
                assert(start.take(i + 1) =~= start.take(i as int).push(start[i as int]));
                start.take(i as int).lemma_filter_push(start[i as int], pred);
            }
            let (key, mut peer) = self.peers[i];
            if peer.check_ban_expiration_at(now) {
                lifted.push(peer.identity);
                self.peers.set(i, (key, peer));
            }
            proof {
                assert(start.take(i as int).filter(pred).push(start[i as int]).map_values(
                    |e: ([u8; 32], Peer)| e.1.identity,
                ) =~= start.take(i as int).filter(pred).map_values(
                    |e: ([u8; 32], Peer)| e.1.identity,
                ).push(start[i as int].1.identity));
            }
            i += 1;
        }
        assert(start.take(n as int) =~= start);
        assert(self.peers@ =~= start.map_values(|e: ([u8; 32], Peer)| expiry_checked(e, now)));
        lifted
    }

    /// Check and update ban expiration for all peers at the system clock's time.
    /// Returns a list of peer identities that were unbanned.
    pub fn check_ban_expirations(&mut self) -> (lifted: Vec<PeerIdentity>)
        requires
            old(self).wf(),
        ensures
            final(self).wf(),
            exists|now: u64|
                {
                    &&& final(self).entries() == old(self).entries().map_values(
                        |e: ([u8; 32], Peer)| expiry_checked(e, now),
                    )
                    &&& lifted@ == #[trigger] expired_bans(old(self).entries(), now)
                },
            final(self).expiry() == old(self).expiry(),
    {
        let now = now_unix_sec();
        self.check_ban_expirations_at(now)
    }

    /// Get a peer by pubkey (mutable). The table stays well-formed as long as
    /// the caller leaves the peer's identity as it is.
    pub fn get_peer_mut(&mut self, pubkey: &[u8; 32]) -> (peer: Option<&mut Peer>)
        requires
            old(self).wf(),
        ensures
            has_key(old(self).entries(), *pubkey) <==> peer is Some,
            match peer {
                Some(p) => {
                    &&& *p == old(self).entries()[key_pos(old(self).entries(), *pubkey)].1
                    &&& final(p).identity == p.identity ==> final(self).wf()
                    &&& final(self).entries() == old(self).entries().update(
                        key_pos(old(self).entries(), *pubkey),
                        (*pubkey, *final(p)),
                    )
                },
                None => final(self).entries() == old(self).entries() && final(self).wf(),
            },
            final(self).expiry() == old(self).expiry(),
    {
        match self.find(pubkey) {
            Some(i) => {
                let entry = &mut self.peers[i];
                Some(&mut entry.1)
            },
            None => None,
        }
    }

    /// Get a peer by pubkey.
    pub fn get_peer(&self, pubkey: &[u8; 32]) -> (peer: Option<&Peer>)
        ensures
            match peer {
                Some(p) => lookup(self.entries(), *pubkey) == Some(*p),
                None => lookup(self.entries(), *pubkey) is None,
            },
    {
        match self.find(pubkey) {
            Some(i) => Some(&self.peers[i].1),
            None => None,
        }
    }
}

} // verus!
