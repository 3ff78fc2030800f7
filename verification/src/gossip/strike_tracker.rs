//! Tracks signature verification failures per peer using a sliding window.
use vstd::prelude::*;

use crate::keys::{
    find_key, first_at, has_key, key_differs, key_pos, lemma_filter_keeps_unique,
    lemma_has_key_first, lemma_key_pos, lemma_map_keeps_unique, lemma_push_keeps_unique,
    lemma_remove_keeps_unique, lemma_unique_lookup, lemma_update_keeps_unique, lookup,
    unique_keys, without_key,
};
use crate::peer::identity::PeerIdentity;
use crate::time::{elapsed_since, instant_now, TimeSpan};

verus! {

broadcast use vstd::seq_lib::group_seq_properties;

/// Failure times recorded per peer key.
pub type StrikeEntries = Seq<([u8; 32], Seq<TimeSpan>)>;

/// A failure at `t` still counts at `now`: it lies at most `window` before it
/// (a failure stamped after `now` counts as just happened).
pub open spec fn within_window(t: TimeSpan, now: TimeSpan, window: TimeSpan) -> bool {
    (if now@ >= t@ {
        now@ - t@
    } else {
        0
    }) <= window@
}

pub open spec fn recent(now: TimeSpan, window: TimeSpan) -> spec_fn(TimeSpan) -> bool {
    |t: TimeSpan| within_window(t, now, window)
}

/// The failure list of `k`, empty when none was recorded.
pub open spec fn failures_of(s: StrikeEntries, k: [u8; 32]) -> Seq<TimeSpan> {
    match lookup(s, k) {
        Some(ts) => ts,
        None => Seq::empty(),
    }
}

/// The entries after a failure of `k` at `now`: the key's old failures outside
/// the window are dropped and `now` is appended; an unknown key gets a new entry.
pub open spec fn failure_recorded(s: StrikeEntries, k: [u8; 32], now: TimeSpan, window: TimeSpan) -> StrikeEntries {
    if has_key(s, k) {
        s.update(key_pos(s, k), (k, s[key_pos(s, k)].1.filter(recent(now, window)).push(now)))
    } else {
        s.push((k, seq![now]))
    }
}

/// Keeping what a filter keeps changes nothing.
proof fn lemma_filter_twice(s: Seq<TimeSpan>, p: spec_fn(TimeSpan) -> bool)
    ensures
        s.filter(p).filter(p) == s.filter(p),
    decreases s.len(),
{
    if s.len() > 0 {
        let t = s.drop_last();
        lemma_filter_twice(t, p);
        assert(t.push(s.last()) =~= s);
        t.lemma_filter_push(s.last(), p);
        if p(s.last()) {
            t.filter(p).lemma_filter_push(s.last(), p);
        }
    }
}

/// A failure counts at once: at the time it is recorded, the peer's count of
/// recent failures is one more than before.
pub proof fn lemma_failure_counts(s: StrikeEntries, k: [u8; 32], now: TimeSpan, window: TimeSpan)
    ensures
        failures_of(failure_recorded(s, k, now, window), k).filter(recent(now, window)).len()
            == failures_of(s, k).filter(recent(now, window)).len() + 1,
{
    let r = recent(now, window);
    let t = failure_recorded(s, k, now, window);
    assert(r(now));
    if has_key(s, k) {
        let p = key_pos(s, k);
        lemma_has_key_first(s, k);
        assert(first_at(t, k, p));
        lemma_key_pos(t, k, p);
        let old_list = s[p].1;
        lemma_filter_twice(old_list, r);
        old_list.filter(r).lemma_filter_push(now, r);
    } else {
        assert(first_at(t, k, s.len() as int));
        lemma_key_pos(t, k, s.len() as int);
        assert(seq![now] =~= Seq::<TimeSpan>::empty().push(now));
        Seq::<TimeSpan>::empty().lemma_filter_push(now, r);
        assert(Seq::<TimeSpan>::empty().filter(r) =~= Seq::<TimeSpan>::empty());
    }
}

/// A failure is recorded against the failing peer only: afterwards its list
/// holds its earlier failures that still count at `now`, in order, followed
/// by `now`, and every other peer's failure list is exactly what it was.
pub proof fn lemma_failure_touches_only_its_peer(
    s: StrikeEntries,
    k: [u8; 32],
    now: TimeSpan,
    window: TimeSpan,
    other: [u8; 32],
)
    requires
        unique_keys(s),
    ensures
        failures_of(failure_recorded(s, k, now, window), k) == failures_of(s, k).filter(
            |t: TimeSpan| (if now@ >= t@ { now@ - t@ } else { 0 }) <= window@,
        ).push(now),
        other != k ==> failures_of(failure_recorded(s, k, now, window), other) == failures_of(
            s,
            other,
        ),
{
    let t = failure_recorded(s, k, now, window);
    assert(recent(now, window) =~= (|t: TimeSpan| (if now@ >= t@ { now@ - t@ } else { 0 }) <= window@));
    if has_key(s, k) {
        let p = key_pos(s, k);
        lemma_has_key_first(s, k);
        lemma_unique_lookup(s, k, p);
        assert(first_at(t, k, p));
        lemma_key_pos(t, k, p);
        if other != k && has_key(s, other) {
            let q = key_pos(s, other);
            lemma_has_key_first(s, other);
            lemma_unique_lookup(s, other, q);
            assert(first_at(t, other, q));
            lemma_key_pos(t, other, q);
        } else if other != k {
            assert(!has_key(t, other));
        }
    } else {
        assert(first_at(t, k, s.len() as int));
        lemma_key_pos(t, k, s.len() as int);
        assert(Seq::<TimeSpan>::empty().filter(recent(now, window)) =~= Seq::<TimeSpan>::empty());
        assert(seq![now] =~= Seq::<TimeSpan>::empty().push(now));
        if other != k && has_key(s, other) {
            let q = key_pos(s, other);
            lemma_has_key_first(s, other);
            assert(first_at(t, other, q));
            lemma_key_pos(t, other, q);
        } else if other != k {
            assert(!has_key(t, other));
        }
    }
}

/// Clearing a peer leaves it no failures.
pub proof fn lemma_cleared_has_none(s: StrikeEntries, k: [u8; 32])
    ensures
        failures_of(without_key(s, k), k) == Seq::<TimeSpan>::empty(),
{
    let t = without_key(s, k);
    assert forall|i: int| 0 <= i < t.len() implies t[i].0 != k by {
        s.lemma_filter_pred(key_differs(k), i);
    }
}

/// Entry `e` with its failures outside the window dropped.
pub open spec fn pruned_entry(e: ([u8; 32], Seq<TimeSpan>), now: TimeSpan, window: TimeSpan) -> ([u8; 32], Seq<TimeSpan>) {
    (e.0, e.1.filter(recent(now, window)))
}

/// The entries after a cleanup at `now`: failures outside the window are
/// dropped and entries left without failures are removed.
pub open spec fn cleaned(s: StrikeEntries, now: TimeSpan, window: TimeSpan) -> StrikeEntries {
    s.map_values(|e: ([u8; 32], Seq<TimeSpan>)| pruned_entry(e, now, window)).filter(
        |e: ([u8; 32], Seq<TimeSpan>)| e.1.len() > 0,
    )
}

/// A cleanup changes no count: at the time it runs, every peer's number of
/// recent failures is what it was before.
pub proof fn lemma_cleanup_keeps_counts(s: StrikeEntries, now: TimeSpan, window: TimeSpan, k: [u8; 32])
    requires
        unique_keys(s),
    ensures
        failures_of(cleaned(s, now, window), k).filter(recent(now, window)).len() == failures_of(
            s,
            k,
        ).filter(recent(now, window)).len(),
{
    let r = recent(now, window);
    let f = |e: ([u8; 32], Seq<TimeSpan>)| pruned_entry(e, now, window);
    let nonempty = |e: ([u8; 32], Seq<TimeSpan>)| e.1.len() > 0;
    let pruned = s.map_values(f);
    let c = cleaned(s, now, window);
    assert(c == pruned.filter(nonempty));
    assert(forall|j: int| 0 <= j < s.len() ==> (#[trigger] f(s[j])).0 == s[j].0);
    lemma_map_keeps_unique(s, f);
    lemma_filter_keeps_unique(pruned, nonempty);
    Seq::<TimeSpan>::empty().lemma_filter_len(r);
    assert(Seq::<TimeSpan>::empty().filter(r).len() == 0);
    // an entry of the cleaned table under `k` comes from the entry of `s` under `k`
    assert forall|q: int| 0 <= q < c.len() && c[q].0 == k implies has_key(s, k) && c[q] == pruned[key_pos(
        s,
        k,
    )] by {
        pruned.lemma_filter_contains_rev(nonempty, c[q]);
        let j = choose|j: int| 0 <= j < pruned.len() && pruned[j] == c[q];
        assert(s[j].0 == k);
        lemma_has_key_first(s, k);
        assert(j == key_pos(s, k));
    }
    if has_key(s, k) {
        let p = key_pos(s, k);
        lemma_has_key_first(s, k);
        let kept = s[p].1.filter(r);
        assert(pruned[p] == (k, kept));
        lemma_unique_lookup(s, k, p);
        lemma_filter_twice(s[p].1, r);
        if kept.len() > 0 {
            pruned.lemma_filter_contains(nonempty, p);
            let q = choose|q: int| 0 <= q < c.len() && c[q] == pruned[p];
            lemma_unique_lookup(c, k, q);
        } else {
            assert(!has_key(c, k));
        }
    } else {
        assert(!has_key(c, k));
    }
}

/// Tracks signature failures within a sliding time window.
pub struct StrikeTracker {
    /// Peer pubkey and the times of its failures
    failures: Vec<([u8; 32], Vec<TimeSpan>)>,
    /// Window duration for counting strikes
    window_duration: TimeSpan,
    /// Maximum number of strikes before banning
    max_strikes: usize,
    /// Reference point of the failure times
    origin: std::time::Instant,
}

/// The failure times of the entries, as sequences.
pub open spec fn strike_view(v: Seq<([u8; 32], Vec<TimeSpan>)>) -> StrikeEntries {
    v.map_values(|e: ([u8; 32], Vec<TimeSpan>)| (e.0, e.1@))
}

/// Copies the failure times in `times` that still count at `now`, in order.
fn retain_recent(times: &Vec<TimeSpan>, now: TimeSpan, window: TimeSpan) -> (kept: Vec<TimeSpan>)
    ensures
        kept@ == times@.filter(recent(now, window)),
{
    let ghost pred = recent(now, window);
    let mut kept: Vec<TimeSpan> = Vec::new();
    let n = times.len();
    let mut i: usize = 0;
    while i < n
        invariant
            n == times@.len(),
            i <= n,
            pred == recent(now, window),
            kept@ == times@.take(i as int).filter(pred),
        decreases n - i,
    {
        proof {
            assert(times@.take(i + 1) =~= times@.take(i as int).push(times@[i as int]));
            times@.take(i as int).lemma_filter_push(times@[i as int], pred);
        }
        let t = times[i];
        if now.saturating_sub(&t).as_nanos() <= window.as_nanos() {
            kept.push(t);
        }
        i += 1;
    }
    assert(times@.take(n as int) =~= times@);
    kept
}

impl StrikeTracker {
    pub closed spec fn entries(&self) -> StrikeEntries {
        strike_view(self.failures@)
    }

    pub closed spec fn window(&self) -> TimeSpan {
        self.window_duration
    }

    pub closed spec fn max_strikes(&self) -> usize {
        self.max_strikes
    }

    /// Every peer key has at most one entry.
    pub open spec fn wf(&self) -> bool {
        unique_keys(self.entries())
    }

    /// Create a new StrikeTracker with a 10-minute window and max 3 strikes.
    pub fn new() -> (t: Self)
        ensures
            t.wf(),
            t.entries() == StrikeEntries::empty(),
            t.window()@ == 600_000_000_000,
            t.max_strikes() == 3,
    {
        let t = Self {
            failures: Vec::new(),
            window_duration: TimeSpan::from_secs(10 * 60),
            max_strikes: 3,
            origin: instant_now(),
        };
        assert(t.entries() =~= StrikeEntries::empty());
        t
    }

    /// The position of the entry for `key`, if any.
    fn find(&self, key: &[u8; 32]) -> (pos: Option<usize>)
        ensures
            match pos {
                Some(i) => first_at(self.entries(), *key, i as int) && key_pos(self.entries(), *key)
                    == i,
                None => !has_key(self.entries(), *key),
            },
    {
        let pos = find_key(&self.failures, key);
        proof {
            let s = self.failures@;
            let v = self.entries();
            assert(forall|j: int| 0 <= j < s.len() ==> #[trigger] v[j].0 == s[j].0);
            match pos {
                Some(i) => {
                    assert(first_at(v, *key, i as int));
                    crate::keys::lemma_key_pos(v, *key, i as int);
                },
                None => {
                    if has_key(v, *key) {
                        let j = choose|j: int| 0 <= j < v.len() && v[j].0 == *key;
                        assert(s[j].0 == *key);
                    }
                },
            }
        }
        pos
    }

    /// Records a signature failure of `peer` at `now`; returns `true` if the
    /// peer should be banned, i.e. its failures within the window (this one
    /// included) exceed the maximum.
    pub fn record_failure_at(&mut self, peer: &PeerIdentity, now: TimeSpan) -> (ban: bool)
        requires
            old(self).wf(),
        ensures
            final(self).wf(),
            final(self).entries() == failure_recorded(
                old(self).entries(),
                peer.pubkey,
                now,
                old(self).window(),
            ),
            ban == (failures_of(old(self).entries(), peer.pubkey).filter(
                recent(now, old(self).window()),
            ).len() + 1 > old(self).max_strikes()),
            final(self).window() == old(self).window(),
            final(self).max_strikes() == old(self).max_strikes(),
    {
        let peer_key = peer.pubkey;
        let ghost before = self.entries();
        match self.find(&peer_key) {
            Some(i) => {
                let mut kept = retain_recent(&self.failures[i].1, now, self.window_duration);
                kept.push(now);
                let count = kept.len();
                self.failures.set(i, (peer_key, kept));
                proof {
                    assert(self.entries() =~= failure_recorded(before, peer_key, now, self.window()));
                }
                count > self.max_strikes
            },
            None => {
                let mut times: Vec<TimeSpan> = Vec::new();
                times.push(now);
                self.failures.push((peer_key, times));
                proof {
                    assert(self.entries() =~= failure_recorded(before, peer_key, now, self.window()));
                    assert(failures_of(before, peer_key) =~= Seq::<TimeSpan>::empty());
                    Seq::<TimeSpan>::empty().lemma_filter_len(recent(now, self.window()));
                }
                1 > self.max_strikes
            },
        }
    }

    /// Record a signature failure for the given peer at the monotonic clock's
    /// time. Returns `true` if the peer should be banned (exceeded max strikes).
    pub fn record_failure(&mut self, peer: &PeerIdentity) -> (ban: bool)
        requires
            old(self).wf(),
        ensures
            final(self).wf(),
            exists|now: TimeSpan|
                {
                    &&& final(self).entries() == #[trigger] failure_recorded(
                        old(self).entries(),
                        peer.pubkey,
                        now,
                        old(self).window(),
                    )
                    &&& ban == (failures_of(old(self).entries(), peer.pubkey).filter(
                        recent(now, old(self).window()),
                    ).len() + 1 > old(self).max_strikes())
                },
            final(self).window() == old(self).window(),
            final(self).max_strikes() == old(self).max_strikes(),
    {
        let now = elapsed_since(&self.origin);
        self.record_failure_at(peer, now)
    }

    /// Clear all failures for a peer (e.g., after unbanning)
    pub fn clear_peer(&mut self, peer: &PeerIdentity)
        requires
            old(self).wf(),
        ensures
            final(self).wf(),
            final(self).entries() == without_key(old(self).entries(), peer.pubkey),
            final(self).window() == old(self).window(),
            final(self).max_strikes() == old(self).max_strikes(),
    {
        let ghost start = self.entries();
        let ghost pred = key_differs::<Seq<TimeSpan>>(peer.pubkey);
        let mut kept: Vec<([u8; 32], Vec<TimeSpan>)> = Vec::new();
        let mut old_failures: Vec<([u8; 32], Vec<TimeSpan>)> = Vec::new();
        std::mem::swap(&mut old_failures, &mut self.failures);
        let n = old_failures.len();
        let mut i: usize = 0;
        while i < n
            invariant
                n == old_failures@.len(),
                i <= n,
                strike_view(old_failures@) == start,
                pred == key_differs::<Seq<TimeSpan>>(peer.pubkey),
                strike_view(kept@) == start.take(i as int).filter(pred),
            decreases n - i,
        {
            proof {
                assert(start.take(i + 1) =~= start.take(i as int).push(start[i as int]));
                start.take(i as int).lemma_filter_push(start[i as int], pred);
            }
            let entry = &old_failures[i];
            if !crate::keys::same_key(&entry.0, &peer.pubkey) {
                let copy = (entry.0, entry.1.clone());
                let ghost before = kept@;
                kept.push(copy);
                proof {
                    assert(strike_view(kept@) =~= strike_view(before).push((entry.0, entry.1@)));
                }
            }
            i += 1;
        }
        assert(start.take(n as int) =~= start);
        proof {
            lemma_filter_keeps_unique(start, pred);
        }
        self.failures = kept;
    }

    /// The number of failures of `peer` that still count at `now`.
    pub fn get_strike_count_at(&self, peer: &PeerIdentity, now: TimeSpan) -> (count: usize)
        ensures
            count == failures_of(self.entries(), peer.pubkey).filter(
                recent(now, self.window()),
            ).len(),
    {
        match self.find(&peer.pubkey) {
            Some(i) => {
                let kept = retain_recent(&self.failures[i].1, now, self.window_duration);
                kept.len()
            },
            None => {
                proof {
                    Seq::<TimeSpan>::empty().lemma_filter_len(recent(now, self.window()));
                }
                0
            },
        }
    }

    /// Get the current number of strikes for a peer, at the monotonic clock's time.
    pub fn get_strike_count(&self, peer: &PeerIdentity) -> (count: usize)
        ensures
            exists|now: TimeSpan|
                count == #[trigger] failures_of(self.entries(), peer.pubkey).filter(
                    recent(now, self.window()),
                ).len(),
    {
        let now = elapsed_since(&self.origin);
        self.get_strike_count_at(peer, now)
    }

    /// Drops the failures that no longer count at `now`, and the peers left
    /// without any.
    pub fn cleanup_at(&mut self, now: TimeSpan)
        requires
            old(self).wf(),
        ensures
            final(self).wf(),
            final(self).entries() == cleaned(old(self).entries(), now, old(self).window()),
            final(self).window() == old(self).window(),
            final(self).max_strikes() == old(self).max_strikes(),
    {
        let ghost start = self.entries();
        let ghost pruned = start.map_values(
            |e: ([u8; 32], Seq<TimeSpan>)| pruned_entry(e, now, self.window()),
        );
        let ghost nonempty = |e: ([u8; 32], Seq<TimeSpan>)| e.1.len() > 0;
        let mut kept: Vec<([u8; 32], Vec<TimeSpan>)> = Vec::new();
        let n = self.failures.len();
        let mut i: usize = 0;
        while i < n
            invariant
                n == self.failures@.len(),
                i <= n,
                self.entries() == start,
                pruned == start.map_values(
                    |e: ([u8; 32], Seq<TimeSpan>)| pruned_entry(e, now, self.window()),
                ),
                nonempty == (|e: ([u8; 32], Seq<TimeSpan>)| e.1.len() > 0),
                strike_view(kept@) == pruned.take(i as int).filter(nonempty),
            decreases n - i,
        {
            proof {
                assert(pruned.take(i + 1) =~= pruned.take(i as int).push(pruned[i as int]));
                pruned.take(i as int).lemma_filter_push(pruned[i as int], nonempty);
            }
            let key = self.failures[i].0;
            let recent_times = retain_recent(&self.failures[i].1, now, self.window_duration);
            if recent_times.len() > 0 {
                let ghost before = kept@;
                kept.push((key, recent_times));
                proof {
                    assert(strike_view(kept@) =~= strike_view(before).push(pruned[i as int]));
                }
            }
            i += 1;
        }
        assert(pruned.take(n as int) =~= pruned);
        proof {
            let f = |e: ([u8; 32], Seq<TimeSpan>)| pruned_entry(e, now, self.window());
            assert(forall|j: int| 0 <= j < start.len() ==> (#[trigger] f(start[j])).0 == start[j].0);
            lemma_map_keeps_unique(start, f);
            lemma_filter_keeps_unique(pruned, nonempty);
        }
        self.failures = kept;
    }

    /// Clean up old entries that are outside the window, at the monotonic
    /// clock's time.
    pub fn cleanup(&mut self)
        requires
            old(self).wf(),
        ensures
            final(self).wf(),
            exists|now: TimeSpan| final(self).entries() == #[trigger] cleaned(
                old(self).entries(),
                now,
                old(self).window(),
            ),
            final(self).window() == old(self).window(),
            final(self).max_strikes() == old(self).max_strikes(),
    {
        let now = elapsed_since(&self.origin);
        self.cleanup_at(now)
    }
}

impl Default for StrikeTracker {
    fn default() -> (t: Self)
        ensures
            t.wf(),
            t.entries() == StrikeEntries::empty(),
            t.window()@ == 600_000_000_000,
            t.max_strikes() == 3,
    {
        Self::new()
    }
}

} // verus!
