//! Fanout sizing and random recipient selection for gossip rounds.
use vstd::prelude::*;

use crate::peer::identity::PeerIdentity;

verus! {

pub const MIN_FANOUT: usize = 2;

pub const MAX_FANOUT: usize = 6;

pub const FALLBACK_FANOUT: usize = 3;

/// Number of exponents tabulated by `e_power_floor`.
pub const E_POWERS: usize = 45;

/// floor(e^k) for 0 <= k < 45; e^45 exceeds every 64-bit integer.
pub open spec fn e_power_floor(k: int) -> int {
    if k == 0 {
        1
    } else if k == 1 {
        2
    } else if k == 2 {
        7
    } else if k == 3 {
        20
    } else if k == 4 {
        54
    } else if k == 5 {
        148
    } else if k == 6 {
        403
    } else if k == 7 {
        1096
    } else if k == 8 {
        2980
    } else if k == 9 {
        8103
    } else if k == 10 {
        22026
    } else if k == 11 {
        59874
    } else if k == 12 {
        162754
    } else if k == 13 {
        442413
    } else if k == 14 {
        1202604
    } else if k == 15 {
        3269017
    } else if k == 16 {
        8886110
    } else if k == 17 {
        24154952
    } else if k == 18 {
        65659969
    } else if k == 19 {
        178482300
    } else if k == 20 {
        485165195
    } else if k == 21 {
        1318815734
    } else if k == 22 {
        3584912846
    } else if k == 23 {
        9744803446
    } else if k == 24 {
        26489122129
    } else if k == 25 {
        72004899337
    } else if k == 26 {
        195729609428
    } else if k == 27 {
        532048240601
    } else if k == 28 {
        1446257064291
    } else if k == 29 {
        3931334297144
    } else if k == 30 {
        10686474581524
    } else if k == 31 {
        29048849665247
    } else if k == 32 {
        78962960182680
    } else if k == 33 {
        214643579785916
    } else if k == 34 {
        583461742527454
    } else if k == 35 {
        1586013452313430
    } else if k == 36 {
        4311231547115195
    } else if k == 37 {
        11719142372802611
    } else if k == 38 {
        31855931757113756
    } else if k == 39 {
        86593400423993746
    } else if k == 40 {
        235385266837019985
    } else if k == 41 {
        639843493530054949
    } else if k == 42 {
        1739274941520501047
    } else if k == 43 {
        4727839468229346561
    } else if k == 44 {
        12851600114359308275
    } else {
        0
    }
}

/// The smallest `k >= from` with `n <= floor(e^k)`, or 45 when there is none
/// below 45.
pub open spec fn ceil_ln_from(n: int, from: int) -> int
    decreases 45 - from,
{
    if from >= 45 || n <= e_power_floor(from) {
        from
    } else {
        ceil_ln_from(n, from + 1)
    }
}

/// ceil(ln n) for 1 <= n < 2^64: the smallest `k` with `n <= e^k`, which is
/// the smallest `k` with `n <= floor(e^k)` since `e^k` is irrational for k >= 1.
pub open spec fn ceil_ln(n: int) -> int {
    ceil_ln_from(n, 0)
}

/// The fanout chosen for `active` connections and an optional mesh size estimate.
pub open spec fn fanout_for(min_fanout: int, max_fanout: int, active: int, mesh_estimated_size: Option<usize>) -> int {
    if active <= min_fanout {
        active
    } else if mesh_estimated_size is None && active > max_fanout {
        vstd::math::min(FALLBACK_FANOUT as int, active)
    } else {
        let target = match mesh_estimated_size {
            Some(size) => ceil_ln(vstd::math::max(size as int, 1)),
            None => active,
        };
        vstd::math::min(vstd::math::min(vstd::math::max(target, min_fanout), max_fanout), active)
    }
}

/// A round never forwards to more peers than there are connections, and with
/// the default bounds it forwards to at least `min(MIN_FANOUT, connections)`.
pub proof fn lemma_fanout_bounds(active: int, mesh_estimated_size: Option<usize>)
    requires
        active >= 0,
    ensures
        fanout_for(MIN_FANOUT as int, MAX_FANOUT as int, active, mesh_estimated_size) <= active,
        fanout_for(MIN_FANOUT as int, MAX_FANOUT as int, active, mesh_estimated_size)
            >= vstd::math::min(MIN_FANOUT as int, active),
{
}

/// floor(e^k), tabulated.
fn e_power_floor_at(k: usize) -> (v: u64)
    requires
        k < E_POWERS,
    ensures
        v == e_power_floor(k as int),
{
    match k {
        0 => 1,
        1 => 2,
        2 => 7,
        3 => 20,
        4 => 54,
        5 => 148,
        6 => 403,
        7 => 1096,
        8 => 2980,
        9 => 8103,
        10 => 22026,
        11 => 59874,
        12 => 162754,
        13 => 442413,
        14 => 1202604,
        15 => 3269017,
        16 => 8886110,
        17 => 24154952,
        18 => 65659969,
        19 => 178482300,
        20 => 485165195,
        21 => 1318815734,
        22 => 3584912846,
        23 => 9744803446,
        24 => 26489122129,
        25 => 72004899337,
        26 => 195729609428,
        27 => 532048240601,
        28 => 1446257064291,
        29 => 3931334297144,
        30 => 10686474581524,
        31 => 29048849665247,
        32 => 78962960182680,
        33 => 214643579785916,
        34 => 583461742527454,
        35 => 1586013452313430,
        36 => 4311231547115195,
        37 => 11719142372802611,
        38 => 31855931757113756,
        39 => 86593400423993746,
        40 => 235385266837019985,
        41 => 639843493530054949,
        42 => 1739274941520501047,
        43 => 4727839468229346561,
        44 => 12851600114359308275,
        _ => 0,
    }
}

/// ceil(ln n) for n >= 1.
pub fn ceil_ln_usize(n: usize) -> (k: usize)
    requires
        n >= 1,
    ensures
        k == ceil_ln(n as int),
{
    let mut k: usize = 0;
    while k < E_POWERS && n as u64 > e_power_floor_at(k)
        invariant
            k <= E_POWERS,
            ceil_ln(n as int) == ceil_ln_from(n as int, k as int),
        decreases E_POWERS - k,
    {
        k += 1;
    }
    k
}

pub struct FanoutCalculator {
    pub min_fanout: usize,
    pub max_fanout: usize,
}

impl FanoutCalculator {
    pub fn new() -> (c: Self)
        ensures
            c.min_fanout == MIN_FANOUT,
            c.max_fanout == MAX_FANOUT,
    {
        Self { min_fanout: MIN_FANOUT, max_fanout: MAX_FANOUT }
    }

    /// How many peers a gossip round forwards to. All connections when there
    /// are at most `min_fanout`; the fallback fanout when the mesh size is
    /// unknown and there are more than `max_fanout`; otherwise ceil(ln(mesh
    /// size)) (or the connection count when the size is unknown), clamped to
    /// `[min_fanout, max_fanout]` and capped by the connection count.
    pub fn calculate(&self, active_connections: usize, mesh_estimated_size: Option<usize>) -> (f: usize)
        requires
            active_connections > self.min_fanout && !(mesh_estimated_size is None
                && active_connections > self.max_fanout) ==> self.min_fanout <= self.max_fanout,
        ensures
            f == fanout_for(
                self.min_fanout as int,
                self.max_fanout as int,
                active_connections as int,
                mesh_estimated_size,
            ),
    {
        if active_connections <= self.min_fanout {
            return active_connections;
        }
        if mesh_estimated_size.is_none() && active_connections > self.max_fanout {
            return if FALLBACK_FANOUT < active_connections {
                FALLBACK_FANOUT
            } else {
                active_connections
            };
        }
        let target = match mesh_estimated_size {
            Some(estimated_size) => {
                let n = if estimated_size > 1 {
                    estimated_size
                } else {
                    1
                };
                ceil_ln_usize(n)
            },
            None => active_connections,
        };
        let clamped = if target < self.min_fanout {
            self.min_fanout
        } else if target > self.max_fanout {
            self.max_fanout
        } else {
            target
        };
        if clamped < active_connections {
            clamped
        } else {
            active_connections
        }
    }
}

impl Default for FanoutCalculator {
    fn default() -> (c: Self)
        ensures
            c.min_fanout == MIN_FANOUT,
            c.max_fanout == MAX_FANOUT,
    {
        Self::new()
    }
}

/// `chosen` takes its elements from distinct positions `idx` of `peers`.
pub open spec fn drawn_from(chosen: Seq<PeerIdentity>, peers: Seq<PeerIdentity>, idx: Seq<int>) -> bool {
    &&& idx.len() == chosen.len()
    &&& forall|i: int| 0 <= i < idx.len() ==> 0 <= #[trigger] idx[i] < peers.len()
    &&& forall|i: int| 0 <= i < idx.len() ==> #[trigger] chosen[i] == peers[idx[i]]
    &&& forall|i: int, j: int| 0 <= i < j < idx.len() ==> idx[i] != idx[j]
}

/// A random choice of `amount` peers (`SliceRandom::choose_multiple` with the
/// thread-local generator): `min(amount, peers.len())` elements taken from
/// distinct positions of `peers`, in random order. Which positions is chance.
#[verifier::external_body]
fn choose_multiple_peers(peers: &[PeerIdentity], amount: usize) -> (chosen: Vec<PeerIdentity>)
    ensures
        chosen@.len() == vstd::math::min(amount as int, peers@.len() as int),
        exists|idx: Seq<int>| #[trigger] drawn_from(chosen@, peers@, idx),
{
    rand::seq::SliceRandom::choose_multiple(peers, &mut rand::thread_rng(), amount).cloned().collect()
}

/// Picks `min(f, peers.len())` peers at random, each from a distinct position.
pub fn select_random_peers(peers: &[PeerIdentity], f: usize) -> (chosen: Vec<PeerIdentity>)
    ensures
        chosen@.len() == vstd::math::min(f as int, peers@.len() as int),
        exists|idx: Seq<int>| #[trigger] drawn_from(chosen@, peers@, idx),
{
    if peers.len() == 0 || f == 0 {
        let chosen: Vec<PeerIdentity> = Vec::new();
        assert(drawn_from(chosen@, peers@, Seq::<int>::empty()));
        return chosen;
    }
    choose_multiple_peers(peers, f)
}

} // verus!
