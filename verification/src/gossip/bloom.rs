//! Sliding-window Bloom filter for suppressing re-broadcast of seen messages.
use vstd::prelude::*;

verus! {

/// Modulus of the first id hash (the largest prime below 2^32).
pub const HASH_PRIME_A: u64 = 4_294_967_291;

/// Modulus of the second id hash (the second largest prime below 2^32).
pub const HASH_PRIME_B: u64 = 4_294_967_279;

/// Polynomial hash of `bytes` with multiplier `mult`, reduced modulo `p` at each step.
pub open spec fn poly_hash(bytes: Seq<u8>, mult: int, p: int) -> int
    decreases bytes.len(),
{
    if bytes.len() == 0 {
        0
    } else {
        (poly_hash(bytes.drop_last(), mult, p) * mult + bytes.last()) % p
    }
}

/// The `i`-th bit position of `id` in a filter of `m` bits (double hashing
/// with two polynomial hashes of the id).
pub open spec fn bit_position(id: [u8; 32], i: int, m: int) -> int {
    (poly_hash(id@, 257, HASH_PRIME_A as int) + i * (poly_hash(id@, 263, HASH_PRIME_B as int) + 1))
        % m
}

/// All `k` bit positions of `id` are set in `bits`.
pub open spec fn all_bits_set(bits: Seq<bool>, id: [u8; 32], k: int) -> bool {
    forall|i: int| 0 <= i < k ==> #[trigger] bits[bit_position(id, i, bits.len() as int)]
}

/// `bits` with the `k` positions of `id` set.
pub open spec fn marked(bits: Seq<bool>, id: [u8; 32], k: int) -> Seq<bool> {
    Seq::new(
        bits.len(),
        |j: int| bits[j] || exists|i: int| 0 <= i < k && bit_position(id, i, bits.len() as int) == j,
    )
}

/// The two windows of a filter and the number of ids added to the current one.
pub struct BloomWindows {
    pub current: Seq<bool>,
    pub previous: Seq<bool>,
    pub inserted: int,
}

/// Either window has all `k` positions of `id` set.
pub open spec fn windows_hold(w: BloomWindows, id: [u8; 32], k: int) -> bool {
    all_bits_set(w.current, id, k) || all_bits_set(w.previous, id, k)
}

/// The windows after adding `id` with `k` hashes and windows of `capacity`
/// ids: when the current window is full it becomes the previous one and `id`
/// is marked in a cleared window; otherwise `id` is marked in the current one.
pub open spec fn windows_added(w: BloomWindows, id: [u8; 32], k: int, capacity: int) -> BloomWindows {
    if w.inserted < capacity {
        BloomWindows { current: marked(w.current, id, k), previous: w.previous, inserted: w.inserted + 1 }
    } else {
        BloomWindows {
            current: marked(Seq::new(w.current.len(), |j: int| false), id, k),
            previous: w.current,
            inserted: 1,
        }
    }
}

/// Hash functions used for a false-positive rate of `ppm` per million:
/// the smallest `k >= 1` with `2^k * ppm >= 1_000_000`.
pub open spec fn hashes_for(ppm: int) -> int {
    hashes_from(ppm, 1)
}

pub open spec fn hashes_from(ppm: int, k: int) -> int
    decreases 20 - k,
{
    if k >= 20 || vstd::arithmetic::power2::pow2(k as nat) * ppm >= 1_000_000 {
        k
    } else {
        hashes_from(ppm, k + 1)
    }
}

/// Bits per window for `capacity` items and `k` hashes: ceil(capacity * k / ln 2),
/// with 1/ln 2 taken as 1.443; at least one bit.
pub open spec fn bits_for(capacity: int, k: int) -> int {
    let n = if capacity > 0 {
        capacity
    } else {
        1
    };
    (n * k * 1443 + 999) / 1000
}

/// A Bloom filter over two windows: ids are added to the current window, and
/// when it holds `capacity` ids it becomes the previous window and a fresh one
/// starts. An id is reported seen when either window holds it.
pub struct SlidingBloomFilter {
    current: Vec<bool>,
    previous: Vec<bool>,
    num_hashes: usize,
    capacity: usize,
    inserted: usize,
}

impl SlidingBloomFilter {
    pub closed spec fn current_bits(&self) -> Seq<bool> {
        self.current@
    }

    pub closed spec fn previous_bits(&self) -> Seq<bool> {
        self.previous@
    }

    pub closed spec fn hashes(&self) -> int {
        self.num_hashes as int
    }

    pub closed spec fn window_capacity(&self) -> int {
        self.capacity as int
    }

    /// Ids added to the current window.
    pub closed spec fn inserted(&self) -> int {
        self.inserted as int
    }

    /// The filter's windows.
    pub open spec fn windows(&self) -> BloomWindows {
        BloomWindows {
            current: self.current_bits(),
            previous: self.previous_bits(),
            inserted: self.inserted(),
        }
    }

    /// Windows of equal, non-zero size and a count within the capacity.
    pub open spec fn wf(&self) -> bool {
        &&& self.current_bits().len() > 0
        &&& self.previous_bits().len() == self.current_bits().len()
        &&& self.current_bits().len() <= usize::MAX
        &&& 1 <= self.hashes() <= 20
        &&& 0 <= self.inserted() <= self.window_capacity()
        &&& self.window_capacity() >= 1
    }

    /// Whether the filter reports `id` as seen.
    pub open spec fn holds(&self, id: [u8; 32]) -> bool {
        windows_hold(self.windows(), id, self.hashes())
    }

    /// A filter for windows of `capacity` ids with a false-positive rate of
    /// `false_positives_per_million` per million.
    pub fn new(capacity: usize, false_positives_per_million: u32) -> (f: Self)
        requires
            1 <= false_positives_per_million <= 1_000_000,
            bits_for(capacity as int, hashes_for(false_positives_per_million as int))
                <= usize::MAX,
        ensures
            f.wf(),
            f.hashes() == hashes_for(false_positives_per_million as int),
            f.window_capacity() == (if capacity > 0 {
                capacity as int
            } else {
                1
            }),
            f.inserted() == 0,
            f.current_bits().len() == bits_for(capacity as int, f.hashes()),
            forall|j: int| 0 <= j < f.current_bits().len() ==> !#[trigger] f.current_bits()[j],
            forall|j: int| 0 <= j < f.previous_bits().len() ==> !#[trigger] f.previous_bits()[j],
    {
        let k = hash_count(false_positives_per_million);
        let n: usize = if capacity > 0 {
            capacity
        } else {
            1
        };
        assert(n as int * k as int * 1443 <= 0xffff_ffff_ffff_ffff * 20 * 1443) by (nonlinear_arith)
            requires
                n <= 0xffff_ffff_ffff_ffff,
                1 <= k <= 20,
        ;
        let m128: u128 = (n as u128 * k as u128 * 1443 + 999) / 1000;
        let m = m128 as usize;
        assert(m >= 1) by (nonlinear_arith)
            requires
                m as int == (n as int * k as int * 1443 + 999) / 1000,
                n >= 1,
                k >= 1,
        ;
        let current = empty_bits(m);
        let previous = empty_bits(m);
        SlidingBloomFilter { current, previous, num_hashes: k, capacity: n, inserted: 0 }
    }

    /// Whether all bit positions of `id` are set in `bits`.
    fn all_set(bits: &Vec<bool>, id: &[u8; 32], k: usize) -> (b: bool)
        requires
            bits@.len() > 0,
            k <= 20,
        ensures
            b == all_bits_set(bits@, *id, k as int),
    {
        let m = bits.len();
        let mut i: usize = 0;
        while i < k
            invariant
                m == bits@.len(),
                m > 0,
                i <= k,
                k <= 20,
                forall|j: int| 0 <= j < i ==> #[trigger] bits@[bit_position(*id, j, m as int)],
            decreases k - i,
        {
            let pos = position(id, i, m);
            if !bits[pos] {
                return false;
            }
            i += 1;
        }
        true
    }

    /// Whether the filter reports `id` as seen.
    pub fn contains(&self, id: &[u8; 32]) -> (seen: bool)
        requires
            self.wf(),
        ensures
            seen == self.holds(*id),
    {
        Self::all_set(&self.current, id, self.num_hashes) || Self::all_set(
            &self.previous,
            id,
            self.num_hashes,
        )
    }

    /// Adds `id` to the current window, first rotating the windows if the
    /// current one is full.
    pub fn add(&mut self, id: &[u8; 32])
        requires
            old(self).wf(),
        ensures
            final(self).wf(),
            final(self).hashes() == old(self).hashes(),
            final(self).window_capacity() == old(self).window_capacity(),
            final(self).windows() == windows_added(
                old(self).windows(),
                *id,
                old(self).hashes(),
                old(self).window_capacity(),
            ),
    {
        let m = self.current.len();
        if self.inserted >= self.capacity {
            let mut fresh = empty_bits(m);
            std::mem::swap(&mut fresh, &mut self.current);
            self.previous = fresh;
            self.inserted = 0;
            assert(self.current@ =~= Seq::new(m as nat, |j: int| false));
        }
        let ghost before = self.current@;
        let ghost prev = self.previous@;
        let ghost inserted = self.inserted;
        let k = self.num_hashes;
        let mut i: usize = 0;
        while i < k
            invariant
                m == self.current@.len(),
                m == before.len(),
                m > 0,
                i <= k,
                k == self.num_hashes,
                1 <= k <= 20,
                self.previous@ == prev,
                prev.len() == m,
                self.inserted == inserted,
                inserted < self.capacity,
                self.capacity == old(self).capacity,
                forall|j: int|
                    0 <= j < m ==> #[trigger] self.current@[j] == (before[j] || exists|t: int|
                        0 <= t < i && bit_position(*id, t, m as int) == j),
            decreases k - i,
        {
            let pos = position(id, i, m);
            self.current.set(pos, true);
            assert forall|j: int| 0 <= j < m implies #[trigger] self.current@[j] == (before[j]
                || exists|t: int| 0 <= t < i + 1 && bit_position(*id, t, m as int) == j) by {
                if j == pos {
                    assert(bit_position(*id, i as int, m as int) == j);
                }
            }
            i += 1;
        }
        self.inserted = self.inserted + 1;
        assert(self.current@ =~= marked(before, *id, k as int));
    }

    /// Reports whether `id` was already seen and, if not, adds it.
    pub fn check_and_add(&mut self, id: &[u8; 32]) -> (seen: bool)
        requires
            old(self).wf(),
        ensures
            seen == old(self).holds(*id),
            final(self).wf(),
            final(self).hashes() == old(self).hashes(),
            final(self).window_capacity() == old(self).window_capacity(),
            final(self).windows() == (if seen {
                old(self).windows()
            } else {
                windows_added(old(self).windows(), *id, old(self).hashes(), old(self).window_capacity())
            }),
            final(self).holds(*id),
    {
        if self.contains(id) {
            return true;
        }
        self.add(id);
        proof {
            lemma_added_holds(old(self).windows(), *id, old(self).hashes(), old(self).window_capacity());
        }
        false
    }
}

/// After `id` is added, the windows hold it.
pub proof fn lemma_added_holds(w: BloomWindows, id: [u8; 32], k: int, capacity: int)
    requires
        w.current.len() > 0,
    ensures
        windows_hold(windows_added(w, id, k, capacity), id, k),
{
    let base = if w.inserted < capacity {
        w.current
    } else {
        Seq::new(w.current.len(), |j: int| false)
    };
    let m = base.len() as int;
    let bits = marked(base, id, k);
    assert forall|i: int| 0 <= i < k implies #[trigger] bits[bit_position(id, i, m)] by {
        let j = bit_position(id, i, m);
        assert(0 <= j < m);
    }
}

/// Marking one id keeps every bit already set.
pub proof fn lemma_marked_keeps(bits: Seq<bool>, x: [u8; 32], y: [u8; 32], k: int)
    requires
        bits.len() > 0,
        all_bits_set(bits, x, k),
    ensures
        all_bits_set(marked(bits, y, k), x, k),
{
    let m = bits.len() as int;
    let out = marked(bits, y, k);
    assert forall|i: int| 0 <= i < k implies #[trigger] out[bit_position(x, i, m)] by {
        assert(bits[bit_position(x, i, m)]);
        assert(0 <= bit_position(x, i, m) < m);
    }
}

/// An id held by the current window is still reported after one more id is
/// added: marking only sets bits, and a full current window becomes the
/// previous one.
pub proof fn lemma_add_keeps_current(w: BloomWindows, x: [u8; 32], y: [u8; 32], k: int, capacity: int)
    requires
        w.current.len() > 0,
        all_bits_set(w.current, x, k),
    ensures
        windows_hold(windows_added(w, y, k, capacity), x, k),
{
    if w.inserted < capacity {
        lemma_marked_keeps(w.current, x, y, k);
    }
}

/// The windows after checking each of `ids` in turn, adding those not held.
pub open spec fn checked_all(w: BloomWindows, ids: Seq<[u8; 32]>, k: int, capacity: int) -> BloomWindows
    decreases ids.len(),
{
    if ids.len() == 0 {
        w
    } else {
        let w1 = if windows_hold(w, ids[0], k) {
            w
        } else {
            windows_added(w, ids[0], k, capacity)
        };
        checked_all(w1, ids.drop_first(), k, capacity)
    }
}

/// While the current window has room for the remaining checks, no rotation
/// happens: what the previous window holds stays there.
proof fn lemma_previous_stays(w: BloomWindows, x: [u8; 32], ids: Seq<[u8; 32]>, k: int, capacity: int)
    requires
        all_bits_set(w.previous, x, k),
        w.inserted + ids.len() <= capacity,
    ensures
        all_bits_set(checked_all(w, ids, k, capacity).previous, x, k),
    decreases ids.len(),
{
    if ids.len() > 0 {
        let w1 = if windows_hold(w, ids[0], k) {
            w
        } else {
            windows_added(w, ids[0], k, capacity)
        };
        lemma_previous_stays(w1, x, ids.drop_first(), k, capacity);
    }
}

/// An id in the current window is reported seen through any `capacity`
/// further checks: it stays in the current window until that fills, then
/// moves to the previous one, which a second rotation would need `capacity`
/// more additions to clear.
proof fn lemma_current_stays(w: BloomWindows, x: [u8; 32], ids: Seq<[u8; 32]>, k: int, capacity: int)
    requires
        w.current.len() > 0,
        all_bits_set(w.current, x, k),
        w.inserted <= capacity,
        ids.len() <= capacity,
    ensures
        windows_hold(checked_all(w, ids, k, capacity), x, k),
    decreases ids.len(),
{
    if ids.len() > 0 {
        let y = ids[0];
        let rest = ids.drop_first();
        if windows_hold(w, y, k) {
            lemma_current_stays(w, x, rest, k, capacity);
        } else if w.inserted < capacity {
            lemma_marked_keeps(w.current, x, y, k);
            lemma_current_stays(windows_added(w, y, k, capacity), x, rest, k, capacity);
        } else {
            lemma_previous_stays(windows_added(w, y, k, capacity), x, rest, k, capacity);
        }
    }
}

/// An added id is in the current window, and a window of at least one id
/// keeps its count within the capacity.
pub proof fn lemma_added_in_current(w: BloomWindows, x: [u8; 32], k: int, capacity: int)
    requires
        w.current.len() > 0,
        w.previous.len() == w.current.len(),
        capacity >= 1,
        0 <= w.inserted <= capacity,
    ensures
        all_bits_set(windows_added(w, x, k, capacity).current, x, k),
        windows_added(w, x, k, capacity).current.len() == w.current.len(),
        windows_added(w, x, k, capacity).previous.len() == w.current.len(),
        1 <= windows_added(w, x, k, capacity).inserted <= capacity,
{
    let base = if w.inserted < capacity {
        w.current
    } else {
        Seq::new(w.current.len(), |j: int| false)
    };
    let m = base.len() as int;
    let bits = marked(base, x, k);
    assert forall|i: int| 0 <= i < k implies #[trigger] bits[bit_position(x, i, m)] by {
        assert(0 <= bit_position(x, i, m) < m);
    }
}

/// Duplicate suppression window: an id the filter did not hold is, once
/// checked, reported seen through at least the next `capacity` checks.
pub proof fn lemma_seen_through_capacity(w: BloomWindows, x: [u8; 32], ids: Seq<[u8; 32]>, k: int, capacity: int)
    requires
        w.current.len() > 0,
        w.previous.len() == w.current.len(),
        capacity >= 1,
        0 <= w.inserted <= capacity,
        !windows_hold(w, x, k),
        ids.len() <= capacity,
    ensures
        windows_hold(checked_all(w, seq![x] + ids, k, capacity), x, k),
{
    assert((seq![x] + ids)[0] == x);
    assert((seq![x] + ids).drop_first() =~= ids);
    lemma_added_in_current(w, x, k, capacity);
    lemma_current_stays(windows_added(w, x, k, capacity), x, ids, k, capacity);
}

/// `m` cleared bits.
fn empty_bits(m: usize) -> (bits: Vec<bool>)
    ensures
        bits@ == Seq::new(m as nat, |j: int| false),
{
    let mut bits: Vec<bool> = Vec::new();
    let mut i: usize = 0;
    while i < m
        invariant
            i <= m,
            bits@ == Seq::new(i as nat, |j: int| false),
        decreases m - i,
    {
        bits.push(false);
        i += 1;
        assert(bits@ =~= Seq::new(i as nat, |j: int| false));
    }
    bits
}

/// Hash functions for a false-positive rate of `ppm` per million.
fn hash_count(ppm: u32) -> (k: usize)
    requires
        1 <= ppm <= 1_000_000,
    ensures
        k == hashes_for(ppm as int),
        1 <= k <= 20,
{
    let mut k: usize = 1;
    let mut scale: u64 = 2;
    proof {
        vstd::arithmetic::power2::lemma2_to64();
    }
    loop
        invariant
            1 <= k <= 20,
            1 <= ppm <= 1_000_000,
            scale == vstd::arithmetic::power2::pow2(k as nat),
            scale <= 0x10_0000,
            hashes_for(ppm as int) == hashes_from(ppm as int, k as int),
        ensures
            k == hashes_for(ppm as int),
            1 <= k <= 20,
        decreases 20 - k,
    {
        if k >= 20 {
            assert(hashes_from(ppm as int, k as int) == k);
            break;
        }
        assert(scale as int * ppm as int <= 0x10_0000 * 1_000_000) by (nonlinear_arith)
            requires
                scale <= 0x10_0000,
                ppm <= 1_000_000,
        ;
        if scale * (ppm as u64) >= 1_000_000 {
            assert(hashes_from(ppm as int, k as int) == k);
            break;
        }
        proof {
            vstd::arithmetic::power2::lemma2_to64();
            vstd::arithmetic::power2::lemma_pow2_unfold((k + 1) as nat);
            if k + 1 < 20 {
                vstd::arithmetic::power2::lemma_pow2_strictly_increases((k + 1) as nat, 20);
            }
        }
        k += 1;
        scale = scale * 2;
    }
    k
}

/// The `i`-th bit position of `id` in `m` bits.
fn position(id: &[u8; 32], i: usize, m: usize) -> (pos: usize)
    requires
        m > 0,
        i < 20,
    ensures
        pos == bit_position(*id, i as int, m as int),
        pos < m,
{
    let h1 = hash_bytes(id, 257, HASH_PRIME_A);
    let h2 = hash_bytes(id, 263, HASH_PRIME_B);
    assert(i as int * (h2 as int + 1) <= 20 * 0x1_0000_0000) by (nonlinear_arith)
        requires
            i < 20,
            h2 < 0x1_0000_0000,
    ;
    let v: u64 = h1 + i as u64 * (h2 + 1);
    (v % (m as u64)) as usize
}

/// Polynomial hash of the 32 bytes of `id`.
fn hash_bytes(id: &[u8; 32], mult: u64, p: u64) -> (h: u64)
    requires
        2 <= mult <= 1000,
        1 <= p < 0x1_0000_0000,
    ensures
        h == poly_hash(id@, mult as int, p as int),
        h < p,
{
    let mut h: u64 = 0;
    let mut j: usize = 0;
    while j < 32
        invariant
            j <= 32,
            2 <= mult <= 1000,
            1 <= p < 0x1_0000_0000,
            h < p,
            h == poly_hash(id@.take(j as int), mult as int, p as int),
        decreases 32 - j,
    {
        assert(h as int * mult as int + 255 < 0x1_0000_0000 * 1001) by (nonlinear_arith)
            requires
                h < 0x1_0000_0000,
                mult <= 1000,
        ;
        proof {
            assert(id@.take(j + 1).drop_last() =~= id@.take(j as int));
        }
        h = (h * mult + id[j] as u64) % p;
        j += 1;
    }
    assert(id@.take(32) =~= id@);
    h
}

} // verus!
