//! Comparison of 32-byte public keys and message ids.
use vstd::prelude::*;

verus! {

/// Byte-wise equality of two 32-byte keys.
pub fn same_key(a: &[u8; 32], b: &[u8; 32]) -> (eq: bool)
    ensures
        eq == (*a == *b),
{
    let mut i: usize = 0;
    while i < 32
        invariant
            i <= 32,
            forall|j: int| 0 <= j < i ==> a[j] == b[j],
        decreases 32 - i,
    {
        if a[i] != b[i] {
            return false;
        }
        i += 1;
    }
    assert(*a =~= *b);
    true
}

/// `i` is the first position of key `k` among the entries.
pub open spec fn first_at<V>(s: Seq<([u8; 32], V)>, k: [u8; 32], i: int) -> bool {
    &&& 0 <= i < s.len()
    &&& s[i].0 == k
    &&& forall|j: int| 0 <= j < i ==> s[j].0 != k
}

/// Some entry has key `k`.
pub open spec fn has_key<V>(s: Seq<([u8; 32], V)>, k: [u8; 32]) -> bool {
    exists|i: int| 0 <= i < s.len() && s[i].0 == k
}

/// Position of the (first) entry for `k`.
pub open spec fn key_pos<V>(s: Seq<([u8; 32], V)>, k: [u8; 32]) -> int {
    choose|i: int| first_at(s, k, i)
}

/// The value recorded under `k`.
pub open spec fn lookup<V>(s: Seq<([u8; 32], V)>, k: [u8; 32]) -> Option<V> {
    if has_key(s, k) {
        Some(s[key_pos(s, k)].1)
    } else {
        None
    }
}

/// No key occurs twice.
pub open spec fn unique_keys<V>(s: Seq<([u8; 32], V)>) -> bool {
    forall|i: int, j: int| 0 <= i < j < s.len() ==> s[i].0 != s[j].0
}

/// An entry whose key is not `k`.
pub open spec fn key_differs<V>(k: [u8; 32]) -> spec_fn(([u8; 32], V)) -> bool {
    |e: ([u8; 32], V)| e.0 != k
}

/// The entries without the one for `k`.
pub open spec fn without_key<V>(s: Seq<([u8; 32], V)>, k: [u8; 32]) -> Seq<([u8; 32], V)> {
    s.filter(key_differs(k))
}

/// `first_at` singles out one position.
pub proof fn lemma_first_at_unique<V>(s: Seq<([u8; 32], V)>, k: [u8; 32], i: int, j: int)
    requires
        first_at(s, k, i),
        first_at(s, k, j),
    ensures
        i == j,
{
}

/// The first position of a present key is the one `key_pos` names.
pub proof fn lemma_key_pos<V>(s: Seq<([u8; 32], V)>, k: [u8; 32], i: int)
    requires
        first_at(s, k, i),
    ensures
        has_key(s, k),
        key_pos(s, k) == i,
{
    assert(first_at(s, k, i));
    let c = key_pos(s, k);
    lemma_first_at_unique(s, k, i, c);
}

/// A present key has a first position.
pub proof fn lemma_has_key_first<V>(s: Seq<([u8; 32], V)>, k: [u8; 32])
    requires
        has_key(s, k),
    ensures
        first_at(s, k, key_pos(s, k)),
    decreases s.len(),
{
    let t = s.drop_last();
    assert(forall|j: int| 0 <= j < t.len() ==> t[j] == s[j]);
    if has_key(t, k) {
        lemma_has_key_first(t, k);
        let i = key_pos(t, k);
        assert(first_at(s, k, i));
        lemma_key_pos(s, k, i);
    } else {
        assert forall|j: int| 0 <= j < s.len() - 1 implies s[j].0 != k by {
            if s[j].0 == k {
                assert(t[j].0 == k);
            }
        }
        let i = choose|i: int| 0 <= i < s.len() && s[i].0 == k;
        assert(i == s.len() - 1);
        assert(first_at(s, k, s.len() - 1));
        lemma_key_pos(s, k, s.len() - 1);
    }
}

/// With unique keys, the value found under a key is the one of its entry.
pub proof fn lemma_unique_lookup<V>(s: Seq<([u8; 32], V)>, k: [u8; 32], i: int)
    requires
        unique_keys(s),
        0 <= i < s.len(),
        s[i].0 == k,
    ensures
        lookup(s, k) == Some(s[i].1),
{
    assert(first_at(s, k, i));
    lemma_key_pos(s, k, i);
}

/// Replacing an entry by one with the same key keeps keys unique.
pub proof fn lemma_update_keeps_unique<V>(s: Seq<([u8; 32], V)>, i: int, e: ([u8; 32], V))
    requires
        unique_keys(s),
        0 <= i < s.len(),
        e.0 == s[i].0,
    ensures
        unique_keys(s.update(i, e)),
{
    let t = s.update(i, e);
    assert forall|a: int, b: int| 0 <= a < b < t.len() implies t[a].0 != t[b].0 by {
        assert(t[a].0 == s[a].0 && t[b].0 == s[b].0);
    }
}

/// Appending an entry for a key not present keeps keys unique.
pub proof fn lemma_push_keeps_unique<V>(s: Seq<([u8; 32], V)>, e: ([u8; 32], V))
    requires
        unique_keys(s),
        !has_key(s, e.0),
    ensures
        unique_keys(s.push(e)),
{
    let t = s.push(e);
    assert forall|a: int, b: int| 0 <= a < b < t.len() implies t[a].0 != t[b].0 by {
        if b == s.len() {
            assert(t[a] == s[a]);
        } else {
            assert(t[a] == s[a] && t[b] == s[b]);
        }
    }
}

/// Removing an entry keeps keys unique.
pub proof fn lemma_remove_keeps_unique<V>(s: Seq<([u8; 32], V)>, i: int)
    requires
        unique_keys(s),
        0 <= i < s.len(),
    ensures
        unique_keys(s.remove(i)),
{
    let t = s.remove(i);
    assert forall|a: int, b: int| 0 <= a < b < t.len() implies t[a].0 != t[b].0 by {
        let sa = if a < i {
            a
        } else {
            a + 1
        };
        let sb = if b < i {
            b
        } else {
            b + 1
        };
        assert(t[a] == s[sa] && t[b] == s[sb]);
    }
}

/// Keeping some of the entries keeps keys unique.
pub proof fn lemma_filter_keeps_unique<V>(s: Seq<([u8; 32], V)>, p: spec_fn(([u8; 32], V)) -> bool)
    requires
        unique_keys(s),
    ensures
        unique_keys(s.filter(p)),
    decreases s.len(),
{
    if s.len() > 0 {
        let t = s.drop_last();
        assert(unique_keys(t));
        lemma_filter_keeps_unique(t, p);
        assert(t.push(s.last()) =~= s);
        t.lemma_filter_push(s.last(), p);
        if p(s.last()) {
            if has_key(t.filter(p), s.last().0) {
                let j = choose|j: int| 0 <= j < t.filter(p).len() && t.filter(p)[j].0 == s.last().0;
                let e = t.filter(p)[j];
                t.lemma_filter_contains_rev(p, e);
                let q = choose|q: int| 0 <= q < t.len() && t[q] == e;
                assert(s[q].0 == s[s.len() - 1].0);
            }
            lemma_push_keeps_unique(t.filter(p), s.last());
        }
    }
}

/// Changing entries without touching their keys keeps keys unique.
pub proof fn lemma_map_keeps_unique<V>(s: Seq<([u8; 32], V)>, f: spec_fn(([u8; 32], V)) -> ([u8; 32], V))
    requires
        unique_keys(s),
        forall|i: int| 0 <= i < s.len() ==> (#[trigger] f(s[i])).0 == s[i].0,
    ensures
        unique_keys(s.map_values(f)),
{
    let t = s.map_values(f);
    assert forall|a: int, b: int| 0 <= a < b < t.len() implies t[a].0 != t[b].0 by {
        assert(t[a] == f(s[a]) && t[b] == f(s[b]));
    }
}

/// Two entry lists with the same keys at the same positions agree on where
/// a key is.
pub proof fn lemma_same_keys<A, B>(a: Seq<([u8; 32], A)>, b: Seq<([u8; 32], B)>, k: [u8; 32])
    requires
        a.len() == b.len(),
        forall|i: int| 0 <= i < a.len() ==> #[trigger] a[i].0 == b[i].0,
    ensures
        has_key(a, k) == has_key(b, k),
        has_key(a, k) ==> key_pos(a, k) == key_pos(b, k),
{
    if has_key(a, k) {
        lemma_has_key_first(a, k);
        let i = key_pos(a, k);
        assert forall|j: int| 0 <= j < i implies b[j].0 != k by {
            assert(a[j].0 == b[j].0);
        }
        assert(a[i].0 == b[i].0);
        assert(first_at(b, k, i));
        lemma_key_pos(b, k, i);
    } else if has_key(b, k) {
        let i = choose|i: int| 0 <= i < b.len() && b[i].0 == k;
        assert(a[i].0 == k);
    }
}

/// The position of `k`'s first entry, if any.
pub fn find_key<V>(entries: &Vec<([u8; 32], V)>, k: &[u8; 32]) -> (pos: Option<usize>)
    ensures
        match pos {
            Some(i) => first_at(entries@, *k, i as int) && key_pos(entries@, *k) == i,
            None => !has_key(entries@, *k),
        },
{
    let n = entries.len();
    let mut i: usize = 0;
    while i < n
        invariant
            n == entries@.len(),
            i <= n,
            forall|j: int| 0 <= j < i ==> entries@[j].0 != *k,
        decreases n - i,
    {
        if same_key(&entries[i].0, k) {
            proof {
                lemma_key_pos(entries@, *k, i as int);
            }
            return Some(i);
        }
        i += 1;
    }
    None
}

} // verus!
