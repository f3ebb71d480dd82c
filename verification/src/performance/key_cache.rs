//! Bounded cache of derived key material.
//!
//! Keys are cached under the SHA-256 digests of password and salt and the
//! output length; at most `capacity` entries are kept, and the oldest one is
//! evicted to make room.  The derivation itself is supplied by the caller.
use vstd::prelude::*;

use crate::crypto::{sha256, sha256_collides, spec_sha256};
use crate::util::{bytes_eq, copy_bytes, copy_str};

verus! {

/// Errors of the derived-key cache.
#[derive(Debug, Clone, PartialEq, Eq)]
pub enum CacheError {
    /// The output length is not between 1 and 64.
    InvalidOutputLength,
    /// The capacity is 0.
    InvalidCapacity,
    /// Key derivation failed, for this reason.
    DerivationFailed(String),
}

/// Cache statistics.
#[derive(Debug, Clone, Copy, PartialEq, Eq, Structural)]
pub struct CacheStats {
    /// Entries cached now.
    pub size: usize,
    /// Maximum number of entries.
    pub capacity: usize,
    /// Hits since creation (saturating).
    pub total_hits: u64,
    /// Misses since creation (saturating).
    pub total_misses: u64,
}

/// The identity of a cache entry: password digest, salt digest, output length.
pub type CacheKeyView = (Seq<u8>, Seq<u8>, usize);

/// The cache key of a request.
pub open spec fn cache_key(password: Seq<u8>, salt: Seq<u8>, output_len: usize) -> CacheKeyView {
    (spec_sha256(password), spec_sha256(salt), output_len)
}

struct CacheKey {
    password_hash: Vec<u8>,
    salt_hash: Vec<u8>,
    output_len: usize,
}

impl CacheKey {
    spec fn view_key(&self) -> CacheKeyView {
        (self.password_hash@, self.salt_hash@, self.output_len)
    }

    fn new(password: &[u8], salt: &[u8], output_len: usize) -> (k: Self)
        ensures
            k.view_key() == cache_key(password@, salt@, output_len),
    {
        CacheKey { password_hash: sha256(password), salt_hash: sha256(salt), output_len }
    }

    fn same(&self, other: &CacheKey) -> (b: bool)
        ensures
            b == (self.view_key() == other.view_key()),
    {
        self.output_len == other.output_len && bytes_eq(self.password_hash.as_slice(), other.password_hash.as_slice())
            && bytes_eq(self.salt_hash.as_slice(), other.salt_hash.as_slice())
    }
}

struct CacheEntry {
    key: CacheKey,
    key_bytes: Vec<u8>,
}

/// `a + 1`, saturating at `u64::MAX`.
pub open spec fn bump(a: u64) -> u64 {
    if a == u64::MAX {
        a
    } else {
        (a + 1) as u64
    }
}

/// Bounded derived-key cache.
pub struct DerivedKeyCache {
    capacity: usize,
    entries: Vec<CacheEntry>,
    total_hits: u64,
    total_misses: u64,
}

impl DerivedKeyCache {
    #[verifier::type_invariant]
    spec fn wf(self) -> bool {
        &&& self.capacity >= 1
        &&& self.entries@.len() <= self.capacity
        &&& forall|i: int, j: int|
            0 <= i < self.entries@.len() && 0 <= j < self.entries@.len() && i != j
                ==> #[trigger] self.entries@[i].key.view_key() != #[trigger] self.entries@[j].key.view_key()
        &&& forall|i: int|
            0 <= i < self.entries@.len() ==> #[trigger] self.entries@[i].key_bytes@.len() == self.entries@[i].key.output_len
    }

    /// The cached keys, oldest first.
    pub closed spec fn spec_order(&self) -> Seq<CacheKeyView> {
        self.entries@.map_values(|e: CacheEntry| e.key.view_key())
    }

    /// The cached key material, in the order of [`DerivedKeyCache::spec_order`].
    pub closed spec fn spec_values(&self) -> Seq<Seq<u8>> {
        self.entries@.map_values(|e: CacheEntry| e.key_bytes@)
    }

    /// The cache's facts: at most `capacity` entries, no key twice, one value
    /// per key, each value as long as its key's output length.
    fn cache_facts(&self)
        ensures
            self.spec_order().len() == self.spec_values().len(),
            self.spec_order().len() <= self.spec_capacity(),
            self.spec_capacity() >= 1,
            self.spec_order().no_duplicates(),
            forall|i: int| 0 <= i < self.spec_order().len() ==> #[trigger] self.spec_values()[i].len() == self.spec_order()[i].2,
    {
        proof {
        use_type_invariant(self);
        assert forall|i: int| 0 <= i < self.spec_order().len() implies #[trigger] self.spec_values()[i].len()
            == self.spec_order()[i].2 by {
            assert(self.entries@[i].key_bytes@.len() == self.entries@[i].key.output_len);
        }
        assert forall|i: int, j: int|
            0 <= i < self.spec_order().len() && 0 <= j < self.spec_order().len() && i != j implies self.spec_order()[i]
            != self.spec_order()[j] by {
            assert(self.entries@[i].key.view_key() != self.entries@[j].key.view_key());
        }
        }
    }

    /// The maximum number of entries.
    pub closed spec fn spec_capacity(&self) -> usize {
        self.capacity
    }

    /// Hits since creation.
    pub closed spec fn spec_hits(&self) -> u64 {
        self.total_hits
    }

    /// Misses since creation.
    pub closed spec fn spec_misses(&self) -> u64 {
        self.total_misses
    }

    /// A cache for at most `capacity` entries; fails with `InvalidCapacity`
    /// when `capacity` is 0.
    pub fn new(capacity: usize) -> (res: Result<Self, CacheError>)
        ensures
            capacity == 0 ==> res == Err::<DerivedKeyCache, CacheError>(CacheError::InvalidCapacity),
            capacity > 0 ==> (res matches Ok(c) && c.spec_capacity() == capacity && c.spec_order().len() == 0
                && c.spec_hits() == 0 && c.spec_misses() == 0),
    {
        if capacity == 0 {
            return Err(CacheError::InvalidCapacity);
        }
        Ok(DerivedKeyCache { capacity, entries: Vec::new(), total_hits: 0, total_misses: 0 })
    }

    fn find(&self, key: &CacheKey) -> (r: Option<usize>)
        ensures
            r is None <==> !self.spec_order().contains(key.view_key()),
            r matches Some(i) ==> i < self.entries@.len() && self.spec_order()[i as int] == key.view_key(),
    {
        let mut i: usize = 0;
        while i < self.entries.len()
            invariant
                0 <= i <= self.entries@.len(),
                forall|j: int| 0 <= j < i ==> #[trigger] self.spec_order()[j] != key.view_key(),
            decreases self.entries@.len() - i,
        {
            assert(self.spec_order()[i as int] == self.entries@[i as int].key.view_key());
            if self.entries[i].key.same(key) {
                assert(self.spec_order()[i as int] == self.entries@[i as int].key.view_key());
                assert(self.spec_order().contains(key.view_key()));
                return Some(i);
            }
            i = i + 1;
        }
        assert(!self.spec_order().contains(key.view_key())) by {
            if self.spec_order().contains(key.view_key()) {
                let k = choose|k: int| 0 <= k < self.spec_order().len() && self.spec_order()[k] == key.view_key();
                assert(self.spec_order()[k] != key.view_key());
            }
        }
        None
    }
}

/// The key material cached for `k`, if any.
pub open spec fn lookup(order: Seq<CacheKeyView>, values: Seq<Seq<u8>>, k: CacheKeyView) -> Option<Seq<u8>> {
    if order.contains(k) {
        Some(values[order.index_of(k)])
    } else {
        None
    }
}

/// The order after adding `k` to a cache with `capacity`: the oldest entry
/// leaves first when the cache is full.
pub open spec fn order_after_add(order: Seq<CacheKeyView>, capacity: usize, k: CacheKeyView) -> Seq<CacheKeyView> {
    if order.len() >= capacity {
        order.drop_first().push(k)
    } else {
        order.push(k)
    }
}

/// The values after adding `v`, matching [`order_after_add`].
pub open spec fn values_after_add(values: Seq<Seq<u8>>, capacity: usize, v: Seq<u8>) -> Seq<Seq<u8>> {
    if values.len() >= capacity {
        values.drop_first().push(v)
    } else {
        values.push(v)
    }
}

impl DerivedKeyCache {
    /// The cached key for `password`, `salt` and `output_len`, deriving it
    /// with `derive` on a miss.
    ///
    /// Fails with `InvalidOutputLength` unless `1 <= output_len <= 64`.  A
    /// hit returns the cached bytes and counts a hit.  A miss counts a miss,
    /// derives, fails with `DerivationFailed` when the derived key is shorter
    /// than `output_len`, and otherwise caches and returns its first
    /// `output_len` bytes, evicting the oldest entry when the cache is full.
    pub fn get_or_derive<F: Fn(&[u8], &[u8]) -> Vec<u8>>(
        &mut self,
        password: &[u8],
        salt: &[u8],
        output_len: usize,
        derive: F,
    ) -> (res: Result<Vec<u8>, CacheError>)
        requires
            derive.requires((password, salt)),
        ensures
            final(self).spec_capacity() == old(self).spec_capacity(),
            final(self).spec_order().len() <= final(self).spec_capacity(),
            final(self).spec_order().no_duplicates(),
            forall|i: int| 0 <= i < final(self).spec_order().len() ==> #[trigger] final(self).spec_values()[i].len()
                == final(self).spec_order()[i].2,
            res matches Ok(v) ==> v@.len() == output_len,
            output_len == 0 || output_len > 64 ==> res == Err::<Vec<u8>, CacheError>(CacheError::InvalidOutputLength)
                && final(self).spec_order() == old(self).spec_order() && final(self).spec_values() == old(
                self,
            ).spec_values() && final(self).spec_hits() == old(self).spec_hits() && final(self).spec_misses() == old(
                self,
            ).spec_misses(),
            1 <= output_len <= 64 ==> ({
                let k = cache_key(password@, salt@, output_len);
                &&& old(self).spec_order().contains(k) ==> (res matches Ok(v) && Some(v@) == lookup(
                    old(self).spec_order(),
                    old(self).spec_values(),
                    k,
                )) && final(self).spec_order() == old(self).spec_order() && final(self).spec_values() == old(
                    self,
                ).spec_values() && final(self).spec_hits() == bump(old(self).spec_hits()) && final(self).spec_misses()
                    == old(self).spec_misses()
                &&& !old(self).spec_order().contains(k) ==> final(self).spec_misses() == bump(old(self).spec_misses())
                    && final(self).spec_hits() == old(self).spec_hits() && exists|d: Vec<u8>|
                    #![trigger derive.ensures((password, salt), d)]
                    derive.ensures((password, salt), d) && (d@.len() < output_len ==> (res matches Err(
                        CacheError::DerivationFailed(m),
                    ) && m@ == "derived key is shorter than the requested length"@) && final(self).spec_order() == old(self).spec_order() && final(self).spec_values() == old(
                        self,
                    ).spec_values()) && (d@.len() >= output_len ==> (res matches Ok(v) && v@ == d@.take(
                        output_len as int,
                    )) && final(self).spec_order() == order_after_add(old(self).spec_order(), old(self).spec_capacity(), k)
                        && final(self).spec_values() == values_after_add(
                        old(self).spec_values(),
                        old(self).spec_capacity(),
                        d@.take(output_len as int),
                    ))
            }),
    {
        proof {
            use_type_invariant(&*self);
        }
        self.cache_facts();
        if output_len == 0 || output_len > 64 {
            return Err(CacheError::InvalidOutputLength);
        }
        let entry_key = CacheKey::new(password, salt, output_len);
        match self.find(&entry_key) {
            Some(i) => {
                proof {
                    let o = self.spec_order();
                    assert(o.contains(entry_key.view_key()));
                    let j = o.index_of(entry_key.view_key());
                    if j != i {
                        assert(o[j] == o[i as int]);
                    }
                    assert(self.spec_values()[i as int] == self.entries@[i as int].key_bytes@);
                    assert(self.entries@[i as int].key_bytes@.len() == self.entries@[i as int].key.output_len);
                }
                self.total_hits = self.total_hits.saturating_add(1);
                let v = copy_bytes(self.entries[i].key_bytes.as_slice());
                self.cache_facts();
                return Ok(v);
            },
            None => {},
        }
        self.total_misses = self.total_misses.saturating_add(1);
        let full_key = derive(password, salt);
        let ghost d = full_key;
        if full_key.len() < output_len {
            self.cache_facts();
            return Err(CacheError::DerivationFailed(copy_str("derived key is shorter than the requested length")));
        }
        let key_bytes = copy_bytes(vstd::slice::slice_subrange(full_key.as_slice(), 0, output_len));
        assert(key_bytes@ =~= d@.take(output_len as int));
        let ghost old_order = self.spec_order();
        let ghost old_values = self.spec_values();
        let ghost old_entries = self.entries@;
        proof {
            use_type_invariant(&*self);
        }
        assert(forall|i: int| 0 <= i < old_entries.len() ==> #[trigger] old_entries[i].key_bytes@.len()
            == old_entries[i].key.output_len);
        assert(old_order.len() == old_entries.len());
        let mut entries: Vec<CacheEntry> = Vec::new();
        std::mem::swap(&mut entries, &mut self.entries);
        if entries.len() >= self.capacity {
            entries.remove(0);
        }
        let ghost mid = entries@;
        entries.push(CacheEntry { key: entry_key, key_bytes: copy_bytes(key_bytes.as_slice()) });
        proof {
            let k = cache_key(password@, salt@, output_len);
            let no = entries@.map_values(|e: CacheEntry| e.key.view_key());
            let nv = entries@.map_values(|e: CacheEntry| e.key_bytes@);
            assert(no =~= order_after_add(old_order, self.capacity, k));
            assert(nv =~= values_after_add(old_values, self.capacity, key_bytes@));
            assert forall|i: int, j: int|
                0 <= i < entries@.len() && 0 <= j < entries@.len() && i != j implies #[trigger] entries@[i].key.view_key()
                != #[trigger] entries@[j].key.view_key() by {
                assert(no[i] == entries@[i].key.view_key());
                assert(no[j] == entries@[j].key.view_key());
                if i == entries@.len() - 1 || j == entries@.len() - 1 {
                    let other = if i == entries@.len() - 1 { j } else { i };
                    if old_order.len() >= self.capacity {
                        assert(no[other] == old_order[other + 1]);
                    } else {
                        assert(no[other] == old_order[other]);
                    }
                } else {
                    if old_order.len() >= self.capacity {
                        assert(no[i] == old_order[i + 1]);
                        assert(no[j] == old_order[j + 1]);
                    } else {
                        assert(no[i] == old_order[i]);
                        assert(no[j] == old_order[j]);
                    }
                }
            }
        }
        proof {
            assert forall|i: int| 0 <= i < entries@.len() implies #[trigger] entries@[i].key_bytes@.len()
                == entries@[i].key.output_len by {
                if i < entries@.len() - 1 {
                    if old_order.len() >= self.capacity {
                        assert(entries@[i] == old_entries[i + 1]);
                        assert(old_entries[i + 1].key_bytes@.len() == old_entries[i + 1].key.output_len);
                    } else {
                        assert(entries@[i] == old_entries[i]);
                        assert(old_entries[i].key_bytes@.len() == old_entries[i].key.output_len);
                    }
                } else {
                    assert(entries@[i].key_bytes@.len() == output_len);
                }
            }
        }
        self.entries = entries;
        self.cache_facts();
        Ok(key_bytes)
    }

    /// Remove the entry for `password`, `salt` and `output_len`; returns
    /// whether there was one.  The other entries keep their order.
    pub fn invalidate(&mut self, password: &[u8], salt: &[u8], output_len: usize) -> (removed: bool)
        ensures
            removed == old(self).spec_order().contains(cache_key(password@, salt@, output_len)),
            !removed ==> final(self).spec_order() == old(self).spec_order() && final(self).spec_values() == old(
                self,
            ).spec_values(),
            removed ==> ({
                let i = old(self).spec_order().index_of(cache_key(password@, salt@, output_len));
                &&& final(self).spec_order() == old(self).spec_order().remove(i)
                &&& final(self).spec_values() == old(self).spec_values().remove(i)
            }),
            !final(self).spec_order().contains(cache_key(password@, salt@, output_len)),
            final(self).spec_order().no_duplicates(),
            final(self).spec_capacity() == old(self).spec_capacity(),
            final(self).spec_hits() == old(self).spec_hits(),
            final(self).spec_misses() == old(self).spec_misses(),
    {
        proof {
            use_type_invariant(&*self);
        }
        self.cache_facts();
        let key = CacheKey::new(password, salt, output_len);
        match self.find(&key) {
            Some(i) => {
                proof {
                    let o = self.spec_order();
                    let j = o.index_of(key.view_key());
                    if j != i {
                        assert(o[j] == o[i as int]);
                    }
                }
                let ghost old_entries = self.entries@;
                let mut entries: Vec<CacheEntry> = Vec::new();
                std::mem::swap(&mut entries, &mut self.entries);
                entries.remove(i);
                proof {
                    assert(entries@ =~= old_entries.remove(i as int));
                    assert(entries@.map_values(|e: CacheEntry| e.key.view_key()) =~= old_entries.map_values(
                        |e: CacheEntry| e.key.view_key(),
                    ).remove(i as int));
                    assert(entries@.map_values(|e: CacheEntry| e.key_bytes@) =~= old_entries.map_values(
                        |e: CacheEntry| e.key_bytes@,
                    ).remove(i as int));
                    assert forall|a: int, b: int|
                        0 <= a < entries@.len() && 0 <= b < entries@.len() && a != b implies #[trigger] entries@[a].key.view_key()
                        != #[trigger] entries@[b].key.view_key() by {
                        let a2 = if a < i { a } else { a + 1 };
                        let b2 = if b < i { b } else { b + 1 };
                        assert(entries@[a] == old_entries[a2]);
                        assert(entries@[b] == old_entries[b2]);
                    }
                    assert forall|a: int| 0 <= a < entries@.len() implies #[trigger] entries@[a].key_bytes@.len()
                        == entries@[a].key.output_len by {
                        let a2 = if a < i { a } else { a + 1 };
                        assert(entries@[a] == old_entries[a2]);
                    }
                }
                self.entries = entries;
                proof {
                    lemma_invalidated_key_absent(old(self).spec_order(), key.view_key());
                }
                self.cache_facts();
                true
            },
            None => false,
        }
    }

    /// Remove every entry.
    pub fn clear(&mut self)
        ensures
            final(self).spec_order().len() == 0,
            final(self).spec_values().len() == 0,
            final(self).spec_capacity() == old(self).spec_capacity(),
            final(self).spec_hits() == old(self).spec_hits(),
            final(self).spec_misses() == old(self).spec_misses(),
    {
        proof {
            use_type_invariant(&*self);
        }
        self.entries = Vec::new();
    }

    /// Current statistics.
    pub fn stats(&self) -> (s: CacheStats)
        ensures
            s.size == self.spec_order().len(),
            s.size <= s.capacity,
            s.capacity == self.spec_capacity(),
            s.total_hits == self.spec_hits(),
            s.total_misses == self.spec_misses(),
    {
        proof {
            use_type_invariant(self);
        }
        CacheStats {
            size: self.entries.len(),
            capacity: self.capacity,
            total_hits: self.total_hits,
            total_misses: self.total_misses,
        }
    }

    /// Number of cached entries.
    pub fn len(&self) -> (n: usize)
        ensures
            n == self.spec_order().len(),
    {
        self.entries.len()
    }

    /// Whether the cache is empty.
    pub fn is_empty(&self) -> (b: bool)
        ensures
            b == (self.spec_order().len() == 0),
    {
        self.entries.len() == 0
    }
}

/// After `invalidate` a key is no longer cached: its one entry leaves, so
/// the next `get_or_derive` for it is a miss, and the other keys stay in
/// their order without repeats.
pub proof fn lemma_invalidated_key_absent(order: Seq<CacheKeyView>, k: CacheKeyView)
    requires
        order.no_duplicates(),
        order.contains(k),
    ensures
        !order.remove(order.index_of(k)).contains(k),
        order.remove(order.index_of(k)).no_duplicates(),
        order.remove(order.index_of(k)).len() == order.len() - 1,
{
    let i = order.index_of(k);
    let r = order.remove(i);
    if r.contains(k) {
        let p = choose|p: int| 0 <= p < r.len() && r[p] == k;
        if p < i {
            assert(order[p] == k);
        } else {
            assert(order[p + 1] == k);
        }
    }
    assert forall|a: int, b: int| 0 <= a < r.len() && 0 <= b < r.len() && a != b implies r[a] != r[b] by {
        let a2 = if a < i { a } else { a + 1 };
        let b2 = if b < i { b } else { b + 1 };
        assert(r[a] == order[a2]);
        assert(r[b] == order[b2]);
    }
}

/// Two requests share a cache entry only when they ask for the same length
/// and their passwords and their salts have the same SHA-256 digests: requests
/// for different salts (or passwords) share an entry only if SHA-256 collides
/// on them.  So a hit returns key material derived for the same password and
/// salt, up to such a collision.
pub proof fn lemma_cache_key_separates_requests(
    p1: Seq<u8>,
    s1: Seq<u8>,
    n1: usize,
    p2: Seq<u8>,
    s2: Seq<u8>,
    n2: usize,
)
    requires
        cache_key(p1, s1, n1) == cache_key(p2, s2, n2),
    ensures
        n1 == n2,
        p1 == p2 || sha256_collides(p1, p2),
        s1 == s2 || sha256_collides(s1, s2),
{
}

/// A key that was just cached is found again with the bytes that were
/// returned for it, as long as it has not been evicted.
pub proof fn lemma_cached_key_found(order: Seq<CacheKeyView>, values: Seq<Seq<u8>>, capacity: usize, k: CacheKeyView, v: Seq<u8>)
    requires
        order.len() == values.len(),
        order.no_duplicates(),
        !order.contains(k),
        capacity >= 1,
        order.len() <= capacity,
    ensures
        lookup(order_after_add(order, capacity, k), values_after_add(values, capacity, v), k) == Some(v),
        order_after_add(order, capacity, k).len() <= capacity,
        order_after_add(order, capacity, k).no_duplicates(),
{
    let no = order_after_add(order, capacity, k);
    let nv = values_after_add(values, capacity, v);
    let last = no.len() - 1;
    assert(no[last] == k);
    assert(no.contains(k));
    assert forall|i: int, j: int| 0 <= i < no.len() && 0 <= j < no.len() && i != j implies no[i] != no[j] by {
        if order.len() >= capacity {
            if i < last && j < last {
                assert(no[i] == order[i + 1]);
                assert(no[j] == order[j + 1]);
            } else if i < last {
                assert(no[i] == order[i + 1]);
            } else if j < last {
                assert(no[j] == order[j + 1]);
            }
        } else {
            if i < last && j < last {
                assert(no[i] == order[i]);
                assert(no[j] == order[j]);
            } else if i < last {
                assert(no[i] == order[i]);
            } else if j < last {
                assert(no[j] == order[j]);
            }
        }
    }
    let idx = no.index_of(k);
    if idx != last {
        assert(no[idx] == no[last]);
    }
    assert(nv[last] == v);
}

} // verus!
