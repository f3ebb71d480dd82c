//! A small map keyed by strings, kept as a vector of distinct keys.
//!
//! The registries of the library hold their records here; the abstract view
//! is a `Map` from key characters to the view of each record.
use vstd::prelude::*;

use crate::util::str_eq;

verus! {

/// Map from string keys to values, with distinct keys in insertion order.
#[derive(Debug)]
pub struct StrMap<V: View> {
    entries: Vec<(String, V)>,
}

impl<V: View> View for StrMap<V> {
    type V = Map<Seq<char>, V::V>;

    closed spec fn view(&self) -> Map<Seq<char>, V::V> {
        Map::new(
            |k: Seq<char>| exists|i: int| 0 <= i < self.entries@.len() && #[trigger] self.entries@[i].0@ == k,
            |k: Seq<char>| self.entries@[self.index_of(k)].1@,
        )
    }
}

impl<V: View> StrMap<V> {
    #[verifier::type_invariant]
    spec fn keys_distinct(self) -> bool {
        forall|i: int, j: int|
            0 <= i < self.entries@.len() && 0 <= j < self.entries@.len() && i != j
                ==> #[trigger] self.entries@[i].0@ != #[trigger] self.entries@[j].0@
    }

    spec fn index_of(&self, k: Seq<char>) -> int {
        choose|i: int| 0 <= i < self.entries@.len() && self.entries@[i].0@ == k
    }

    /// The keys in insertion order.
    pub closed spec fn key_seq(&self) -> Seq<Seq<char>> {
        self.entries@.map_values(|e: (String, V)| e.0@)
    }

    /// The value views in insertion order.
    pub closed spec fn value_seq(&self) -> Seq<V::V> {
        self.entries@.map_values(|e: (String, V)| e.1@)
    }

    proof fn lemma_index_of(&self, i: int)
        requires
            self.keys_distinct(),
            0 <= i < self.entries@.len(),
        ensures
            self.index_of(self.entries@[i].0@) == i,
            self@.contains_key(self.entries@[i].0@),
            self@[self.entries@[i].0@] == self.entries@[i].1@,
    {
        let k = self.entries@[i].0@;
        assert(self.entries@[i].0@ == k);
        let j = self.index_of(k);
        if j != i {
            assert(self.entries@[j].0@ != self.entries@[i].0@);
        }
    }

    /// Facts linking the key and value sequences to the map view.
    pub fn lemma_seqs(&self)
        ensures
            self.key_seq().len() == self.value_seq().len(),
            self.key_seq().no_duplicates(),
            forall|k: Seq<char>| #[trigger] self@.contains_key(k) <==> self.key_seq().contains(k),
            forall|i: int|
                0 <= i < self.key_seq().len() ==> #[trigger] self@[self.key_seq()[i]]
                    == self.value_seq()[i],
            self@.dom().finite(),
            self@.dom().len() == self.key_seq().len(),
    {
        proof {
        use_type_invariant(self);
        let ks = self.key_seq();
        assert forall|i: int, j: int| 0 <= i < ks.len() && 0 <= j < ks.len() && i != j implies ks[i]
            != ks[j] by {
            assert(self.entries@[i].0@ != self.entries@[j].0@);
        }
        assert forall|k: Seq<char>| #[trigger] self@.contains_key(k) <==> ks.contains(k) by {
            if self@.contains_key(k) {
                let i = choose|i: int| 0 <= i < self.entries@.len() && #[trigger] self.entries@[i].0@ == k;
                assert(ks[i] == k);
            }
            if ks.contains(k) {
                let i = choose|i: int| 0 <= i < ks.len() && ks[i] == k;
                assert(self.entries@[i].0@ == k);
            }
        }
        assert forall|i: int| 0 <= i < ks.len() implies #[trigger] self@[ks[i]] == self.value_seq()[i] by {
            self.lemma_index_of(i);
        }
        assert(self@.dom() =~= ks.to_set());
        ks.unique_seq_to_set();
        }
    }

    /// An empty map.
    pub fn new() -> (m: Self)
        ensures
            m@ == Map::<Seq<char>, V::V>::empty(),
            m.key_seq() == Seq::<Seq<char>>::empty(),
    {
        let m = StrMap { entries: Vec::new() };
        assert(m@ =~= Map::<Seq<char>, V::V>::empty());
        assert(m.key_seq() =~= Seq::<Seq<char>>::empty());
        m
    }

    /// Number of keys.
    pub fn len(&self) -> (n: usize)
        ensures
            n == self@.dom().len(),
            n == self.key_seq().len(),
    {
        self.lemma_seqs();
        self.entries.len()
    }

    /// Position of `key`, if present.
    fn find(&self, key: &str) -> (r: Option<usize>)
        ensures
            r is None <==> !self@.contains_key(key@),
            r matches Some(i) ==> i < self.entries@.len() && self.entries@[i as int].0@ == key@,
    {
        proof {
            use_type_invariant(self);
        }
        let mut i: usize = 0;
        while i < self.entries.len()
            invariant
                0 <= i <= self.entries@.len(),
                forall|j: int| 0 <= j < i ==> self.entries@[j].0@ != key@,
            decreases self.entries@.len() - i,
        {
            if str_eq(self.entries[i].0.as_str(), key) {
                proof {
                    use_type_invariant(self);
                    self.lemma_index_of(i as int);
                }
                return Some(i);
            }
            i = i + 1;
        }
        None
    }

    /// Whether `key` is present.
    pub fn contains_key(&self, key: &str) -> (b: bool)
        ensures
            b == self@.contains_key(key@),
    {
        self.find(key).is_some()
    }

    /// The value stored under `key`, if any.
    pub fn get(&self, key: &str) -> (r: Option<&V>)
        ensures
            r is None <==> !self@.contains_key(key@),
            r matches Some(v) ==> v@ == self@[key@],
    {
        match self.find(key) {
            Some(i) => {
                proof {
                    use_type_invariant(self);
                    self.lemma_index_of(i as int);
                }
                Some(&self.entries[i].1)
            },
            None => None,
        }
    }

    /// The key at position `i` in insertion order.
    pub fn key_at(&self, i: usize) -> (k: &str)
        requires
            i < self.key_seq().len(),
        ensures
            k@ == self.key_seq()[i as int],
    {
        self.entries[i].0.as_str()
    }

    /// The value at position `i` in insertion order.
    pub fn value_at(&self, i: usize) -> (v: &V)
        requires
            i < self.key_seq().len(),
        ensures
            v@ == self.value_seq()[i as int],
    {
        &self.entries[i].1
    }

    /// Store `value` under `key`, replacing any earlier value.
    pub fn insert(&mut self, key: String, value: V)
        ensures
            final(self)@ == old(self)@.insert(key@, value@),
    {
        proof {
            use_type_invariant(&*self);
        }
        let pos = self.find(key.as_str());
        let mut entries: Vec<(String, V)> = Vec::new();
        std::mem::swap(&mut entries, &mut self.entries);
        let ghost old_entries = entries@;
        let ghost k = key@;
        let ghost v = value@;
        match pos {
            Some(i) => {
                entries.set(i, (key, value));
            },
            None => {
                entries.push((key, value));
            },
        }
        let ghost new_entries = entries@;
        assert forall|i: int, j: int|
            0 <= i < new_entries.len() && 0 <= j < new_entries.len() && i != j
                implies #[trigger] new_entries[i].0@ != #[trigger] new_entries[j].0@ by {
            if i < old_entries.len() && j < old_entries.len() && new_entries[i] == old_entries[i]
                && new_entries[j] == old_entries[j] {
                assert(old_entries[i].0@ != old_entries[j].0@);
            }
        }
        self.entries = entries;
        proof {
            let m = old(self)@.insert(k, v);
            assert forall|kk: Seq<char>| #[trigger] self@.contains_key(kk) <==> m.contains_key(kk) by {
                if self@.contains_key(kk) {
                    let i = choose|i: int| 0 <= i < self.entries@.len() && #[trigger] self.entries@[i].0@ == kk;
                    if kk != k {
                        assert(old(self).entries@[i].0@ == kk);
                    }
                }
                if m.contains_key(kk) && kk != k {
                    let i = choose|i: int| 0 <= i < old(self).entries@.len() && #[trigger] old(self).entries@[i].0@ == kk;
                    assert(self.entries@[i].0@ == kk);
                }
                if kk == k {
                    match pos {
                        Some(i) => assert(self.entries@[i as int].0@ == k),
                        None => assert(self.entries@[old(self).entries@.len() as int].0@ == k),
                    }
                }
            }
            assert forall|kk: Seq<char>| #[trigger] self@.contains_key(kk) implies self@[kk] == m[kk] by {
                let i = choose|i: int| 0 <= i < self.entries@.len() && #[trigger] self.entries@[i].0@ == kk;
                self.lemma_index_of(i);
                if kk != k {
                    assert(old(self).entries@[i].0@ == kk);
                    old(self).lemma_index_of(i);
                }
            }
            assert(self@ =~= m);
        }
    }

    /// Remove `key`, returning its value if it was present.  The other keys keep
    /// their relative order.
    pub fn remove(&mut self, key: &str) -> (r: Option<V>)
        ensures
            final(self)@ == old(self)@.remove(key@),
            r is None <==> !old(self)@.contains_key(key@),
            r matches Some(v) ==> v@ == old(self)@[key@],
    {
        proof {
            use_type_invariant(&*self);
        }
        match self.find(key) {
            None => {
                assert(self@ =~= old(self)@.remove(key@));
                None
            },
            Some(i) => {
                proof {
                    self.lemma_index_of(i as int);
                }
                let mut entries: Vec<(String, V)> = Vec::new();
                std::mem::swap(&mut entries, &mut self.entries);
                let ghost old_entries = entries@;
                let (_k, v) = entries.remove(i);
                let ghost new_entries = entries@;
                assert forall|a: int| 0 <= a < new_entries.len() implies #[trigger] new_entries[a] == (
                if a < i {
                    old_entries[a]
                } else {
                    old_entries[a + 1]
                }) by {}
                assert forall|a: int, b: int|
                    0 <= a < new_entries.len() && 0 <= b < new_entries.len() && a != b
                        implies #[trigger] new_entries[a].0@ != #[trigger] new_entries[b].0@ by {
                    let a2 = if a < i { a } else { a + 1 };
                    let b2 = if b < i { b } else { b + 1 };
                    assert(new_entries[a] == old_entries[a2]);
                    assert(new_entries[b] == old_entries[b2]);
                    assert(old_entries[a2].0@ != old_entries[b2].0@);
                }
                self.entries = entries;
                proof {
                    let m = old(self)@.remove(key@);
                    assert forall|kk: Seq<char>| #[trigger] self@.contains_key(kk) <==> m.contains_key(kk) by {
                        if self@.contains_key(kk) {
                            let a = choose|a: int| 0 <= a < self.entries@.len() && #[trigger] self.entries@[a].0@ == kk;
                            let a2 = if a < i { a } else { a + 1 };
                            assert(self.entries@[a] == old_entries[a2]);
                            assert(old(self).entries@[a2].0@ == kk);
                            assert(a2 != i);
                        }
                        if m.contains_key(kk) {
                            let a = choose|a: int| 0 <= a < old(self).entries@.len() && #[trigger] old(self).entries@[a].0@ == kk;
                            assert(a != i);
                            let a1 = if a < i { a } else { a - 1 };
                            assert(self.entries@[a1] == old_entries[a]);
                            assert(self.entries@[a1].0@ == kk);
                        }
                    }
                    assert forall|kk: Seq<char>| #[trigger] self@.contains_key(kk) implies self@[kk] == m[kk] by {
                        let a = choose|a: int| 0 <= a < self.entries@.len() && #[trigger] self.entries@[a].0@ == kk;
                        self.lemma_index_of(a);
                        let a2 = if a < i { a } else { a + 1 };
                        assert(self.entries@[a] == old_entries[a2]);
                        old(self).lemma_index_of(a2);
                    }
                    assert(self@ =~= m);
                }
                Some(v)
            },
        }
    }

    /// Remove every key.
    pub fn clear(&mut self)
        ensures
            final(self)@ == Map::<Seq<char>, V::V>::empty(),
    {
        self.entries = Vec::new();
        assert(self@ =~= Map::<Seq<char>, V::V>::empty());
    }
}

impl<V: View + Clone> Clone for StrMap<V> {
    /// A copy with the same keys in the same order; the values are the
    /// values' own clones.
    fn clone(&self) -> (r: Self)
        ensures
            r.key_seq() == self.key_seq(),
            r@.dom() == self@.dom(),
    {
        proof {
            use_type_invariant(self);
        }
        let mut entries: Vec<(String, V)> = Vec::new();
        let mut i: usize = 0;
        while i < self.entries.len()
            invariant
                0 <= i <= self.entries@.len(),
                entries@.len() == i,
                forall|j: int| 0 <= j < i ==> #[trigger] entries@[j].0@ == self.entries@[j].0@,
                forall|a: int, b: int|
                    0 <= a < self.entries@.len() && 0 <= b < self.entries@.len() && a != b
                        ==> #[trigger] self.entries@[a].0@ != #[trigger] self.entries@[b].0@,
            decreases self.entries@.len() - i,
        {
            let key = self.entries[i].0.clone();
            let value = self.entries[i].1.clone();
            entries.push((key, value));
            i = i + 1;
        }
        let r = StrMap { entries };
        assert(r.key_seq() =~= self.key_seq());
        assert(r@.dom() =~= self@.dom()) by {
            assert forall|k: Seq<char>| r@.dom().contains(k) <==> self@.dom().contains(k) by {
                if r@.dom().contains(k) {
                    let j = choose|j: int| 0 <= j < r.entries@.len() && #[trigger] r.entries@[j].0@ == k;
                    assert(self.entries@[j].0@ == k);
                }
                if self@.dom().contains(k) {
                    let j = choose|j: int| 0 <= j < self.entries@.len() && #[trigger] self.entries@[j].0@ == k;
                    assert(r.entries@[j].0@ == k);
                }
            }
        }
        r
    }
}

} // verus!
