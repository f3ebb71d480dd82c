//! Lexicographic order on byte strings and on strings by their UTF-8 bytes,
//! with the facts that make it a strict total order, and the uniqueness of
//! the sorted arrangement of a set of strings.
use vstd::prelude::*;

use crate::util::utf8;

verus! {

/// `a` comes strictly before `b` in lexicographic byte order (a proper
/// prefix comes first).
pub open spec fn bytes_lt(a: Seq<u8>, b: Seq<u8>) -> bool
    decreases a.len(),
{
    if a.len() == 0 {
        b.len() > 0
    } else if b.len() == 0 {
        false
    } else if a[0] != b[0] {
        a[0] < b[0]
    } else {
        bytes_lt(a.drop_first(), b.drop_first())
    }
}

/// `a` comes strictly before `b` in the order of their UTF-8 bytes, which is
/// the order of Rust's `str` comparison.
pub open spec fn str_lt(a: Seq<char>, b: Seq<char>) -> bool {
    bytes_lt(utf8(a), utf8(b))
}

/// The strings are in strictly increasing order.
pub open spec fn strictly_sorted(s: Seq<Seq<char>>) -> bool {
    forall|i: int, j: int| 0 <= i < j < s.len() ==> #[trigger] str_lt(s[i], s[j])
}

pub proof fn lemma_bytes_lt_irreflexive(a: Seq<u8>)
    ensures
        !bytes_lt(a, a),
    decreases a.len(),
{
    if a.len() > 0 {
        lemma_bytes_lt_irreflexive(a.drop_first());
    }
}

pub proof fn lemma_bytes_lt_transitive(a: Seq<u8>, b: Seq<u8>, c: Seq<u8>)
    requires
        bytes_lt(a, b),
        bytes_lt(b, c),
    ensures
        bytes_lt(a, c),
    decreases a.len(),
{
    if a.len() > 0 && b.len() > 0 && c.len() > 0 && a[0] == b[0] && b[0] == c[0] {
        lemma_bytes_lt_transitive(a.drop_first(), b.drop_first(), c.drop_first());
    }
}

pub proof fn lemma_bytes_lt_total(a: Seq<u8>, b: Seq<u8>)
    requires
        a != b,
    ensures
        bytes_lt(a, b) || bytes_lt(b, a),
    decreases a.len(),
{
    if a.len() == 0 {
        assert(b.len() > 0) by {
            if b.len() == 0 {
                assert(a =~= b);
            }
        }
    } else if b.len() == 0 {
    } else if a[0] == b[0] {
        if a.drop_first() == b.drop_first() {
            assert(a =~= seq![a[0]] + a.drop_first());
            assert(b =~= seq![b[0]] + b.drop_first());
        }
        lemma_bytes_lt_total(a.drop_first(), b.drop_first());
    }
}

/// Distinct strings have distinct UTF-8 bytes.
pub proof fn lemma_utf8_injective(a: Seq<char>, b: Seq<char>)
    requires
        a != b,
    ensures
        utf8(a) != utf8(b),
{
    vstd::utf8::encode_utf8_decode_utf8(a);
    vstd::utf8::encode_utf8_decode_utf8(b);
}

pub proof fn lemma_str_lt_irreflexive(a: Seq<char>)
    ensures
        !str_lt(a, a),
{
    lemma_bytes_lt_irreflexive(utf8(a));
}

pub proof fn lemma_str_lt_transitive(a: Seq<char>, b: Seq<char>, c: Seq<char>)
    requires
        str_lt(a, b),
        str_lt(b, c),
    ensures
        str_lt(a, c),
{
    lemma_bytes_lt_transitive(utf8(a), utf8(b), utf8(c));
}

pub proof fn lemma_str_lt_total(a: Seq<char>, b: Seq<char>)
    requires
        a != b,
    ensures
        str_lt(a, b) || str_lt(b, a),
{
    lemma_utf8_injective(a, b);
    lemma_bytes_lt_total(utf8(a), utf8(b));
}

/// Two strictly sorted arrangements of the same set of strings are equal.
pub proof fn lemma_sorted_unique(s1: Seq<Seq<char>>, s2: Seq<Seq<char>>)
    requires
        strictly_sorted(s1),
        strictly_sorted(s2),
        s1.to_set() == s2.to_set(),
    ensures
        s1 == s2,
    decreases s1.len(),
{
    if s1.len() == 0 {
        if s2.len() > 0 {
            assert(s2.to_set().contains(s2[0]));
        }
        assert(s1 =~= s2);
        return;
    }
    if s2.len() == 0 {
        assert(s1.to_set().contains(s1[0]));
        return;
    }
    let x = s1[0];
    let y = s2[0];
    assert(s1.to_set().contains(x));
    assert(s2.to_set().contains(y));
    if x != y {
        assert(s2.contains(x));
        let k = choose|k: int| 0 <= k < s2.len() && s2[k] == x;
        assert(s1.contains(y));
        let j = choose|j: int| 0 <= j < s1.len() && s1[j] == y;
        assert(k != 0);
        assert(j != 0);
        assert(str_lt(s2[0], s2[k]));
        assert(str_lt(s1[0], s1[j]));
        lemma_str_lt_transitive(x, y, x);
        lemma_str_lt_irreflexive(x);
    }
    let t1 = s1.drop_first();
    let t2 = s2.drop_first();
    assert forall|i: int, j: int| 0 <= i < j < t1.len() implies #[trigger] str_lt(t1[i], t1[j]) by {
        assert(str_lt(s1[i + 1], s1[j + 1]));
    }
    assert forall|i: int, j: int| 0 <= i < j < t2.len() implies #[trigger] str_lt(t2[i], t2[j]) by {
        assert(str_lt(s2[i + 1], s2[j + 1]));
    }
    assert forall|z: Seq<char>| t1.to_set().contains(z) <==> t2.to_set().contains(z) by {
        if t1.to_set().contains(z) {
            let i = choose|i: int| 0 <= i < t1.len() && t1[i] == z;
            assert(s1[i + 1] == z);
            assert(str_lt(s1[0], s1[i + 1]));
            lemma_str_lt_irreflexive(x);
            assert(z != x);
            assert(s1.to_set().contains(z));
            assert(s2.contains(z));
            let m = choose|m: int| 0 <= m < s2.len() && s2[m] == z;
            assert(m != 0);
            assert(t2[m - 1] == z);
        }
        if t2.to_set().contains(z) {
            let i = choose|i: int| 0 <= i < t2.len() && t2[i] == z;
            assert(s2[i + 1] == z);
            assert(str_lt(s2[0], s2[i + 1]));
            lemma_str_lt_irreflexive(y);
            assert(z != y);
            assert(s2.to_set().contains(z));
            assert(s1.contains(z));
            let m = choose|m: int| 0 <= m < s1.len() && s1[m] == z;
            assert(m != 0);
            assert(t1[m - 1] == z);
        }
    }
    assert(t1.to_set() =~= t2.to_set());
    lemma_sorted_unique(t1, t2);
    assert(s1 =~= seq![x] + t1);
    assert(s2 =~= seq![y] + t2);
}

/// Whether `a` comes strictly before `b` in lexicographic byte order.
pub fn bytes_less(a: &[u8], b: &[u8]) -> (r: bool)
    ensures
        r == bytes_lt(a@, b@),
{
    let mut i: usize = 0;
    assert(a@.skip(0) =~= a@);
    assert(b@.skip(0) =~= b@);
    while i < a.len() && i < b.len()
        invariant
            0 <= i <= a@.len(),
            i <= b@.len(),
            bytes_lt(a@, b@) == bytes_lt(a@.skip(i as int), b@.skip(i as int)),
        decreases a@.len() - i,
    {
        if a[i] != b[i] {
            assert(a@.skip(i as int)[0] == a@[i as int]);
            assert(b@.skip(i as int)[0] == b@[i as int]);
            return a[i] < b[i];
        }
        assert(a@.skip(i as int).drop_first() =~= a@.skip(i + 1));
        assert(b@.skip(i as int).drop_first() =~= b@.skip(i + 1));
        i = i + 1;
    }
    i < b.len()
}

/// Whether `a` comes strictly before `b` in `str` order.
pub fn str_less(a: &str, b: &str) -> (r: bool)
    ensures
        r == str_lt(a@, b@),
{
    let ab = a.as_bytes();
    let bb = b.as_bytes();
    bytes_less(ab, bb)
}

} // verus!
