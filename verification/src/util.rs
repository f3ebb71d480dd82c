//! Small verified helpers on bytes and strings shared by the modules.
use vstd::prelude::*;
use vstd::string::*;

verus! {

/// The UTF-8 bytes of a string.
pub open spec fn utf8(s: Seq<char>) -> Seq<u8> {
    vstd::utf8::encode_utf8(s)
}

/// A common prefix and suffix cancel: `p + x + s == p + y + s` only when
/// `x == y`.
pub proof fn lemma_middle_cancel<A>(p: Seq<A>, x: Seq<A>, y: Seq<A>, s: Seq<A>)
    requires
        p + x + s == p + y + s,
    ensures
        x == y,
{
    let a = p + x + s;
    assert((p + x + s).len() == p.len() + x.len() + s.len());
    assert((p + y + s).len() == p.len() + y.len() + s.len());
    assert(x.len() == y.len());
    assert(x =~= a.subrange(p.len() as int, (p.len() + x.len()) as int));
    assert(y =~= (p + y + s).subrange(p.len() as int, (p.len() + y.len()) as int));
}

/// The views of a list of strings.
pub open spec fn string_views(items: Seq<String>) -> Seq<Seq<char>> {
    items.map_values(|s: String| s@)
}

/// Whether two strings are equal, compared by their UTF-8 bytes.
pub fn str_eq(a: &str, b: &str) -> (r: bool)
    ensures
        r == (a@ == b@),
{
    let r = bytes_eq(a.as_bytes(), b.as_bytes());
    proof {
        if a@ != b@ {
            crate::lex::lemma_utf8_injective(a@, b@);
        }
    }
    r
}

/// Appends `extra` to `v`.
pub fn push_bytes(v: &mut Vec<u8>, extra: &[u8])
    ensures
        final(v)@ == old(v)@ + extra@,
{
    let mut i: usize = 0;
    while i < extra.len()
        invariant
            0 <= i <= extra@.len(),
            v@ == old(v)@ + extra@.subrange(0, i as int),
        decreases extra@.len() - i,
    {
        v.push(extra[i]);
        i = i + 1;
        assert(extra@.subrange(0, i as int) == extra@.subrange(0, i - 1).push(extra@[i - 1]));
    }
    assert(extra@.subrange(0, extra@.len() as int) == extra@);
}

/// Appends the UTF-8 bytes of `s` to `v`.
pub fn push_str_bytes(v: &mut Vec<u8>, s: &str)
    ensures
        final(v)@ == old(v)@ + utf8(s@),
{
    push_bytes(v, s.as_bytes());
}

/// Appends the little-endian bytes of `x` to `v`.
pub fn push_u64_le(v: &mut Vec<u8>, x: u64)
    ensures
        final(v)@ == old(v)@ + vstd::bytes::spec_u64_to_le_bytes(x),
{
    let b = vstd::bytes::u64_to_le_bytes(x);
    push_bytes(v, b.as_slice());
}

/// A fresh copy of `s`.
pub fn copy_str(s: &str) -> (r: String)
    ensures
        r@ == s@,
{
    s.to_owned()
}

/// Byte-wise equality of two slices.
pub fn bytes_eq(a: &[u8], b: &[u8]) -> (r: bool)
    ensures
        r == (a@ == b@),
{
    if a.len() != b.len() {
        return false;
    }
    let mut i: usize = 0;
    while i < a.len()
        invariant
            a@.len() == b@.len(),
            0 <= i <= a@.len(),
            forall|j: int| 0 <= j < i ==> a@[j] == b@[j],
        decreases a@.len() - i,
    {
        if a[i] != b[i] {
            return false;
        }
        i = i + 1;
    }
    assert(a@ =~= b@);
    true
}

/// One step of filtering a growing prefix.
pub proof fn lemma_filter_take_step<A>(s: Seq<A>, i: int, pred: spec_fn(A) -> bool)
    requires
        0 <= i < s.len(),
    ensures
        s.take(i + 1).filter(pred) == (if pred(s[i]) {
            s.take(i).filter(pred).push(s[i])
        } else {
            s.take(i).filter(pred)
        }),
{
    reveal(Seq::filter);
    assert(s.take(i + 1).drop_last() =~= s.take(i));
    assert(s.take(i + 1).last() == s[i]);
}

/// A fresh copy of a byte slice.
pub fn copy_bytes(b: &[u8]) -> (v: Vec<u8>)
    ensures
        v@ == b@,
{
    vstd::slice::slice_to_vec(b)
}

/// Lower-case hexadecimal digit of a nibble.
pub open spec fn hex_digit(n: u8) -> char {
    if n < 10 {
        ((n + 48) as u8) as char
    } else {
        ((n + 87) as u8) as char
    }
}

/// Lower-case hexadecimal text of a byte string, two digits per byte.
pub open spec fn spec_hex(bytes: Seq<u8>) -> Seq<char>
    decreases bytes.len(),
{
    if bytes.len() == 0 {
        Seq::empty()
    } else {
        spec_hex(bytes.drop_last()) + seq![
            hex_digit(bytes.last() / 16),
            hex_digit(bytes.last() % 16),
        ]
    }
}

/// Appends the hexadecimal digit of a nibble to `s`.
fn append_hex_digit(s: &mut String, n: u8)
    requires
        n < 16,
    ensures
        final(s)@ == old(s)@.push(hex_digit(n)),
{
    let digit: &str = match n {
        0 => "0",
        1 => "1",
        2 => "2",
        3 => "3",
        4 => "4",
        5 => "5",
        6 => "6",
        7 => "7",
        8 => "8",
        9 => "9",
        10 => "a",
        11 => "b",
        12 => "c",
        13 => "d",
        14 => "e",
        _ => "f",
    };
    proof {
        reveal_strlit("0");
        reveal_strlit("1");
        reveal_strlit("2");
        reveal_strlit("3");
        reveal_strlit("4");
        reveal_strlit("5");
        reveal_strlit("6");
        reveal_strlit("7");
        reveal_strlit("8");
        reveal_strlit("9");
        reveal_strlit("a");
        reveal_strlit("b");
        reveal_strlit("c");
        reveal_strlit("d");
        reveal_strlit("e");
        reveal_strlit("f");
        assert(digit@ == seq![hex_digit(n)]);
    }
    s.append(digit);
}

/// Lower-case hexadecimal encoding of `bytes`.
pub fn hex_encode(bytes: &[u8]) -> (s: String)
    ensures
        s@ == spec_hex(bytes@),
{
    let mut out = String::new();
    let mut i: usize = 0;
    while i < bytes.len()
        invariant
            0 <= i <= bytes@.len(),
            out@ == spec_hex(bytes@.take(i as int)),
        decreases bytes@.len() - i,
    {
        let b = bytes[i];
        append_hex_digit(&mut out, b / 16);
        append_hex_digit(&mut out, b % 16);
        assert(bytes@.take(i + 1).drop_last() =~= bytes@.take(i as int));
        i = i + 1;
        assert(out@ =~= spec_hex(bytes@.take(i as int)));
    }
    assert(bytes@.take(i as int) =~= bytes@);
    out
}

/// The concatenation of three strings.
pub fn concat3(a: &str, b: &str, c: &str) -> (r: String)
    ensures
        r@ == a@ + b@ + c@,
{
    let mut r = a.to_owned();
    r.append(b);
    r.append(c);
    r
}

/// The concatenation of two strings.
pub fn concat2(a: &str, b: &str) -> (r: String)
    ensures
        r@ == a@ + b@,
{
    let mut r = a.to_owned();
    r.append(b);
    r
}

/// `n` zero bytes.
pub fn zeros(n: usize) -> (v: Vec<u8>)
    ensures
        v@ == Seq::new(n as nat, |i: int| 0u8),
{
    let mut v: Vec<u8> = Vec::new();
    let mut i: usize = 0;
    while i < n
        invariant
            0 <= i <= n,
            v@ == Seq::new(i as nat, |j: int| 0u8),
        decreases n - i,
    {
        v.push(0u8);
        i = i + 1;
        assert(v@ =~= Seq::new(i as nat, |j: int| 0u8));
    }
    v
}

/// The decimal digit character of `d < 10`.
pub open spec fn decimal_digit(d: nat) -> char {
    (d + 48) as char
}

/// The decimal text of a natural number, without leading zeros.
pub open spec fn spec_decimal(n: nat) -> Seq<char>
    decreases n,
{
    if n < 10 {
        seq![decimal_digit(n)]
    } else {
        spec_decimal(n / 10) + seq![decimal_digit(n % 10)]
    }
}

/// `prefix` followed by the decimal text of `n`.
pub fn with_decimal(prefix: &str, n: u64) -> (s: String)
    ensures
        s@ == prefix@ + spec_decimal(n as nat),
{
    let mut s = copy_str(prefix);
    append_decimal(&mut s, n);
    s
}

/// Appends `t` to `s`.
pub fn append_str(s: &mut String, t: &str)
    ensures
        final(s)@ == old(s)@ + t@,
{
    s.append(t);
}

/// Appends the decimal text of `n` to `s`.
pub fn append_decimal(s: &mut String, n: u64)
    ensures
        final(s)@ == old(s)@ + spec_decimal(n as nat),
    decreases n,
{
    if n >= 10 {
        append_decimal(s, n / 10);
    }
    let d: u8 = (n % 10) as u8;
    append_hex_digit(s, d);
    proof {
        assert(hex_digit(d) == decimal_digit((n % 10) as nat));
        assert(s@ =~= old(s)@ + spec_decimal(n as nat));
    }
}

/// The text Rust prints for a boolean.
pub open spec fn bool_text(b: bool) -> Seq<char> {
    if b {
        "true"@
    } else {
        "false"@
    }
}

/// Appends the text of a boolean to `s`.
pub fn append_bool(s: &mut String, b: bool)
    ensures
        final(s)@ == old(s)@ + bool_text(b),
{
    if b {
        s.append("true");
    } else {
        s.append("false");
    }
}

} // verus!
