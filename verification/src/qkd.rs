//! BB84-style quantum key distribution simulation: the integer core.
//!
//! A session sends `qubit_count` qubits with random bits and bases, keeps
//! the positions where Alice's and Bob's bases agree (sifting), samples
//! `sample_size` sifted positions without replacement (Fisher-Yates) to count
//! mismatches, and keeps the unsampled sifted bits as key.  Whether channel
//! noise flips a bit is decided by the caller from a 64-bit draw; error-rate
//! arithmetic on the counts is left to the caller.
use vstd::prelude::*;

verus! {

/// Errors of the QKD simulation.
#[derive(Debug, Clone, Copy, PartialEq, Eq, Structural)]
pub enum QkdError {
    EmptyTransmission,
    InvalidSampleSize,
    InvalidNoiseProbability,
    InvalidMaxQber,
    InsufficientSiftedBits,
    EntropyExhausted,
}

/// A source of random 64-bit values.
///
/// A source may declare itself infallible: its draws then always succeed and
/// it stays infallible.  A source may also declare itself scripted: its
/// upcoming draws are then fixed in advance, `scripted_draw(k)` being the
/// `k`-th next one (`None` when that draw fails with `EntropyExhausted`).
/// Sources that declare neither promise nothing about their draws.
pub trait EntropySource {
    /// Whether every draw from this source succeeds.
    open spec fn infallible(&self) -> bool {
        false
    }

    /// Whether the upcoming draws are fixed by `scripted_draw`.
    open spec fn is_scripted(&self) -> bool {
        false
    }

    /// The `k`-th upcoming draw of a scripted source.
    open spec fn scripted_draw(&self, k: nat) -> Option<u64> {
        None
    }

    /// The next 64 random bits.
    fn next_u64(&mut self) -> (r: Result<u64, QkdError>)
        ensures
            old(self).infallible() ==> r is Ok && final(self).infallible(),
            old(self).is_scripted() ==> final(self).is_scripted() && (match old(self).scripted_draw(0) {
                Some(x) => r == Ok::<u64, QkdError>(x) && forall|k: nat| #[trigger]
                    final(self).scripted_draw(k) == old(self).scripted_draw(k + 1),
                None => r == Err::<u64, QkdError>(QkdError::EntropyExhausted),
            }),
    ;

    /// The next random bit: the low bit of the next 64-bit value.
    fn next_bit(&mut self) -> (r: Result<u8, QkdError>)
        ensures
            r matches Ok(b) ==> b <= 1,
            old(self).infallible() ==> r is Ok && final(self).infallible(),
            old(self).is_scripted() ==> final(self).is_scripted() && (match old(self).scripted_draw(0) {
                Some(x) => r == Ok::<u8, QkdError>(bit_of(x)) && forall|k: nat| #[trigger]
                    final(self).scripted_draw(k) == old(self).scripted_draw(k + 1),
                None => r == Err::<u8, QkdError>(QkdError::EntropyExhausted),
            }),
    {
        match self.next_u64() {
            Ok(x) => {
                let b = (x & 1) as u8;
                assert((x & 1) <= 1) by (bit_vector);
                Ok(b)
            },
            Err(e) => Err(e),
        }
    }
}

/// The random bit carried by a 64-bit draw: its low bit.
pub open spec fn bit_of(x: u64) -> u8 {
    (x & 1) as u8
}

/// One xorshift64 step.
pub open spec fn xorshift_step(x: u64) -> u64 {
    let a = x ^ ((x << 13u64) as u64);
    let b = a ^ (a >> 7u64);
    b ^ ((b << 17u64) as u64)
}

/// Deterministic xorshift64 entropy source.
#[derive(Debug, Clone, Copy)]
pub struct XorShift64 {
    state: u64,
}

/// The state after `n` xorshift64 steps from `s`.
pub open spec fn xorshift_nth(s: u64, n: nat) -> u64
    decreases n,
{
    if n == 0 {
        s
    } else {
        xorshift_step(xorshift_nth(s, (n - 1) as nat))
    }
}

proof fn lemma_xorshift_nth_shift(s: u64, n: nat)
    ensures
        xorshift_nth(xorshift_step(s), n) == xorshift_nth(s, n + 1),
    decreases n,
{
    if n == 0 {
        assert(xorshift_nth(s, 1) == xorshift_step(xorshift_nth(s, 0)));
    } else {
        lemma_xorshift_nth_shift(s, (n - 1) as nat);
        assert(xorshift_nth(s, n + 1) == xorshift_step(xorshift_nth(s, n)));
    }
}

impl XorShift64 {
    /// The generator state.
    pub closed spec fn spec_state(&self) -> u64 {
        self.state
    }

    /// A generator seeded with `seed`; the absorbing seed 0 is replaced by
    /// `0x9E3779B97F4A7C15`.
    pub fn from_seed(seed: u64) -> (g: Self)
        ensures
            g.spec_state() == if seed == 0 {
                0x9E37_79B9_7F4A_7C15u64
            } else {
                seed
            },
    {
        let state = if seed == 0 {
            0x9E37_79B9_7F4A_7C15u64
        } else {
            seed
        };
        XorShift64 { state }
    }
}

impl EntropySource for XorShift64 {
    /// Xorshift steps never fail.
    open spec fn infallible(&self) -> bool {
        true
    }

    /// The whole stream follows from the state.
    open spec fn is_scripted(&self) -> bool {
        true
    }

    /// The `k`-th upcoming draw is the state `k + 1` steps ahead.
    open spec fn scripted_draw(&self, k: nat) -> Option<u64> {
        Some(xorshift_nth(self.spec_state(), k + 1))
    }

    /// Advance one xorshift64 step and return the new state.
    fn next_u64(&mut self) -> (r: Result<u64, QkdError>)
        ensures
            final(self).spec_state() == xorshift_step(old(self).spec_state()),
            r == Ok::<u64, QkdError>(final(self).spec_state()),
    {
        let ghost s0 = self.state;
        let mut x = self.state;
        x = x ^ (x << 13u64);
        x = x ^ (x >> 7u64);
        x = x ^ (x << 17u64);
        self.state = x;
        proof {
            assert(x == xorshift_step(s0));
            assert(xorshift_nth(s0, 1) == xorshift_step(xorshift_nth(s0, 0)));
            assert forall|k: nat| #[trigger] self.scripted_draw(k) == old(self).scripted_draw(k + 1) by {
                lemma_xorshift_nth_shift(s0, k + 1);
            }
        }
        Ok(x)
    }
}

/// A seed determines the session: two generators in the same state script
/// the same draws, so `run_bb84` from either, with the same parameters and
/// noise decisions, has the same outcome.
pub proof fn lemma_same_seed_same_session(
    a: XorShift64,
    b: XorShift64,
    flip: spec_fn(u64) -> bool,
    qubit_count: nat,
    sample_size: nat,
)
    requires
        a.spec_state() == b.spec_state(),
    ensures
        (|k: nat| a.scripted_draw(k)) == (|k: nat| b.scripted_draw(k)),
        bb84_outcome(|k: nat| a.scripted_draw(k), flip, qubit_count, sample_size) == bb84_outcome(
            |k: nat| b.scripted_draw(k),
            flip,
            qubit_count,
            sample_size,
        ),
{
    assert((|k: nat| a.scripted_draw(k)) =~= (|k: nat| b.scripted_draw(k)));
}

/// Measurement basis of a qubit.
#[derive(Debug, Clone, Copy, PartialEq, Eq, Structural)]
enum Basis {
    Rectilinear,
    Diagonal,
}

impl Basis {
    /// A basis chosen by the next random bit: 0 is rectilinear, 1 diagonal.
    fn random<E: EntropySource>(entropy: &mut E) -> (res: Result<Basis, QkdError>)
        ensures
            old(entropy).infallible() ==> res is Ok && final(entropy).infallible(),
            old(entropy).is_scripted() ==> final(entropy).is_scripted() && (match old(entropy).scripted_draw(0) {
                Some(x) => res == Ok::<Basis, QkdError>(
                    if bit_of(x) == 0 {
                        Basis::Rectilinear
                    } else {
                        Basis::Diagonal
                    },
                ) && forall|k: nat| #[trigger]
                    final(entropy).scripted_draw(k) == old(entropy).scripted_draw(k + 1),
                None => res == Err::<Basis, QkdError>(QkdError::EntropyExhausted),
            }),
    {
        match entropy.next_bit() {
            Ok(b) => Ok(
                if b == 0 {
                    Basis::Rectilinear
                } else {
                    Basis::Diagonal
                },
            ),
            Err(e) => Err(e),
        }
    }
}

/// Integer outcome of one BB84 session.
#[derive(Debug, Clone)]
pub struct Bb84Tally {
    /// Qubits sent.
    pub raw_bits: usize,
    /// Positions where the bases agreed.
    pub sifted_bits: usize,
    /// Sifted positions compared publicly.
    pub sampled_bits: usize,
    /// Sampled positions where Alice's and Bob's bits differ.
    pub mismatches: usize,
    /// Unsampled sifted bits of Alice, in order.
    pub final_key_bits: Vec<u8>,
}

/// Number of `true` items.
pub open spec fn count_marked(s: Seq<bool>) -> nat
    decreases s.len(),
{
    if s.len() == 0 {
        0
    } else {
        count_marked(s.drop_last()) + if s.last() {
            1nat
        } else {
            0nat
        }
    }
}

proof fn lemma_count_marked_take(s: Seq<bool>, i: int)
    requires
        0 <= i < s.len(),
    ensures
        count_marked(s.take(i + 1)) == count_marked(s.take(i)) + if s[i] {
            1nat
        } else {
            0nat
        },
{
    assert(s.take(i + 1).drop_last() =~= s.take(i));
}

proof fn lemma_count_marked_update(s: Seq<bool>, p: int)
    requires
        0 <= p < s.len(),
        !s[p],
    ensures
        count_marked(s.update(p, true)) == count_marked(s) + 1,
    decreases s.len(),
{
    let t = s.update(p, true);
    if p == s.len() - 1 {
        assert(t.drop_last() =~= s.drop_last());
    } else {
        assert(t.drop_last() =~= s.drop_last().update(p, true));
        lemma_count_marked_update(s.drop_last(), p);
    }
}

proof fn lemma_count_marked_all_false(n: nat)
    ensures
        count_marked(Seq::new(n, |i: int| false)) == 0,
    decreases n,
{
    if n > 0 {
        assert(Seq::new(n, |i: int| false).drop_last() =~= Seq::new((n - 1) as nat, |i: int| false));
        lemma_count_marked_all_false((n - 1) as nat);
    }
}

/// `len` distinct positions below `bound`.
pub open spec fn distinct_below(s: Seq<usize>, bound: nat) -> bool {
    &&& forall|i: int| 0 <= i < s.len() ==> #[trigger] s[i] < bound
    &&& forall|i: int, j: int| 0 <= i < s.len() && 0 <= j < s.len() && i != j ==> #[trigger] s[i] != #[trigger] s[j]
}

/// The identity arrangement `0, 1, .., len - 1`.
pub open spec fn identity_positions(len: nat) -> Seq<usize> {
    Seq::new(len, |k: int| k as usize)
}

/// Number of swap steps of a Fisher-Yates shuffle of `len` positions.
pub open spec fn shuffle_steps(len: nat) -> nat {
    if len == 0 {
        0
    } else {
        (len - 1) as nat
    }
}

/// The arrangement after the first `t` swap steps of a Fisher-Yates shuffle
/// of `0..len`: step `t` swaps position `len - t` with the position given by
/// draw `t - 1` of `d` modulo `len - t + 1`.  `None` when a draw fails.
pub open spec fn shuffle_after(d: spec_fn(nat) -> Option<u64>, len: nat, t: nat) -> Option<Seq<usize>>
    decreases t,
{
    if t == 0 {
        Some(identity_positions(len))
    } else {
        match shuffle_after(d, len, (t - 1) as nat) {
            None => None,
            Some(s) => match d((t - 1) as nat) {
                None => None,
                Some(r) => {
                    let i = len - t;
                    let j = ((r as usize) as nat) % ((i + 1) as nat);
                    Some(s.update(i, s[j as int]).update(j as int, s[i]))
                },
            },
        }
    }
}

proof fn lemma_shuffle_failure_persists(d: spec_fn(nat) -> Option<u64>, len: nat, t: nat, t2: nat)
    requires
        t <= t2,
        shuffle_after(d, len, t) is None,
    ensures
        shuffle_after(d, len, t2) is None,
    decreases t2,
{
    if t < t2 {
        lemma_shuffle_failure_persists(d, len, t, (t2 - 1) as nat);
    }
}

/// `g` are the draws a shuffle of `len` positions consumed when it returned
/// `res`: all of its draws, giving the sampled first `sample_size`
/// positions, or those before the draw that failed.
spec fn shuffle_consumed(g: Seq<u64>, len: nat, sample_size: int, res: Result<Vec<usize>, QkdError>) -> bool {
    match res {
        Ok(v) => g.len() == shuffle_steps(len) && (shuffle_after(draws_of(g), len, shuffle_steps(len)) matches Some(
            perm,
        ) && v@ == perm.take(sample_size)),
        Err(_) => g.len() < shuffle_steps(len) && shuffle_after(draws_of(g), len, shuffle_steps(len)) is None,
    }
}

/// `sample_size` distinct positions below `len`, chosen by a Fisher-Yates
/// shuffle of `0..len` driven by `entropy`.
fn random_unique_indices<E: EntropySource>(len: usize, sample_size: usize, entropy: &mut E) -> (res: Result<
    Vec<usize>,
    QkdError,
>)
    requires
        sample_size <= len,
    ensures
        res matches Ok(v) ==> v@.len() == sample_size && distinct_below(v@, len as nat),
        old(entropy).infallible() ==> res is Ok && final(entropy).infallible(),
        len <= 1 ==> res is Ok,
        old(entropy).is_scripted() ==> final(entropy).is_scripted() && (match shuffle_after(
            |k: nat| old(entropy).scripted_draw(k),
            len as nat,
            shuffle_steps(len as nat),
        ) {
            Some(perm) => res matches Ok(v) && v@ == perm.take(sample_size as int) && forall|k: nat| #[trigger]
                final(entropy).scripted_draw(k) == old(entropy).scripted_draw(shuffle_steps(len as nat) + k),
            None => res == Err::<Vec<usize>, QkdError>(QkdError::EntropyExhausted),
        }),
        exists|g: Seq<u64>| #[trigger] shuffle_consumed(g, len as nat, sample_size as int, res),
{
    let ghost d = |k: nat| old(entropy).scripted_draw(k);
    let ghost sc = old(entropy).is_scripted();
    let ghost mut g: Seq<u64> = Seq::empty();
    let mut idx: Vec<usize> = Vec::new();
    let mut k: usize = 0;
    while k < len
        invariant
            0 <= k <= len,
            idx@.len() == k,
            forall|t: int| 0 <= t < k ==> #[trigger] idx@[t] == t,
        decreases len - k,
    {
        idx.push(k);
        k = k + 1;
    }
    assert(idx@ =~= identity_positions(len as nat));
    let mut i: usize = len;
    while i > 1
        invariant
            0 <= i <= len,
            len >= 1 ==> i >= 1,
            idx@.len() == len,
            distinct_below(idx@, len as nat),
            old(entropy).infallible() ==> entropy.infallible(),
            d == (|k: nat| old(entropy).scripted_draw(k)),
            sc == old(entropy).is_scripted(),
            sc ==> entropy.is_scripted() && shuffle_after(d, len as nat, (len - i) as nat) == Some(idx@)
                && forall|k: nat| #[trigger] entropy.scripted_draw(k) == d(((len - i) + k) as nat),
            g.len() == len - i,
            shuffle_after(draws_of(g), len as nat, g.len()) == Some(idx@),
        decreases i,
    {
        let ghost t: nat = (len - i) as nat;
        i = i - 1;
        let ghost old_e = *entropy;
        let r = match entropy.next_u64() {
            Ok(x) => x,
            Err(e) => {
                proof {
                    if sc {
                        assert(old_e.scripted_draw(0) == d(t));
                        assert(shuffle_after(d, len as nat, t + 1) is None);
                        lemma_shuffle_failure_persists(d, len as nat, t + 1, shuffle_steps(len as nat));
                    }
                    assert(draws_of(g)(t) is None);
                    assert(shuffle_after(draws_of(g), len as nat, t + 1) is None);
                    lemma_shuffle_failure_persists(draws_of(g), len as nat, t + 1, shuffle_steps(len as nat));
                    assert(shuffle_consumed(g, len as nat, sample_size as int, Err::<Vec<usize>, QkdError>(e)));
                }
                return Err(e);
            },
        };
        proof {
            if sc {
                assert(old_e.scripted_draw(0) == d(t));
            }
        }
        #[verifier::truncate]
        let ru = r as usize;
        let j = ru % (i + 1);
        let a = idx[i];
        let b = idx[j];
        let ghost before = idx@;
        idx.set(i, b);
        idx.set(j, a);
        proof {
            assert forall|p: int, q: int|
                0 <= p < idx@.len() && 0 <= q < idx@.len() && p != q implies #[trigger] idx@[p] != #[trigger] idx@[q] by {
                let p0 = if p == i { j as int } else if p == j { i as int } else { p };
                let q0 = if q == i { j as int } else if q == j { i as int } else { q };
                assert(idx@[p] == before[p0]);
                assert(idx@[q] == before[q0]);
            }
            assert forall|p: int| 0 <= p < idx@.len() implies #[trigger] idx@[p] < len by {
                let p0 = if p == i { j as int } else if p == j { i as int } else { p };
                assert(idx@[p] == before[p0]);
            }
            if sc {
                assert(idx@ =~= before.update(i as int, before[j as int]).update(j as int, before[i as int]));
                assert(shuffle_after(d, len as nat, t + 1) == Some(idx@));
            }
            let g2 = g.push(r);
            lemma_shuffle_reads_prefix(draws_of(g), draws_of(g2), len as nat, t);
            assert(draws_of(g2)(t) == Some(r));
            assert(idx@ =~= before.update(i as int, before[j as int]).update(j as int, before[i as int]));
            assert(shuffle_after(draws_of(g2), len as nat, t + 1) == Some(idx@));
            g = g2;
            if sc {
                assert forall|k: nat| #[trigger] entropy.scripted_draw(k) == d(((len - i) + k) as nat) by {
                    assert(entropy.scripted_draw(k) == old_e.scripted_draw(k + 1));
                }
            }
        }
    }
    idx.truncate(sample_size);
    proof {
        assert(shuffle_consumed(g, len as nat, sample_size as int, Ok::<Vec<usize>, QkdError>(idx)));
    }
    Ok(idx)
}

/// Check the integer session parameters: at least one qubit and a positive
/// sample size.
pub fn validate_counts(qubit_count: usize, sample_size: usize) -> (res: Result<(), QkdError>)
    ensures
        qubit_count == 0 ==> res == Err::<(), QkdError>(QkdError::EmptyTransmission),
        qubit_count > 0 && sample_size == 0 ==> res == Err::<(), QkdError>(QkdError::InvalidSampleSize),
        qubit_count > 0 && sample_size > 0 ==> res is Ok,
{
    if qubit_count == 0 {
        return Err(QkdError::EmptyTransmission);
    }
    if sample_size == 0 {
        return Err(QkdError::InvalidSampleSize);
    }
    Ok(())
}

/// `flips` never flips a bit.
pub open spec fn never_flips<F: Fn(u64) -> bool>(flips: F) -> bool {
    forall|x: u64, b: bool| #[trigger] flips.ensures((x,), b) ==> !b
}

/// `flips` flips every bit.
pub open spec fn always_flips<F: Fn(u64) -> bool>(flips: F) -> bool {
    forall|x: u64, b: bool| #[trigger] flips.ensures((x,), b) ==> b
}

/// `flip` decides as `flips` does on every draw `flips` answers.
pub open spec fn consistent_flips<F: Fn(u64) -> bool>(flips: F, flip: spec_fn(u64) -> bool) -> bool {
    forall|x: u64, b: bool| #[trigger] flips.ensures((x,), b) ==> flip(x) == b
}

/// Whether two draws select the same measurement basis.
pub open spec fn same_basis(a: u64, b: u64) -> bool {
    (bit_of(a) == 0) == (bit_of(b) == 0)
}

/// One qubit of a session, read from draw position `st.0` of `d`: Alice's
/// bit, Alice's basis, Bob's basis, Bob's own random bit when the bases
/// differ, then the draw that `flip` turns into a noise decision on Bob's
/// bit.  When the bases agree, Alice's bit and Bob's (possibly flipped) bit
/// are appended to the sifted bits `st.1` and `st.2`.  `None` when a draw
/// fails.
pub open spec fn qubit_step(
    d: spec_fn(nat) -> Option<u64>,
    flip: spec_fn(u64) -> bool,
    st: (nat, Seq<u8>, Seq<u8>),
) -> Option<(nat, Seq<u8>, Seq<u8>)> {
    let p = st.0;
    match (d(p), d(p + 1), d(p + 2)) {
        (Some(a), Some(ab), Some(bb)) => {
            if same_basis(ab, bb) {
                match d(p + 3) {
                    Some(f) => {
                        let bob = if flip(f) {
                            bit_of(a) ^ 1
                        } else {
                            bit_of(a)
                        };
                        Some((p + 4, st.1.push(bit_of(a)), st.2.push(bob)))
                    },
                    None => None,
                }
            } else {
                match (d(p + 3), d(p + 4)) {
                    (Some(_), Some(_)) => Some((p + 5, st.1, st.2)),
                    _ => None,
                }
            }
        },
        _ => None,
    }
}

/// Sifting after `n` qubits: the next draw position and the sifted bits of
/// Alice and Bob.  `None` when a draw fails.
pub open spec fn sift(d: spec_fn(nat) -> Option<u64>, flip: spec_fn(u64) -> bool, n: nat) -> Option<
    (nat, Seq<u8>, Seq<u8>),
>
    decreases n,
{
    if n == 0 {
        Some((0nat, Seq::empty(), Seq::empty()))
    } else {
        match sift(d, flip, (n - 1) as nat) {
            None => None,
            Some(st) => qubit_step(d, flip, st),
        }
    }
}

proof fn lemma_sift_failure_persists(d: spec_fn(nat) -> Option<u64>, flip: spec_fn(u64) -> bool, n: nat, n2: nat)
    requires
        n <= n2,
        sift(d, flip, n) is None,
    ensures
        sift(d, flip, n2) is None,
    decreases n2,
{
    if n < n2 {
        lemma_sift_failure_persists(d, flip, n, (n2 - 1) as nat);
    }
}

/// Sampled positions where Alice's and Bob's bits differ.
pub open spec fn count_mismatches(alice: Seq<u8>, bob: Seq<u8>, sample: Seq<usize>) -> nat
    decreases sample.len(),
{
    if sample.len() == 0 {
        0
    } else {
        count_mismatches(alice, bob, sample.drop_last()) + if alice[sample.last() as int]
            != bob[sample.last() as int] {
            1nat
        } else {
            0nat
        }
    }
}

/// Alice's bits among the first `i` positions that are not sampled, in order.
pub open spec fn unsampled_bits(alice: Seq<u8>, sample: Seq<usize>, i: nat) -> Seq<u8>
    decreases i,
{
    if i == 0 {
        Seq::empty()
    } else {
        let prev = unsampled_bits(alice, sample, (i - 1) as nat);
        if sample.contains((i - 1) as usize) {
            prev
        } else {
            prev.push(alice[i - 1])
        }
    }
}

/// The outcome of a session over the draws `d` with noise decisions `flip`:
/// sift `qubit_count` qubits, fail with `InsufficientSiftedBits` when fewer
/// than `sample_size` positions were sifted, shuffle the sifted positions
/// with the draws that follow, sample the first `sample_size`, and report
/// `(raw, sifted, sampled, mismatches, key bits)`.  A failing draw gives
/// `EntropyExhausted`.
pub open spec fn bb84_outcome(
    d: spec_fn(nat) -> Option<u64>,
    flip: spec_fn(u64) -> bool,
    qubit_count: nat,
    sample_size: nat,
) -> Result<(nat, nat, nat, nat, Seq<u8>), QkdError> {
    match sift(d, flip, qubit_count) {
        None => Err(QkdError::EntropyExhausted),
        Some(st) => {
            let len = st.1.len();
            if len < sample_size {
                Err(QkdError::InsufficientSiftedBits)
            } else {
                match shuffle_after(|k: nat| d(st.0 + k), len, shuffle_steps(len)) {
                    None => Err(QkdError::EntropyExhausted),
                    Some(perm) => {
                        let sample = perm.take(sample_size as int);
                        Ok(
                            (
                                qubit_count,
                                len,
                                sample_size,
                                count_mismatches(st.1, st.2, sample),
                                unsampled_bits(st.1, sample, len),
                            ),
                        )
                    },
                }
            }
        },
    }
}

impl View for Bb84Tally {
    type V = (nat, nat, nat, nat, Seq<u8>);

    /// `(raw, sifted, sampled, mismatches, key bits)`.
    open spec fn view(&self) -> (nat, nat, nat, nat, Seq<u8>) {
        (
            self.raw_bits as nat,
            self.sifted_bits as nat,
            self.sampled_bits as nat,
            self.mismatches as nat,
            self.final_key_bits@,
        )
    }
}

/// A session result with the tally taken by its view.
pub open spec fn tally_outcome(res: Result<Bb84Tally, QkdError>) -> Result<(nat, nat, nat, nat, Seq<u8>), QkdError> {
    match res {
        Ok(t) => Ok(t@),
        Err(e) => Err(e),
    }
}

/// Sifting reads only the draws before the position it reaches.
proof fn lemma_sift_reads_prefix(
    d1: spec_fn(nat) -> Option<u64>,
    d2: spec_fn(nat) -> Option<u64>,
    fl: spec_fn(u64) -> bool,
    n: nat,
)
    requires
        sift(d1, fl, n) is Some,
        forall|k: nat| k < (sift(d1, fl, n)->0).0 ==> #[trigger] d1(k) == d2(k),
    ensures
        sift(d2, fl, n) == sift(d1, fl, n),
    decreases n,
{
    if n > 0 {
        let st = sift(d1, fl, (n - 1) as nat)->0;
        let p = st.0;
        let end = (sift(d1, fl, n)->0).0;
        assert(end >= p + 4);
        assert(d1(p) == d2(p));
        assert(d1(p + 1) == d2(p + 1));
        assert(d1(p + 2) == d2(p + 2));
        assert(d1(p + 3) == d2(p + 3));
        if end > p + 4 {
            assert(d1(p + 4) == d2(p + 4));
        }
        lemma_sift_reads_prefix(d1, d2, fl, (n - 1) as nat);
    }
}

/// Shuffling reads only its first `t` draws.
proof fn lemma_shuffle_reads_prefix(
    d1: spec_fn(nat) -> Option<u64>,
    d2: spec_fn(nat) -> Option<u64>,
    len: nat,
    t: nat,
)
    requires
        forall|k: nat| k < t ==> #[trigger] d1(k) == d2(k),
    ensures
        shuffle_after(d2, len, t) == shuffle_after(d1, len, t),
    decreases t,
{
    if t > 0 {
        assert(d1((t - 1) as nat) == d2((t - 1) as nat));
        lemma_shuffle_reads_prefix(d1, d2, len, (t - 1) as nat);
    }
}

/// A session whose sifting stops at qubit `n` because a draw fails ends in
/// `EntropyExhausted`.
proof fn lemma_session_stops<F: Fn(u64) -> bool>(
    flips: F,
    d: spec_fn(nat) -> Option<u64>,
    n: nat,
    qubit_count: nat,
    sample_size: nat,
    st: (nat, Seq<u8>, Seq<u8>),
)
    requires
        n < qubit_count,
        forall|fl: spec_fn(u64) -> bool| #[trigger] consistent_flips(flips, fl) ==> sift(d, fl, n) == Some(st)
            && qubit_step(d, fl, st) is None,
    ensures
        forall|fl: spec_fn(u64) -> bool| #[trigger] consistent_flips(flips, fl) ==> bb84_outcome(d, fl, qubit_count, sample_size)
            == Err::<(nat, nat, nat, nat, Seq<u8>), QkdError>(QkdError::EntropyExhausted),
{
    assert forall|fl: spec_fn(u64) -> bool| #[trigger] consistent_flips(flips, fl) implies bb84_outcome(d, fl, qubit_count, sample_size)
        == Err::<(nat, nat, nat, nat, Seq<u8>), QkdError>(QkdError::EntropyExhausted) by {
        assert(sift(d, fl, n + 1) is None);
        lemma_sift_failure_persists(d, fl, n + 1, qubit_count);
    }
}

/// A session result agrees with an outcome computed from draws: they are
/// equal, except that where a draw failed the result carries the source's
/// own error.
pub open spec fn agrees_with_draws(
    res: Result<Bb84Tally, QkdError>,
    o: Result<(nat, nat, nat, nat, Seq<u8>), QkdError>,
) -> bool {
    if o == Err::<(nat, nat, nat, nat, Seq<u8>), QkdError>(QkdError::EntropyExhausted) {
        res is Err
    } else {
        tally_outcome(res) == o
    }
}

/// `res` is the session outcome over the draws `g`, for every noise decision
/// consistent with `flips`: `g` are the draws a session consumed, in order.
pub open spec fn session_from_draws<F: Fn(u64) -> bool>(
    res: Result<Bb84Tally, QkdError>,
    g: Seq<u64>,
    flips: F,
    qubit_count: nat,
    sample_size: nat,
) -> bool {
    forall|fl: spec_fn(u64) -> bool| #[trigger]
        consistent_flips(flips, fl) ==> agrees_with_draws(res, bb84_outcome(draws_of(g), fl, qubit_count, sample_size))
}

/// The draw that records a basis: 0 rectilinear, 1 diagonal.
spec fn basis_bit(b: Basis) -> u64 {
    if b == Basis::Rectilinear {
        0
    } else {
        1
    }
}

proof fn lemma_small_bits()
    ensures
        bit_of(0) == 0,
        bit_of(1) == 1,
        forall|b: u8| b <= 1 ==> #[trigger] bit_of(b as u64) == b,
{
    assert(bit_of(0) == 0) by (bit_vector);
    assert(bit_of(1) == 1) by (bit_vector);
    assert forall|b: u8| b <= 1 implies #[trigger] bit_of(b as u64) == b by {
        assert(b <= 1 ==> ((b as u64) & 1) as u8 == b) by (bit_vector);
    }
}

/// Logged draws extend the log `log0` the sifting of qubit `n` started from.
proof fn lemma_logged_sift<F: Fn(u64) -> bool>(
    flips: F,
    log0: Seq<u64>,
    lc: Seq<u64>,
    n: nat,
    st: (nat, Seq<u8>, Seq<u8>),
)
    requires
        lc.len() >= log0.len(),
        forall|k: int| 0 <= k < log0.len() ==> lc[k] == log0[k],
        st.0 == log0.len(),
        forall|fl: spec_fn(u64) -> bool| #[trigger] consistent_flips(flips, fl) ==> sift(draws_of(log0), fl, n) == Some(st),
    ensures
        forall|fl: spec_fn(u64) -> bool| #[trigger] consistent_flips(flips, fl) ==> sift(draws_of(lc), fl, n) == Some(st),
{
    assert forall|fl: spec_fn(u64) -> bool| #[trigger] consistent_flips(flips, fl) implies sift(draws_of(lc), fl, n)
        == Some(st) by {
        assert forall|k: nat| k < (sift(draws_of(log0), fl, n)->0).0 implies #[trigger] draws_of(log0)(k) == draws_of(lc)(k) by {
            assert(lc[k as int] == log0[k as int]);
        }
        lemma_sift_reads_prefix(draws_of(log0), draws_of(lc), fl, n);
    }
}

/// The draws of a scripted source after one successful draw.
proof fn lemma_advance<E: EntropySource>(before: E, after: E, d: spec_fn(nat) -> Option<u64>, q: nat)
    requires
        forall|k: nat| #[trigger] before.scripted_draw(k) == d(q + k),
        forall|k: nat| #[trigger] after.scripted_draw(k) == before.scripted_draw(k + 1),
    ensures
        forall|k: nat| #[trigger] after.scripted_draw(k) == d(q + 1 + k),
{
    assert forall|k: nat| #[trigger] after.scripted_draw(k) == d(q + 1 + k) by {
        assert(before.scripted_draw(k + 1) == d(q + (k + 1)));
    }
}

/// Run one BB84 session with `qubit_count` qubits and `sample_size` sampled
/// positions.  For each qubit it draws Alice's bit, Alice's basis and Bob's
/// basis, a random bit for Bob when the bases differ, and a 64-bit draw that
/// `flips` turns into a noise decision.  Fails with
/// `InsufficientSiftedBits` when fewer positions than `sample_size` are
/// sifted, and with the entropy source's error when it fails: with an
/// infallible source only the first can happen, and with no qubits and no
/// sample the session succeeds without drawing.  Whatever the source, the
/// result is `bb84_outcome` over the draws the session consumed (a bit or
/// basis draw taken as the bit it gave), up to the source's own error where
/// a draw failed; with a scripted source it is `bb84_outcome` over its
/// scripted draws.
pub fn run_bb84<E: EntropySource, F: Fn(u64) -> bool>(
    qubit_count: usize,
    sample_size: usize,
    entropy: &mut E,
    flips: F,
) -> (res: Result<Bb84Tally, QkdError>)
    requires
        forall|x: u64| flips.requires((x,)),
    ensures
        res matches Ok(t) ==> {
            &&& t.raw_bits == qubit_count
            &&& t.sampled_bits == sample_size
            &&& sample_size <= t.sifted_bits <= qubit_count
            &&& t.mismatches <= sample_size
            &&& t.final_key_bits@.len() == t.sifted_bits - sample_size
            &&& forall|i: int| 0 <= i < t.final_key_bits@.len() ==> #[trigger] t.final_key_bits@[i] <= 1
            &&& never_flips(flips) ==> t.mismatches == 0
            &&& always_flips(flips) ==> t.mismatches == sample_size
        },
        sample_size > qubit_count ==> res is Err,
        qubit_count == 0 && sample_size == 0 ==> (res matches Ok(t) && t.raw_bits == 0 && t.sifted_bits == 0
            && t.sampled_bits == 0 && t.mismatches == 0 && t.final_key_bits@.len() == 0),
        old(entropy).infallible() ==> final(entropy).infallible() && (res is Err ==> res == Err::<
            Bb84Tally,
            QkdError,
        >(QkdError::InsufficientSiftedBits)),
        old(entropy).infallible() && sample_size == 0 ==> res is Ok,
        old(entropy).is_scripted() ==> forall|flip: spec_fn(u64) -> bool| #[trigger]
            consistent_flips(flips, flip) ==> tally_outcome(res) == bb84_outcome(
                |k: nat| old(entropy).scripted_draw(k),
                flip,
                qubit_count as nat,
                sample_size as nat,
            ),
        exists|g: Seq<u64>| #[trigger] session_from_draws(res, g, flips, qubit_count as nat, sample_size as nat),
{
    let ghost d0 = |k: nat| old(entropy).scripted_draw(k);
    let ghost sc = old(entropy).is_scripted();
    let ghost mut pos: nat = 0;
    let ghost mut log: Seq<u64> = Seq::empty();
    proof {
        lemma_small_bits();
    }
    let mut sifted_alice: Vec<u8> = Vec::new();
    let mut sifted_bob: Vec<u8> = Vec::new();
    let mut n: usize = 0;
    while n < qubit_count
        invariant
            0 <= n <= qubit_count,
            sifted_alice@.len() == sifted_bob@.len(),
            sifted_alice@.len() <= n,
            forall|i: int| 0 <= i < sifted_alice@.len() ==> #[trigger] sifted_alice@[i] <= 1,
            forall|x: u64| flips.requires((x,)),
            never_flips(flips) ==> sifted_alice@ == sifted_bob@,
            always_flips(flips) ==> forall|i: int| 0 <= i < sifted_alice@.len() ==> #[trigger] sifted_alice@[i] != sifted_bob@[i],
            old(entropy).infallible() ==> entropy.infallible(),
            d0 == (|k: nat| old(entropy).scripted_draw(k)),
            sc == old(entropy).is_scripted(),
            sc ==> entropy.is_scripted() && forall|k: nat| #[trigger] entropy.scripted_draw(k) == d0(pos + k),
            sc ==> forall|fl: spec_fn(u64) -> bool| #[trigger] consistent_flips(flips, fl) ==> sift(d0, fl, n as nat)
                == Some((pos, sifted_alice@, sifted_bob@)),
            forall|fl: spec_fn(u64) -> bool| #[trigger] consistent_flips(flips, fl) ==> sift(draws_of(log), fl, n as nat)
                == Some((log.len(), sifted_alice@, sifted_bob@)),
            bit_of(0) == 0,
            bit_of(1) == 1,
            forall|b: u8| b <= 1 ==> #[trigger] bit_of(b as u64) == b,
        decreases qubit_count - n,
    {
        let ghost st = (pos, sifted_alice@, sifted_bob@);
        let ghost log0 = log;
        let ghost gst = (log0.len(), sifted_alice@, sifted_bob@);
        let ghost e1 = *entropy;
        let alice_bit = match entropy.next_bit() {
            Ok(b) => b,
            Err(e) => {
                proof {
                    if sc {
                        assert(d0(pos + 0) is None);
                        lemma_session_stops(flips, d0, n as nat, qubit_count as nat, sample_size as nat, st);
                    }
                    let lc = log0;
                    lemma_logged_sift(flips, log0, lc, n as nat, gst);
                    assert forall|fl: spec_fn(u64) -> bool| #[trigger] consistent_flips(flips, fl) implies qubit_step(
                        draws_of(lc),
                        fl,
                        gst,
                    ) is None by {}
                    lemma_session_stops(flips, draws_of(lc), n as nat, qubit_count as nat, sample_size as nat, gst);
                    assert(session_from_draws(Err::<Bb84Tally, QkdError>(e), lc, flips, qubit_count as nat, sample_size as nat));
                }
                return Err(e);
            },
        };
        proof {
            if sc {
                assert(e1.scripted_draw(0) == d0(pos + 0));
                lemma_advance(e1, *entropy, d0, pos);
            }
        }
        let ghost e2 = *entropy;
        let alice_basis = match Basis::random(entropy) {
            Ok(b) => b,
            Err(e) => {
                proof {
                    if sc {
                        assert(e2.scripted_draw(0) == d0(pos + 1 + 0));
                        lemma_session_stops(flips, d0, n as nat, qubit_count as nat, sample_size as nat, st);
                    }
                    let lc = log0.push(alice_bit as u64);
                    lemma_logged_sift(flips, log0, lc, n as nat, gst);
                    assert forall|fl: spec_fn(u64) -> bool| #[trigger] consistent_flips(flips, fl) implies qubit_step(
                        draws_of(lc),
                        fl,
                        gst,
                    ) is None by {}
                    lemma_session_stops(flips, draws_of(lc), n as nat, qubit_count as nat, sample_size as nat, gst);
                    assert(session_from_draws(Err::<Bb84Tally, QkdError>(e), lc, flips, qubit_count as nat, sample_size as nat));
                }
                return Err(e);
            },
        };
        proof {
            if sc {
                assert(e2.scripted_draw(0) == d0(pos + 1 + 0));
                lemma_advance(e2, *entropy, d0, pos + 1);
            }
        }
        let ghost e3 = *entropy;
        let bob_basis = match Basis::random(entropy) {
            Ok(b) => b,
            Err(e) => {
                proof {
                    if sc {
                        assert(e3.scripted_draw(0) == d0(pos + 2 + 0));
                        lemma_session_stops(flips, d0, n as nat, qubit_count as nat, sample_size as nat, st);
                    }
                    let lc = log0.push(alice_bit as u64).push(basis_bit(alice_basis));
                    lemma_logged_sift(flips, log0, lc, n as nat, gst);
                    assert forall|fl: spec_fn(u64) -> bool| #[trigger] consistent_flips(flips, fl) implies qubit_step(
                        draws_of(lc),
                        fl,
                        gst,
                    ) is None by {}
                    lemma_session_stops(flips, draws_of(lc), n as nat, qubit_count as nat, sample_size as nat, gst);
                    assert(session_from_draws(Err::<Bb84Tally, QkdError>(e), lc, flips, qubit_count as nat, sample_size as nat));
                }
                return Err(e);
            },
        };
        proof {
            if sc {
                assert(e3.scripted_draw(0) == d0(pos + 2 + 0));
                lemma_advance(e3, *entropy, d0, pos + 2);
            }
        }
        let same = alice_basis == bob_basis;
        let ghost l3 = log0.push(alice_bit as u64).push(basis_bit(alice_basis)).push(basis_bit(bob_basis));
        let ghost e4 = *entropy;
        let ideal_bob_bit = if same {
            alice_bit
        } else {
            match entropy.next_bit() {
                Ok(b) => b,
                Err(e) => {
                    proof {
                        if sc {
                            assert(e4.scripted_draw(0) == d0(pos + 3 + 0));
                            lemma_session_stops(flips, d0, n as nat, qubit_count as nat, sample_size as nat, st);
                        }
                        let lc = l3;
                        lemma_logged_sift(flips, log0, lc, n as nat, gst);
                        assert forall|fl: spec_fn(u64) -> bool| #[trigger] consistent_flips(flips, fl) implies qubit_step(
                            draws_of(lc),
                            fl,
                            gst,
                        ) is None by {}
                        lemma_session_stops(flips, draws_of(lc), n as nat, qubit_count as nat, sample_size as nat, gst);
                        assert(session_from_draws(Err::<Bb84Tally, QkdError>(e), lc, flips, qubit_count as nat, sample_size as nat));
                    }
                    return Err(e);
                },
            }
        };
        let ghost fpos: nat = if same { pos + 3 } else { pos + 4 };
        let ghost l4 = if same { l3 } else { l3.push(ideal_bob_bit as u64) };
        proof {
            if sc && !same {
                assert(e4.scripted_draw(0) == d0(pos + 3 + 0));
                lemma_advance(e4, *entropy, d0, pos + 3);
            }
        }
        let ghost e5 = *entropy;
        let draw = match entropy.next_u64() {
            Ok(x) => x,
            Err(e) => {
                proof {
                    if sc {
                        assert(e5.scripted_draw(0) == d0(fpos + 0));
                        lemma_session_stops(flips, d0, n as nat, qubit_count as nat, sample_size as nat, st);
                    }
                    let lc = l4;
                    lemma_logged_sift(flips, log0, lc, n as nat, gst);
                    assert forall|fl: spec_fn(u64) -> bool| #[trigger] consistent_flips(flips, fl) implies qubit_step(
                        draws_of(lc),
                        fl,
                        gst,
                    ) is None by {}
                    lemma_session_stops(flips, draws_of(lc), n as nat, qubit_count as nat, sample_size as nat, gst);
                    assert(session_from_draws(Err::<Bb84Tally, QkdError>(e), lc, flips, qubit_count as nat, sample_size as nat));
                }
                return Err(e);
            },
        };
        proof {
            if sc {
                assert(e5.scripted_draw(0) == d0(fpos + 0));
                lemma_advance(e5, *entropy, d0, fpos);
            }
        }
        let flip = flips(draw);
        let bob_bit = if flip {
            ideal_bob_bit ^ 1
        } else {
            ideal_bob_bit
        };
        if same {
            let ghost a0 = sifted_alice@;
            let ghost b0 = sifted_bob@;
            sifted_alice.push(alice_bit);
            sifted_bob.push(bob_bit);
            proof {
                if never_flips(flips) {
                    assert(!flip);
                    assert(sifted_alice@ =~= sifted_bob@);
                }
                if always_flips(flips) {
                    assert(flip);
                    assert(alice_bit ^ 1 != alice_bit) by (bit_vector);
                    assert forall|i: int| 0 <= i < sifted_alice@.len() implies #[trigger] sifted_alice@[i] != sifted_bob@[i] by {
                        if i < a0.len() {
                            assert(sifted_alice@[i] == a0[i]);
                            assert(sifted_bob@[i] == b0[i]);
                        }
                    }
                }
            }
        }
        proof {
            if sc {
                assert forall|fl: spec_fn(u64) -> bool| #[trigger] consistent_flips(flips, fl) implies sift(
                    d0,
                    fl,
                    (n + 1) as nat,
                ) == Some((fpos + 1, sifted_alice@, sifted_bob@)) by {
                    assert(fl(draw) == flip);
                    assert(sift(d0, fl, n as nat) == Some(st));
                    assert(qubit_step(d0, fl, st) == Some((fpos + 1, sifted_alice@, sifted_bob@)));
                }
                pos = fpos + 1;
            }
            let l5 = l4.push(draw);
            lemma_logged_sift(flips, log0, l5, n as nat, gst);
            assert forall|fl: spec_fn(u64) -> bool| #[trigger] consistent_flips(flips, fl) implies sift(
                draws_of(l5),
                fl,
                (n + 1) as nat,
            ) == Some((l5.len(), sifted_alice@, sifted_bob@)) by {
                assert(fl(draw) == flip);
                assert(sift(draws_of(l5), fl, n as nat) == Some(gst));
                assert(qubit_step(draws_of(l5), fl, gst) == Some((l5.len(), sifted_alice@, sifted_bob@)));
            }
            log = l5;
        }
        n = n + 1;
    }
    let sifted = sifted_alice.len();
    if sifted < sample_size {
        proof {
            assert(session_from_draws(
                Err::<Bb84Tally, QkdError>(QkdError::InsufficientSiftedBits),
                log,
                flips,
                qubit_count as nat,
                sample_size as nat,
            ));
        }
        return Err(QkdError::InsufficientSiftedBits);
    }
    let ghost dd = |k: nat| d0(pos + k);
    let ghost e6 = *entropy;
    proof {
        if sc {
            assert((|k: nat| e6.scripted_draw(k)) =~= dd);
            assert forall|fl: spec_fn(u64) -> bool| #[trigger] consistent_flips(flips, fl) implies (|k: nat|
                d0((sift(d0, fl, qubit_count as nat)->0).0 + k)) == dd by {
                assert(sift(d0, fl, qubit_count as nat) == Some((pos, sifted_alice@, sifted_bob@)));
                assert((|k: nat| d0((sift(d0, fl, qubit_count as nat)->0).0 + k)) =~= dd);
            }
        }
    }
    let drawn = random_unique_indices(sifted, sample_size, entropy);
    let ghost g2 = choose|g: Seq<u64>| shuffle_consumed(g, sifted as nat, sample_size as int, drawn);
    let ghost all = log + g2;
    let ghost gst = (log.len(), sifted_alice@, sifted_bob@);
    proof {
        lemma_logged_sift(flips, log, all, qubit_count as nat, gst);
        assert forall|fl: spec_fn(u64) -> bool| #[trigger] consistent_flips(flips, fl) implies (|k: nat|
            draws_of(all)((sift(draws_of(all), fl, qubit_count as nat)->0).0 + k)) == draws_of(g2) by {
            assert(sift(draws_of(all), fl, qubit_count as nat) == Some(gst));
            assert((|k: nat| draws_of(all)((sift(draws_of(all), fl, qubit_count as nat)->0).0 + k)) =~= draws_of(
                g2,
            ));
        }
    }
    let sample_indices = match drawn {
        Ok(v) => v,
        Err(e) => {
            proof {
                assert(session_from_draws(Err::<Bb84Tally, QkdError>(e), all, flips, qubit_count as nat, sample_size as nat));
            }
            return Err(e);
        },
    };
    let mut is_sample: Vec<bool> = Vec::new();
    let mut k: usize = 0;
    while k < sifted
        invariant
            0 <= k <= sifted,
            is_sample@ == Seq::new(k as nat, |i: int| false),
        decreases sifted - k,
    {
        is_sample.push(false);
        k = k + 1;
        assert(is_sample@ =~= Seq::new(k as nat, |i: int| false));
    }
    proof {
        lemma_count_marked_all_false(sifted as nat);
    }
    let mut j: usize = 0;
    while j < sample_indices.len()
        invariant
            0 <= j <= sample_indices@.len(),
            sample_indices@.len() == sample_size,
            distinct_below(sample_indices@, sifted as nat),
            is_sample@.len() == sifted,
            count_marked(is_sample@) == j,
            forall|p: int| 0 <= p < sifted ==> (#[trigger] is_sample@[p] <==> exists|t: int| 0 <= t < j && sample_indices@[t] == p),
        decreases sample_indices@.len() - j,
    {
        let p = sample_indices[j];
        proof {
            if is_sample@[p as int] {
                let t = choose|t: int| 0 <= t < j && sample_indices@[t] == p;
                assert(sample_indices@[t] == sample_indices@[j as int]);
            }
            lemma_count_marked_update(is_sample@, p as int);
        }
        let ghost before = is_sample@;
        is_sample.set(p, true);
        proof {
            assert forall|q: int| 0 <= q < sifted implies (#[trigger] is_sample@[q] <==> exists|t: int|
                0 <= t < j + 1 && sample_indices@[t] == q) by {
                if q == p {
                    assert(sample_indices@[j as int] == q);
                } else {
                    assert(is_sample@[q] == before[q]);
                    if exists|t: int| 0 <= t < j + 1 && sample_indices@[t] == q {
                        let t = choose|t: int| 0 <= t < j + 1 && sample_indices@[t] == q;
                        assert(t != j);
                    }
                }
            }
        }
        j = j + 1;
    }
    let mut mismatches: usize = 0;
    let mut m: usize = 0;
    while m < sample_indices.len()
        invariant
            0 <= m <= sample_indices@.len(),
            sample_indices@.len() == sample_size,
            distinct_below(sample_indices@, sifted as nat),
            sifted_alice@.len() == sifted,
            sifted_bob@.len() == sifted,
            mismatches <= m,
            mismatches == count_mismatches(sifted_alice@, sifted_bob@, sample_indices@.take(m as int)),
            never_flips(flips) ==> sifted_alice@ == sifted_bob@,
            never_flips(flips) ==> mismatches == 0,
            always_flips(flips) ==> forall|i: int| 0 <= i < sifted ==> #[trigger] sifted_alice@[i] != sifted_bob@[i],
            always_flips(flips) ==> mismatches == m,
        decreases sample_indices@.len() - m,
    {
        let s = sample_indices[m];
        proof {
            assert(sample_indices@.take(m + 1).drop_last() =~= sample_indices@.take(m as int));
        }
        if sifted_alice[s] != sifted_bob[s] {
            mismatches = mismatches + 1;
        }
        m = m + 1;
    }
    proof {
        assert(sample_indices@.take(sample_size as int) =~= sample_indices@);
    }
    let mut final_key_bits: Vec<u8> = Vec::new();
    let mut i: usize = 0;
    while i < sifted
        invariant
            0 <= i <= sifted,
            is_sample@.len() == sifted,
            sifted_alice@.len() == sifted,
            forall|q: int| 0 <= q < sifted ==> #[trigger] sifted_alice@[q] <= 1,
            final_key_bits@.len() + count_marked(is_sample@.take(i as int)) == i,
            final_key_bits@ == unsampled_bits(sifted_alice@, sample_indices@, i as nat),
            sample_indices@.len() == sample_size,
            forall|p: int| 0 <= p < sifted ==> (#[trigger] is_sample@[p] <==> exists|t: int|
                0 <= t < sample_size && sample_indices@[t] == p),
            forall|q: int| 0 <= q < final_key_bits@.len() ==> #[trigger] final_key_bits@[q] <= 1,
        decreases sifted - i,
    {
        proof {
            lemma_count_marked_take(is_sample@, i as int);
        }
        proof {
            if is_sample@[i as int] {
                let t = choose|t: int| 0 <= t < sample_size && sample_indices@[t] == i;
                assert(sample_indices@.contains(i));
            } else {
                if sample_indices@.contains(i) {
                    let t = choose|t: int| 0 <= t < sample_indices@.len() && sample_indices@[t] == i;
                    assert(is_sample@[i as int]);
                }
            }
        }
        if !is_sample[i] {
            final_key_bits.push(sifted_alice[i]);
        }
        i = i + 1;
    }
    proof {
        assert(is_sample@.take(sifted as int) =~= is_sample@);
    }
    let tally = Bb84Tally {
        raw_bits: qubit_count,
        sifted_bits: sifted,
        sampled_bits: sample_size,
        mismatches,
        final_key_bits,
    };
    proof {
        assert(session_from_draws(Ok::<Bb84Tally, QkdError>(tally), all, flips, qubit_count as nat, sample_size as nat));
    }
    Ok(tally)
}

/// The draw stream of a fixed list: its items, then failing draws.
pub open spec fn draws_of(s: Seq<u64>) -> spec_fn(nat) -> Option<u64> {
    |k: nat|
        if k < s.len() {
            Some(s[k as int])
        } else {
            None
        }
}

/// Replays a fixed list of draws, then fails with `EntropyExhausted`.
struct ReplayDraws {
    values: Vec<u64>,
    pos: usize,
}

impl EntropySource for ReplayDraws {
    open spec fn is_scripted(&self) -> bool {
        true
    }

    closed spec fn scripted_draw(&self, k: nat) -> Option<u64> {
        if self.pos + k < self.values@.len() {
            Some(self.values@[self.pos + k])
        } else {
            None
        }
    }

    fn next_u64(&mut self) -> (r: Result<u64, QkdError>) {
        if self.pos < self.values.len() {
            let x = self.values[self.pos];
            self.pos = self.pos + 1;
            proof {
                assert forall|k: nat| #[trigger] self.scripted_draw(k) == old(self).scripted_draw(k + 1) by {
                    assert(self.pos + k == old(self).pos + (k + 1));
                }
            }
            Ok(x)
        } else {
            Err(QkdError::EntropyExhausted)
        }
    }
}

/// Run one BB84 session on the fixed list `draws`, consumed in order as
/// `run_bb84` consumes an entropy source; a session that needs more draws
/// than the list holds ends in `EntropyExhausted`.
pub fn tally_from_draws<F: Fn(u64) -> bool>(
    draws: &[u64],
    qubit_count: usize,
    sample_size: usize,
    flips: F,
) -> (res: Result<Bb84Tally, QkdError>)
    requires
        forall|x: u64| flips.requires((x,)),
    ensures
        forall|flip: spec_fn(u64) -> bool| #[trigger] consistent_flips(flips, flip) ==> tally_outcome(res)
            == bb84_outcome(draws_of(draws@), flip, qubit_count as nat, sample_size as nat),
{
    let mut source = ReplayDraws { values: vstd::slice::slice_to_vec(draws), pos: 0 };
    let ghost s0 = source;
    proof {
        assert((|k: nat| s0.scripted_draw(k)) =~= draws_of(draws@));
    }
    run_bb84(qubit_count, sample_size, &mut source, flips)
}

} // verus!
