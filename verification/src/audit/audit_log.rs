//! Tamper-evident append-only audit event log.
//!
//! Each [`AuditEntry`] is chained to its predecessor by a SHA-256 hash over
//! `prev_hash || timestamp_le || actor || action || detail`; the first entry
//! chains to 32 zero bytes.  Changing any past entry breaks the chain from
//! that point on, which [`AuditLog::verify_chain`] reports.
use vstd::prelude::*;

use crate::crypto::{sha256, sha256_collides, spec_sha256};
use crate::lex::lemma_utf8_injective;
use crate::util::{bytes_eq, lemma_middle_cancel, push_bytes, push_str_bytes, push_u64_le, utf8};

verus! {

/// Errors of audit log operations.
#[derive(Debug, PartialEq, Eq, Structural)]
pub enum AuditError {
    EmptyActor,
    EmptyAction,
    ChainBroken(usize),
    EmptyLog,
}

/// Severity level of an audit event.
#[derive(Debug, Clone, Copy, PartialEq, Eq, Structural)]
pub enum Severity {
    Info,
    Warning,
    Critical,
}

/// A single audit log entry.
#[derive(Debug, Clone, PartialEq, Eq)]
pub struct AuditEntry {
    /// Sequential index (0-based).
    pub index: usize,
    /// Unix timestamp (seconds) supplied by the caller.
    pub timestamp: u64,
    /// Identity of the actor that performed the action.
    pub actor: String,
    /// Short action label (e.g. `"key.generate"`).
    pub action: String,
    /// Optional free-form detail.
    pub detail: Option<String>,
    /// Severity level.
    pub severity: Severity,
    /// SHA-256 hash chaining this entry to the previous one.
    pub entry_hash: Vec<u8>,
}

/// Tamper-evident append-only audit log held in memory.
#[derive(Debug, Clone)]
pub struct AuditLog {
    entries: Vec<AuditEntry>,
}

impl View for AuditLog {
    type V = Seq<AuditEntry>;

    /// The entries in append order.
    closed spec fn view(&self) -> Seq<AuditEntry> {
        self.entries@
    }
}

/// The hash the first entry chains to: 32 zero bytes.
pub open spec fn genesis_hash() -> Seq<u8> {
    Seq::new(32, |i: int| 0u8)
}

/// The characters of an optional detail (empty when absent).
pub open spec fn detail_chars(detail: Option<String>) -> Seq<char> {
    match detail {
        Some(d) => d@,
        None => Seq::empty(),
    }
}

/// The bytes hashed for one entry.
pub open spec fn entry_hash_input(
    prev: Seq<u8>,
    timestamp: u64,
    actor: Seq<char>,
    action: Seq<char>,
    detail: Seq<char>,
) -> Seq<u8> {
    prev + vstd::bytes::spec_u64_to_le_bytes(timestamp) + utf8(actor) + utf8(action) + utf8(detail)
}

/// The chain hash of one entry.
pub open spec fn spec_entry_hash(
    prev: Seq<u8>,
    timestamp: u64,
    actor: Seq<char>,
    action: Seq<char>,
    detail: Seq<char>,
) -> Seq<u8> {
    spec_sha256(entry_hash_input(prev, timestamp, actor, action, detail))
}

/// The hash that entry `i` chains to.
pub open spec fn prev_hash_at(entries: Seq<AuditEntry>, i: int) -> Seq<u8> {
    if i == 0 {
        genesis_hash()
    } else {
        entries[i - 1].entry_hash@
    }
}

/// Entry `i` carries the hash recomputed from its fields and its predecessor.
pub open spec fn entry_consistent(entries: Seq<AuditEntry>, i: int) -> bool {
    entries[i].entry_hash@ == spec_entry_hash(
        prev_hash_at(entries, i),
        entries[i].timestamp,
        entries[i].actor@,
        entries[i].action@,
        detail_chars(entries[i].detail),
    )
}

/// Every entry of the sequence is consistent with its predecessor.
pub open spec fn chain_valid(entries: Seq<AuditEntry>) -> bool {
    forall|i: int| 0 <= i < entries.len() ==> #[trigger] entry_consistent(entries, i)
}

/// Every entry's index equals its position.
pub open spec fn indices_sequential(entries: Seq<AuditEntry>) -> bool {
    forall|i: int| 0 <= i < entries.len() ==> #[trigger] entries[i].index == i
}

/// The hash the next appended entry chains to.
pub open spec fn next_prev_hash(entries: Seq<AuditEntry>) -> Seq<u8> {
    prev_hash_at(entries, entries.len() as int)
}

/// The entry that `append` adds to a log holding `entries`.
pub open spec fn appended_entry(
    entries: Seq<AuditEntry>,
    timestamp: u64,
    actor: Seq<char>,
    action: Seq<char>,
    detail: Option<String>,
    severity: Severity,
    stored_actor: String,
    stored_action: String,
    hash: Vec<u8>,
) -> bool {
    &&& stored_actor@ == actor
    &&& stored_action@ == action
    &&& hash@ == spec_entry_hash(
        next_prev_hash(entries),
        timestamp,
        actor,
        action,
        detail_chars(detail),
    )
}

/// Entries grown from an empty log by `append` calls only: each entry is the
/// one `append` adds to the entries before it.
pub open spec fn built_by_appends(entries: Seq<AuditEntry>) -> bool
    decreases entries.len(),
{
    if entries.len() == 0 {
        true
    } else {
        let prev = entries.drop_last();
        let e = entries.last();
        &&& built_by_appends(prev)
        &&& e.index == prev.len()
        &&& appended_entry(prev, e.timestamp, e.actor@, e.action@, e.detail, e.severity, e.actor, e.action, e.entry_hash)
    }
}

/// Selects the entries recorded for `actor`.
pub open spec fn by_actor(actor: Seq<char>) -> spec_fn(AuditEntry) -> bool {
    |e: AuditEntry| e.actor@ == actor
}

/// Selects the entries recorded with `action`.
pub open spec fn by_action(action: Seq<char>) -> spec_fn(AuditEntry) -> bool {
    |e: AuditEntry| e.action@ == action
}

/// Selects the entries at or above severity level `min_level`.
pub open spec fn at_least(min_level: u8) -> spec_fn(AuditEntry) -> bool {
    |e: AuditEntry| spec_severity_level(e.severity) >= min_level
}

/// Numeric level of a severity (Info < Warning < Critical).
pub open spec fn spec_severity_level(s: Severity) -> u8 {
    match s {
        Severity::Info => 0,
        Severity::Warning => 1,
        Severity::Critical => 2,
    }
}

fn severity_level(s: &Severity) -> (r: u8)
    ensures
        r == spec_severity_level(*s),
{
    match s {
        Severity::Info => 0,
        Severity::Warning => 1,
        Severity::Critical => 2,
    }
}

fn compute_entry_hash(
    prev_hash: &[u8],
    timestamp: u64,
    actor: &str,
    action: &str,
    detail: &str,
) -> (h: Vec<u8>)
    ensures
        h@ == spec_entry_hash(prev_hash@, timestamp, actor@, action@, detail@),
        h@.len() == 32,
{
    let mut data: Vec<u8> = Vec::new();
    push_bytes(&mut data, prev_hash);
    push_u64_le(&mut data, timestamp);
    push_str_bytes(&mut data, actor);
    push_str_bytes(&mut data, action);
    push_str_bytes(&mut data, detail);
    assert(data@ =~= entry_hash_input(prev_hash@, timestamp, actor@, action@, detail@));
    sha256(data.as_slice())
}

fn detail_str(detail: &Option<String>) -> (s: &str)
    ensures
        s@ == detail_chars(*detail),
{
    match detail {
        Some(d) => d.as_str(),
        None => {
            proof {
                reveal_strlit("");
            }
            ""
        },
    }
}

impl AuditLog {
    /// Create an empty log.
    pub fn new() -> (log: Self)
        ensures
            log@ == Seq::<AuditEntry>::empty(),
            built_by_appends(log@),
    {
        AuditLog { entries: Vec::new() }
    }

    /// Append a new event to the log and return the stored entry.
    ///
    /// Fails with [`AuditError::EmptyActor`] when `actor` is empty, else with
    /// [`AuditError::EmptyAction`] when `action` is empty; the log is then unchanged.
    pub fn append(
        &mut self,
        timestamp: u64,
        actor: &str,
        action: &str,
        detail: Option<String>,
        severity: Severity,
    ) -> (res: Result<&AuditEntry, AuditError>)
        ensures
            actor@.len() == 0 ==> res == Err::<&AuditEntry, AuditError>(AuditError::EmptyActor)
                && final(self)@ == old(self)@,
            actor@.len() != 0 && action@.len() == 0 ==> res == Err::<&AuditEntry, AuditError>(
                AuditError::EmptyAction,
            ) && final(self)@ == old(self)@,
            built_by_appends(old(self)@) ==> built_by_appends(final(self)@),
            actor@.len() != 0 && action@.len() != 0 ==> {
                &&& res is Ok
                &&& final(self)@.len() == old(self)@.len() + 1
                &&& final(self)@.drop_last() == old(self)@
                &&& *res->Ok_0 == final(self)@.last()
                &&& res->Ok_0.index == old(self)@.len()
                &&& res->Ok_0.timestamp == timestamp
                &&& res->Ok_0.detail == detail
                &&& res->Ok_0.severity == severity
                &&& appended_entry(
                    old(self)@,
                    timestamp,
                    actor@,
                    action@,
                    detail,
                    severity,
                    res->Ok_0.actor,
                    res->Ok_0.action,
                    res->Ok_0.entry_hash,
                )
            },
    {
        if actor.is_empty() {
            return Err(AuditError::EmptyActor);
        }
        if action.is_empty() {
            return Err(AuditError::EmptyAction);
        }
        let index = self.entries.len();
        let entry_hash = if index == 0 {
            let zeros: Vec<u8> = vec![0u8; 32];
            assert(zeros@ =~= genesis_hash());
            compute_entry_hash(zeros.as_slice(), timestamp, actor, action, detail_str(&detail))
        } else {
            compute_entry_hash(
                self.entries[index - 1].entry_hash.as_slice(),
                timestamp,
                actor,
                action,
                detail_str(&detail),
            )
        };
        let entry = AuditEntry {
            index,
            timestamp,
            actor: actor.to_owned(),
            action: action.to_owned(),
            detail,
            severity,
            entry_hash,
        };
        self.entries.push(entry);
        assert(self@.drop_last() =~= old(self)@);
        assert(self@.last() == entry);
        Ok(&self.entries[index])
    }

    /// Verify the integrity of the whole chain.
    ///
    /// Fails with [`AuditError::EmptyLog`] on an empty log and with
    /// [`AuditError::ChainBroken`] carrying the index of the first entry whose
    /// stored hash differs from the one recomputed from its fields and its
    /// predecessor's stored hash.
    pub fn verify_chain(&self) -> (res: Result<(), AuditError>)
        ensures
            self@.len() == 0 <==> res == Err::<(), AuditError>(AuditError::EmptyLog),
            res is Ok <==> self@.len() > 0 && chain_valid(self@),
            res matches Err(AuditError::ChainBroken(i)) ==> {
                &&& 0 <= i < self@.len()
                &&& !entry_consistent(self@, i as int)
                &&& forall|j: int| 0 <= j < i ==> entry_consistent(self@, j)
            },
            res matches Err(e) ==> e == AuditError::EmptyLog || e is ChainBroken,
    {
        if self.entries.len() == 0 {
            return Err(AuditError::EmptyLog);
        }
        let mut i: usize = 0;
        while i < self.entries.len()
            invariant
                0 <= i <= self@.len(),
                forall|j: int| 0 <= j < i ==> entry_consistent(self@, j),
            decreases self@.len() - i,
        {
            let entry = &self.entries[i];
            let expected = if i == 0 {
                let zeros: Vec<u8> = vec![0u8; 32];
                assert(zeros@ =~= genesis_hash());
                compute_entry_hash(
                    zeros.as_slice(),
                    entry.timestamp,
                    entry.actor.as_str(),
                    entry.action.as_str(),
                    detail_str(&entry.detail),
                )
            } else {
                compute_entry_hash(
                    self.entries[i - 1].entry_hash.as_slice(),
                    entry.timestamp,
                    entry.actor.as_str(),
                    entry.action.as_str(),
                    detail_str(&entry.detail),
                )
            };
            if !bytes_eq(expected.as_slice(), entry.entry_hash.as_slice()) {
                assert(!entry_consistent(self@, i as int));
                return Err(AuditError::ChainBroken(i));
            }
            i = i + 1;
        }
        Ok(())
    }

    /// All entries recorded for `actor`, in log order.
    pub fn entries_by_actor(&self, actor: &str) -> (r: Vec<&AuditEntry>)
        ensures
            r@.map_values(|e: &AuditEntry| *e) == self@.filter(by_actor(actor@)),
    {
        self.select(Selector::Actor(actor))
    }

    /// All entries recorded with `action`, in log order.
    pub fn entries_by_action(&self, action: &str) -> (r: Vec<&AuditEntry>)
        ensures
            r@.map_values(|e: &AuditEntry| *e) == self@.filter(by_action(action@)),
    {
        self.select(Selector::Action(action))
    }

    /// All entries at or above `min_severity`, in log order.
    pub fn entries_by_severity(&self, min_severity: &Severity) -> (r: Vec<&AuditEntry>)
        ensures
            r@.map_values(|e: &AuditEntry| *e) == self@.filter(
                at_least(spec_severity_level(*min_severity)),
            ),
    {
        self.select(Selector::MinLevel(severity_level(min_severity)))
    }

    fn select(&self, selector: Selector) -> (r: Vec<&AuditEntry>)
        ensures
            r@.map_values(|e: &AuditEntry| *e) == self@.filter(selector.pred()),
    {
        let ghost pred = selector.pred();
        let mut r: Vec<&AuditEntry> = Vec::new();
        let mut i: usize = 0;
        while i < self.entries.len()
            invariant
                0 <= i <= self@.len(),
                pred == selector.pred(),
                r@.map_values(|e: &AuditEntry| *e) == self@.take(i as int).filter(pred),
            decreases self@.len() - i,
        {
            let ghost before = r@;
            proof {
                crate::util::lemma_filter_take_step(self@, i as int, pred);
            }
            let e = &self.entries[i];
            let keep = match &selector {
                Selector::Actor(a) => crate::util::str_eq(e.actor.as_str(), a),
                Selector::Action(a) => crate::util::str_eq(e.action.as_str(), a),
                Selector::MinLevel(m) => severity_level(&e.severity) >= *m,
            };
            if keep {
                r.push(e);
                assert(r@ == before.push(e));
                assert(r@.map_values(|e: &AuditEntry| *e) =~= before.map_values(
                    |e: &AuditEntry| *e,
                ).push(*e));
            }
            i = i + 1;
        }
        assert(self@.take(i as int) =~= self@);
        r
    }

    /// Total number of entries.
    pub fn len(&self) -> (n: usize)
        ensures
            n == self@.len(),
    {
        self.entries.len()
    }

    /// Returns `true` when the log is empty.
    pub fn is_empty(&self) -> (b: bool)
        ensures
            b == (self@.len() == 0),
    {
        self.entries.len() == 0
    }

    /// Read-only slice of all entries.
    pub fn entries(&self) -> (s: &[AuditEntry])
        ensures
            s@ == self@,
    {
        self.entries.as_slice()
    }

    /// A log holding `entries` as stored, for instance as read back from
    /// storage.  Nothing is checked here: `verify_chain` tells whether they
    /// form an intact chain.
    pub fn from_entries(entries: Vec<AuditEntry>) -> (log: Self)
        ensures
            log@ == entries@,
    {
        AuditLog { entries }
    }

    /// The entries, in append order, giving up the log.
    pub fn into_entries(self) -> (v: Vec<AuditEntry>)
        ensures
            v@ == self@,
    {
        self.entries
    }
}

enum Selector<'a> {
    Actor(&'a str),
    Action(&'a str),
    MinLevel(u8),
}

impl<'a> Selector<'a> {
    spec fn pred(self) -> spec_fn(AuditEntry) -> bool {
        match self {
            Selector::Actor(a) => by_actor(a@),
            Selector::Action(a) => by_action(a@),
            Selector::MinLevel(m) => at_least(m),
        }
    }
}

/// Appending to a consistent chain keeps it consistent, and appending to a
/// log whose indices are sequential keeps them sequential: the log is an
/// append-only hash chain whatever is appended.
pub proof fn lemma_append_keeps_chain(
    entries: Seq<AuditEntry>,
    new_entry: AuditEntry,
    timestamp: u64,
    actor: Seq<char>,
    action: Seq<char>,
)
    requires
        chain_valid(entries),
        new_entry.timestamp == timestamp,
        appended_entry(
            entries,
            timestamp,
            actor,
            action,
            new_entry.detail,
            new_entry.severity,
            new_entry.actor,
            new_entry.action,
            new_entry.entry_hash,
        ),
    ensures
        chain_valid(entries.push(new_entry)),
        indices_sequential(entries) && new_entry.index == entries.len() ==> indices_sequential(
            entries.push(new_entry),
        ),
{
    let s = entries.push(new_entry);
    assert forall|i: int| 0 <= i < s.len() implies #[trigger] entry_consistent(s, i) by {
        if i < entries.len() {
            assert(entry_consistent(entries, i));
            assert(prev_hash_at(s, i) == prev_hash_at(entries, i));
        }
    }
    if indices_sequential(entries) && new_entry.index == entries.len() {
        assert forall|i: int| 0 <= i < s.len() implies #[trigger] s[i].index == i by {
            if i < entries.len() {
                assert(entries[i].index == i);
            }
        }
    }
}

impl Default for AuditLog {
    /// An empty log.
    fn default() -> (log: Self)
        ensures
            log@.len() == 0,
    {
        AuditLog::new()
    }
}

/// A log grown from `AuditLog::new` by `append` calls only is a valid hash
/// chain over all its entries, with each entry's index its position, so
/// `verify_chain` accepts it whenever it is not empty.
pub proof fn lemma_appended_log_verifies(entries: Seq<AuditEntry>)
    requires
        built_by_appends(entries),
    ensures
        chain_valid(entries),
        indices_sequential(entries),
    decreases entries.len(),
{
    if entries.len() > 0 {
        let prev = entries.drop_last();
        let e = entries.last();
        lemma_appended_log_verifies(prev);
        lemma_append_keeps_chain(prev, e, e.timestamp, e.actor@, e.action@);
        assert(prev.push(e) =~= entries);
    }
}

/// `e` is `orig` with exactly one of timestamp, actor, action and detail
/// changed (an absent detail counting as empty).
pub open spec fn one_field_changed(orig: AuditEntry, e: AuditEntry) -> bool {
    let same_ts = e.timestamp == orig.timestamp;
    let same_actor = e.actor@ == orig.actor@;
    let same_action = e.action@ == orig.action@;
    let same_detail = detail_chars(e.detail) == detail_chars(orig.detail);
    ||| !same_ts && same_actor && same_action && same_detail
    ||| same_ts && !same_actor && same_action && same_detail
    ||| same_ts && same_actor && !same_action && same_detail
    ||| same_ts && same_actor && same_action && !same_detail
}

/// The bytes hashed for entry `e` of a chain whose previous hash is `prev`.
pub open spec fn hashed_bytes(prev: Seq<u8>, e: AuditEntry) -> Seq<u8> {
    entry_hash_input(prev, e.timestamp, e.actor@, e.action@, detail_chars(e.detail))
}

/// Tampering with one field of an entry of an intact chain is detected: if
/// entry `i` keeps its stored hash but gets another timestamp, actor, action
/// or detail, `verify_chain` accepts the altered log only if SHA-256 maps the
/// two different hashed byte strings to the same digest.
pub proof fn lemma_tampered_field_detected(entries: Seq<AuditEntry>, i: int, e: AuditEntry)
    requires
        chain_valid(entries),
        0 <= i < entries.len(),
        e.entry_hash@ == entries[i].entry_hash@,
        one_field_changed(entries[i], e),
    ensures
        chain_valid(entries.update(i, e)) ==> sha256_collides(
            hashed_bytes(prev_hash_at(entries, i), entries[i]),
            hashed_bytes(prev_hash_at(entries, i), e),
        ),
{
    let o = entries[i];
    let prev = prev_hash_at(entries, i);
    let t = entries.update(i, e);
    assert(prev_hash_at(t, i) == prev);
    assert(entry_consistent(entries, i));
    let x = hashed_bytes(prev, o);
    let y = hashed_bytes(prev, e);
    let lt1 = vstd::bytes::spec_u64_to_le_bytes(o.timestamp);
    let lt2 = vstd::bytes::spec_u64_to_le_bytes(e.timestamp);
    let a1 = utf8(o.actor@);
    let a2 = utf8(e.actor@);
    let b1 = utf8(o.action@);
    let b2 = utf8(e.action@);
    let d1 = utf8(detail_chars(o.detail));
    let d2 = utf8(detail_chars(e.detail));
    assert(x != y) by {
        if x == y {
            if e.timestamp != o.timestamp {
                vstd::bytes::lemma_auto_spec_u64_to_from_le_bytes();
                assert(prev + lt1 + (a1 + b1 + d1) == prev + lt2 + (a1 + b1 + d1)) by {
                    assert(x =~= prev + lt1 + (a1 + b1 + d1));
                    assert(y =~= prev + lt2 + (a1 + b1 + d1));
                }
                lemma_middle_cancel(prev, lt1, lt2, a1 + b1 + d1);
            } else if e.actor@ != o.actor@ {
                lemma_utf8_injective(o.actor@, e.actor@);
                assert((prev + lt1) + a1 + (b1 + d1) == (prev + lt1) + a2 + (b1 + d1)) by {
                    assert(x =~= (prev + lt1) + a1 + (b1 + d1));
                    assert(y =~= (prev + lt1) + a2 + (b1 + d1));
                }
                lemma_middle_cancel(prev + lt1, a1, a2, b1 + d1);
            } else if e.action@ != o.action@ {
                lemma_utf8_injective(o.action@, e.action@);
                assert((prev + lt1 + a1) + b1 + d1 == (prev + lt1 + a1) + b2 + d1) by {
                    assert(x =~= (prev + lt1 + a1) + b1 + d1);
                    assert(y =~= (prev + lt1 + a1) + b2 + d1);
                }
                lemma_middle_cancel(prev + lt1 + a1, b1, b2, d1);
            } else {
                lemma_utf8_injective(detail_chars(o.detail), detail_chars(e.detail));
                assert((prev + lt1 + a1 + b1) + d1 + Seq::<u8>::empty() == (prev + lt1 + a1 + b1) + d2
                    + Seq::<u8>::empty()) by {
                    assert(x =~= (prev + lt1 + a1 + b1) + d1 + Seq::<u8>::empty());
                    assert(y =~= (prev + lt1 + a1 + b1) + d2 + Seq::<u8>::empty());
                }
                lemma_middle_cancel(prev + lt1 + a1 + b1, d1, d2, Seq::<u8>::empty());
            }
        }
    }
    if chain_valid(t) {
        assert(entry_consistent(t, i));
    }
}

/// Replacing the stored hash of an entry of an intact chain, and nothing
/// else, always breaks the chain at that entry.
pub proof fn lemma_tampered_hash_detected(entries: Seq<AuditEntry>, i: int, e: AuditEntry)
    requires
        chain_valid(entries),
        0 <= i < entries.len(),
        e.timestamp == entries[i].timestamp,
        e.actor@ == entries[i].actor@,
        e.action@ == entries[i].action@,
        detail_chars(e.detail) == detail_chars(entries[i].detail),
        e.entry_hash@ != entries[i].entry_hash@,
    ensures
        !entry_consistent(entries.update(i, e), i),
        !chain_valid(entries.update(i, e)),
{
    let t = entries.update(i, e);
    assert(prev_hash_at(t, i) == prev_hash_at(entries, i));
    assert(entry_consistent(entries, i));
}

} // verus!
