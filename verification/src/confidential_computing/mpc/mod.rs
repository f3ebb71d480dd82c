//! Multi-party computation session coordination: party registration, share
//! submission, a commit/reveal round with replay protection, and a digest
//! over the collected shares that does not depend on submission order.
use vstd::prelude::*;

use crate::crypto::{sha256, spec_sha256};
use crate::lex::{
    lemma_sorted_unique, lemma_str_lt_total, lemma_str_lt_transitive, str_less, str_lt,
    strictly_sorted,
};
use crate::str_map::StrMap;
use crate::util::{
    append_decimal, append_str, bytes_eq, concat2, copy_str, push_bytes, push_str_bytes, string_views,
    utf8,
};

verus! {

/// Errors of MPC coordination.
#[derive(Debug, Clone, PartialEq, Eq)]
pub enum MpcError {
    InvalidPolicy(String),
    DuplicateParty(String),
    UnknownParty(String),
    DuplicateShare(String),
    DuplicateCommitment(String),
    InsufficientShares,
    RoundMismatch { expected: u32, received: u32 },
    UnknownCommitment(String),
    InvalidCommitment(String),
    ReplayDetected(u64),
    AggregateMismatch,
}

impl MpcError {
    /// The error's message text.
    pub fn to_message(&self) -> (s: String)
        ensures
            s@ == match *self {
                MpcError::InvalidPolicy(m) => "invalid policy: "@ + m@,
                MpcError::DuplicateParty(m) => "party already registered: "@ + m@,
                MpcError::UnknownParty(m) => "party is not registered: "@ + m@,
                MpcError::DuplicateShare(m) => "share already submitted for party: "@ + m@,
                MpcError::DuplicateCommitment(m) => "commitment already submitted for party: "@ + m@,
                MpcError::InsufficientShares => "not enough shares to finalize"@,
                MpcError::RoundMismatch { expected, received } => "round mismatch: expected "@
                    + crate::util::spec_decimal(expected as nat) + ", got "@ + crate::util::spec_decimal(
                    received as nat,
                ),
                MpcError::UnknownCommitment(m) => "no commitment found for party: "@ + m@,
                MpcError::InvalidCommitment(m) => "invalid commitment for party: "@ + m@,
                MpcError::ReplayDetected(n) => "nonce replay detected: "@ + crate::util::spec_decimal(n as nat),
                MpcError::AggregateMismatch => "aggregate digest does not match local digest"@,
            },
    {
        match self {
            MpcError::InvalidPolicy(m) => concat2("invalid policy: ", m.as_str()),
            MpcError::DuplicateParty(m) => concat2("party already registered: ", m.as_str()),
            MpcError::UnknownParty(m) => concat2("party is not registered: ", m.as_str()),
            MpcError::DuplicateShare(m) => concat2("share already submitted for party: ", m.as_str()),
            MpcError::DuplicateCommitment(m) => concat2("commitment already submitted for party: ", m.as_str()),
            MpcError::InsufficientShares => copy_str("not enough shares to finalize"),
            MpcError::RoundMismatch { expected, received } => {
                let mut s = copy_str("round mismatch: expected ");
                append_decimal(&mut s, *expected as u64);
                append_str(&mut s, ", got ");
                append_decimal(&mut s, *received as u64);
                s
            },
            MpcError::UnknownCommitment(m) => concat2("no commitment found for party: ", m.as_str()),
            MpcError::InvalidCommitment(m) => concat2("invalid commitment for party: ", m.as_str()),
            MpcError::ReplayDetected(n) => {
                let mut s = copy_str("nonce replay detected: ");
                append_decimal(&mut s, *n);
                s
            },
            MpcError::AggregateMismatch => copy_str("aggregate digest does not match local digest"),
        }
    }
}

/// MPC session policy.
#[derive(Debug, Clone, Copy)]
pub struct MpcPolicy {
    /// Total parties expected.
    pub total_parties: usize,
    /// Shares needed for finalization.
    pub threshold: usize,
    /// Round limit.
    pub max_rounds: u32,
}

/// Why a policy is invalid, if it is.
pub open spec fn policy_problem(total_parties: usize, threshold: usize, max_rounds: u32) -> Option<Seq<char>> {
    if total_parties == 0 {
        Some("total_parties must be greater than zero"@)
    } else if threshold == 0 || threshold > total_parties {
        Some("threshold must be between 1 and total_parties"@)
    } else if max_rounds == 0 {
        Some("max_rounds must be greater than zero"@)
    } else {
        None
    }
}

impl MpcPolicy {
    /// A validated policy: at least one party, a threshold between 1 and the
    /// number of parties, at least one round.
    pub fn new(total_parties: usize, threshold: usize, max_rounds: u32) -> (res: Result<Self, MpcError>)
        ensures
            match policy_problem(total_parties, threshold, max_rounds) {
                Some(m) => (res matches Err(MpcError::InvalidPolicy(x)) && x@ == m),
                None => (res matches Ok(p) && p.total_parties == total_parties && p.threshold == threshold
                    && p.max_rounds == max_rounds),
            },
    {
        if total_parties == 0 {
            return Err(MpcError::InvalidPolicy(copy_str("total_parties must be greater than zero")));
        }
        if threshold == 0 || threshold > total_parties {
            return Err(MpcError::InvalidPolicy(copy_str("threshold must be between 1 and total_parties")));
        }
        if max_rounds == 0 {
            return Err(MpcError::InvalidPolicy(copy_str("max_rounds must be greater than zero")));
        }
        Ok(MpcPolicy { total_parties, threshold, max_rounds })
    }
}

/// One party's share.
#[derive(Debug, Clone)]
pub struct ShareSubmission {
    /// Party identifier.
    pub party_id: String,
    /// Share bytes.
    pub share: Vec<u8>,
}

impl ShareSubmission {
    /// A share submission.
    pub fn new(party_id: &str, share: Vec<u8>) -> (s: Self)
        ensures
            s.party_id@ == party_id@,
            s.share == share,
    {
        ShareSubmission { party_id: copy_str(party_id), share }
    }
}

/// Round-1 commitment message.
#[derive(Debug, Clone)]
pub struct CommitSubmission {
    /// Party identifier.
    pub party_id: String,
    /// Hash commitment over the reveal payload.
    pub commitment: Vec<u8>,
    /// Message nonce.
    pub nonce: u64,
    /// Protocol round.
    pub round: u32,
}

impl CommitSubmission {
    /// A commitment submission.
    pub fn new(party_id: &str, commitment: Vec<u8>, nonce: u64, round: u32) -> (s: Self)
        ensures
            s.party_id@ == party_id@,
            s.commitment == commitment,
            s.nonce == nonce,
            s.round == round,
    {
        CommitSubmission { party_id: copy_str(party_id), commitment, nonce, round }
    }
}

/// Round-2 reveal message.
#[derive(Debug, Clone)]
pub struct RevealSubmission {
    /// Party identifier.
    pub party_id: String,
    /// Revealed share bytes.
    pub share: Vec<u8>,
    /// Message nonce.
    pub nonce: u64,
    /// Protocol round.
    pub round: u32,
}

impl RevealSubmission {
    /// A reveal submission.
    pub fn new(party_id: &str, share: Vec<u8>, nonce: u64, round: u32) -> (s: Self)
        ensures
            s.party_id@ == party_id@,
            s.share == share,
            s.nonce == nonce,
            s.round == round,
    {
        RevealSubmission { party_id: copy_str(party_id), share, nonce, round }
    }
}

/// Coordinator aggregate message closing a round.
#[derive(Debug, Clone)]
pub struct AggregateMessage {
    /// Round of the aggregate.
    pub round: u32,
    /// Message nonce.
    pub nonce: u64,
    /// Digest over the accepted shares.
    pub digest: Vec<u8>,
}

impl AggregateMessage {
    /// An aggregate message.
    pub fn new(round: u32, nonce: u64, digest: Vec<u8>) -> (a: Self)
        ensures
            a.round == round,
            a.nonce == nonce,
            a.digest == digest,
    {
        AggregateMessage { round, nonce, digest }
    }
}

/// The commitment to a share: its SHA-256 digest.
pub open spec fn spec_commitment_for(share: Seq<u8>) -> Seq<u8> {
    spec_sha256(share)
}

/// The commitment to a share: its SHA-256 digest.
pub fn commitment_for(share: &[u8]) -> (c: Vec<u8>)
    ensures
        c@ == spec_commitment_for(share@),
{
    sha256(share)
}

/// The parties of a share map in `str` order.
pub open spec fn canonical_order(parties: Set<Seq<char>>) -> Seq<Seq<char>> {
    choose|s: Seq<Seq<char>>| strictly_sorted(s) && s.to_set() == parties
}

/// The bytes the session digest covers: each party's UTF-8 identifier
/// followed by its share, in the given order.
pub open spec fn digest_input(order: Seq<Seq<char>>, shares: Map<Seq<char>, Seq<u8>>) -> Seq<u8>
    decreases order.len(),
{
    if order.len() == 0 {
        Seq::empty()
    } else {
        digest_input(order.drop_last(), shares) + utf8(order.last()) + shares[order.last()]
    }
}

/// The session digest of a share map: SHA-256 over the parties' identifiers
/// and shares in `str` order of the identifiers.
pub open spec fn spec_session_digest(shares: Map<Seq<char>, Seq<u8>>) -> Seq<u8> {
    spec_sha256(digest_input(canonical_order(shares.dom()), shares))
}

/// The session nonce of a policy.
pub open spec fn spec_session_nonce(p: MpcPolicy) -> u64 {
    ((p.total_parties as u64) << 32u64) ^ ((p.threshold as u64) << 16u64) ^ (p.max_rounds as u64)
}

/// An MPC session.
#[derive(Debug, Clone)]
pub struct MpcSession {
    policy: MpcPolicy,
    parties: StrMap<()>,
    commitments: StrMap<Vec<u8>>,
    shares: StrMap<Vec<u8>>,
    seen_nonces: Vec<u64>,
    session_nonce: u64,
    round: u32,
}

impl MpcSession {
    /// The session's policy.
    pub closed spec fn spec_policy(&self) -> MpcPolicy {
        self.policy
    }

    /// The registered parties.
    pub closed spec fn spec_parties(&self) -> Set<Seq<char>> {
        self.parties@.dom()
    }

    /// The commitments by party.
    pub closed spec fn spec_commitments(&self) -> Map<Seq<char>, Seq<u8>> {
        self.commitments@
    }

    /// The accepted shares by party.
    pub closed spec fn spec_shares(&self) -> Map<Seq<char>, Seq<u8>> {
        self.shares@
    }

    /// The nonces seen so far.
    pub closed spec fn spec_nonces(&self) -> Set<u64> {
        self.seen_nonces@.to_set()
    }

    /// The current round.
    pub closed spec fn spec_round(&self) -> u32 {
        self.round
    }

    /// The session nonce.
    pub closed spec fn spec_nonce_seed(&self) -> u64 {
        self.session_nonce
    }
}

/// Two session states agree on everything but the seen nonces.
pub open spec fn same_but_nonces(a: MpcSession, b: MpcSession) -> bool {
    &&& a.spec_policy() == b.spec_policy()
    &&& a.spec_parties() == b.spec_parties()
    &&& a.spec_commitments() == b.spec_commitments()
    &&& a.spec_shares() == b.spec_shares()
    &&& a.spec_round() == b.spec_round()
    &&& a.spec_nonce_seed() == b.spec_nonce_seed()
}

/// Two session states are the same.
pub open spec fn same_session(a: MpcSession, b: MpcSession) -> bool {
    same_but_nonces(a, b) && a.spec_nonces() == b.spec_nonces()
}

/// The round lies between 1 and the policy's round limit (1 when the limit
/// is 0).  Every session starts so and every operation keeps it so.
pub open spec fn round_in_range(s: MpcSession) -> bool {
    1 <= s.spec_round() && (s.spec_round() == 1 || s.spec_round() <= s.spec_policy().max_rounds)
}

/// What finalizing a session gives: `InsufficientShares` below the
/// threshold, else the digest of its accepted shares.
pub open spec fn finalize_outcome(s: MpcSession) -> Result<Seq<u8>, MpcError> {
    if s.spec_shares().dom().len() < s.spec_policy().threshold {
        Err(MpcError::InsufficientShares)
    } else {
        Ok(spec_session_digest(s.spec_shares()))
    }
}

impl MpcSession {
    /// A new session in round 1 with no parties, shares, commitments or
    /// nonces.
    pub fn new(policy: MpcPolicy) -> (s: Self)
        ensures
            s.spec_policy() == policy,
            s.spec_parties() == Set::<Seq<char>>::empty(),
            s.spec_commitments() == Map::<Seq<char>, Seq<u8>>::empty(),
            s.spec_shares() == Map::<Seq<char>, Seq<u8>>::empty(),
            s.spec_nonces() == Set::<u64>::empty(),
            s.spec_round() == 1,
            round_in_range(s),
            s.spec_nonce_seed() == spec_session_nonce(policy),
    {
        let session_nonce = ((policy.total_parties as u64) << 32u64) ^ ((policy.threshold as u64) << 16u64) ^ (
        policy.max_rounds as u64);
        let s = MpcSession {
            policy,
            parties: StrMap::new(),
            commitments: StrMap::new(),
            shares: StrMap::new(),
            seen_nonces: Vec::new(),
            session_nonce,
            round: 1,
        };
        assert(s.spec_parties() =~= Set::<Seq<char>>::empty());
        assert(s.spec_nonces() =~= Set::<u64>::empty());
        s
    }

    /// The session nonce.
    pub fn session_nonce(&self) -> (n: u64)
        ensures
            n == self.spec_nonce_seed(),
    {
        self.session_nonce
    }

    /// Register a party; registering one twice fails.
    pub fn register_party(&mut self, party_id: &str) -> (res: Result<(), MpcError>)
        ensures
            round_in_range(*old(self)) ==> round_in_range(*final(self)),
            old(self).spec_parties().contains(party_id@) ==> (res matches Err(MpcError::DuplicateParty(p)) && p@
                == party_id@) && same_session(*final(self), *old(self)),
            !old(self).spec_parties().contains(party_id@) ==> res is Ok && final(self).spec_parties() == old(self).spec_parties().insert(party_id@),
            final(self).spec_policy() == old(self).spec_policy(),
            final(self).spec_commitments() == old(self).spec_commitments(),
            final(self).spec_shares() == old(self).spec_shares(),
            final(self).spec_nonces() == old(self).spec_nonces(),
            final(self).spec_round() == old(self).spec_round(),
            final(self).spec_nonce_seed() == old(self).spec_nonce_seed(),
    {
        if self.parties.contains_key(party_id) {
            return Err(MpcError::DuplicateParty(copy_str(party_id)));
        }
        self.parties.insert(copy_str(party_id), ());
        assert(self.parties@.dom() =~= old(self).parties@.dom().insert(party_id@));
        Ok(())
    }

    /// Submit the share of a registered party that has none yet.
    pub fn submit_share(&mut self, submission: ShareSubmission) -> (res: Result<(), MpcError>)
        ensures
            round_in_range(*old(self)) ==> round_in_range(*final(self)),
            !old(self).spec_parties().contains(submission.party_id@) ==> (res matches Err(
                MpcError::UnknownParty(p),
            ) && p@ == submission.party_id@) && same_session(*final(self), *old(self)),
            old(self).spec_parties().contains(submission.party_id@) && old(self).spec_shares().contains_key(
                submission.party_id@,
            ) ==> (res matches Err(MpcError::DuplicateShare(p)) && p@ == submission.party_id@) && same_session(
                *final(self),
                *old(self),
            ),
            old(self).spec_parties().contains(submission.party_id@) && !old(self).spec_shares().contains_key(
                submission.party_id@,
            ) ==> res is Ok && final(self).spec_shares() == old(self).spec_shares().insert(
                submission.party_id@,
                submission.share@,
            ),
            final(self).spec_shares().dom().finite(),
            res is Ok ==> final(self).spec_shares().dom().len() == old(self).spec_shares().dom().len() + 1,
            final(self).spec_policy() == old(self).spec_policy(),
            final(self).spec_parties() == old(self).spec_parties(),
            final(self).spec_commitments() == old(self).spec_commitments(),
            final(self).spec_nonces() == old(self).spec_nonces(),
            final(self).spec_round() == old(self).spec_round(),
            final(self).spec_nonce_seed() == old(self).spec_nonce_seed(),
    {
        self.shares.lemma_seqs();
        if !self.parties.contains_key(submission.party_id.as_str()) {
            return Err(MpcError::UnknownParty(submission.party_id));
        }
        if self.shares.contains_key(submission.party_id.as_str()) {
            return Err(MpcError::DuplicateShare(submission.party_id));
        }
        self.shares.lemma_seqs();
        self.shares.insert(submission.party_id, submission.share);
        self.shares.lemma_seqs();
        Ok(())
    }

    fn ensure_round(&self, received: u32) -> (res: Result<(), MpcError>)
        ensures
            received == self.spec_round() <==> res is Ok,
            received != self.spec_round() ==> res == Err::<(), MpcError>(
                MpcError::RoundMismatch { expected: self.spec_round(), received },
            ),
    {
        if received != self.round {
            return Err(MpcError::RoundMismatch { expected: self.round, received });
        }
        Ok(())
    }

    fn register_nonce(&mut self, nonce: u64) -> (res: Result<(), MpcError>)
        ensures
            old(self).spec_nonces().contains(nonce) ==> res == Err::<(), MpcError>(MpcError::ReplayDetected(nonce))
                && final(self).spec_nonces() == old(self).spec_nonces(),
            !old(self).spec_nonces().contains(nonce) ==> res is Ok && final(self).spec_nonces() == old(self).spec_nonces().insert(nonce),
            same_but_nonces(*final(self), *old(self)),
    {
        let mut i: usize = 0;
        while i < self.seen_nonces.len()
            invariant
                0 <= i <= self.seen_nonces@.len(),
                forall|j: int| 0 <= j < i ==> self.seen_nonces@[j] != nonce,
            decreases self.seen_nonces@.len() - i,
        {
            if self.seen_nonces[i] == nonce {
                assert(self.seen_nonces@.to_set().contains(nonce)) by {
                    assert(self.seen_nonces@.contains(nonce));
                }
                return Err(MpcError::ReplayDetected(nonce));
            }
            i = i + 1;
        }
        assert(!self.seen_nonces@.contains(nonce));
        self.seen_nonces.push(nonce);
        assert(self.seen_nonces@.to_set() =~= old(self).seen_nonces@.to_set().insert(nonce)) by {
            assert forall|x: u64| self.seen_nonces@.to_set().contains(x) <==> old(self).seen_nonces@.to_set().insert(nonce).contains(x) by {
                if self.seen_nonces@.contains(x) && x != nonce {
                    let k = choose|k: int| 0 <= k < self.seen_nonces@.len() && self.seen_nonces@[k] == x;
                    assert(k < old(self).seen_nonces@.len());
                    assert(old(self).seen_nonces@[k] == x);
                }
                if old(self).seen_nonces@.contains(x) {
                    let k = choose|k: int| 0 <= k < old(self).seen_nonces@.len() && old(self).seen_nonces@[k] == x;
                    assert(self.seen_nonces@[k] == x);
                }
                if x == nonce {
                    assert(self.seen_nonces@[self.seen_nonces@.len() - 1] == nonce);
                }
            }
        }
        Ok(())
    }
}

/// The outcome of a round-1 or round-2 message after the round and nonce
/// checks: a round mismatch or a replayed nonce leaves the session as it
/// was; otherwise the nonce is recorded.
pub open spec fn message_gate(
    old_s: MpcSession,
    new_s: MpcSession,
    round: u32,
    nonce: u64,
    res: Result<(), MpcError>,
) -> bool {
    &&& round != old_s.spec_round() ==> res == Err::<(), MpcError>(
        MpcError::RoundMismatch { expected: old_s.spec_round(), received: round },
    ) && same_session(new_s, old_s)
    &&& round == old_s.spec_round() && old_s.spec_nonces().contains(nonce) ==> res == Err::<(), MpcError>(
        MpcError::ReplayDetected(nonce),
    ) && same_session(new_s, old_s)
    &&& round == old_s.spec_round() && !old_s.spec_nonces().contains(nonce) ==> new_s.spec_nonces()
        == old_s.spec_nonces().insert(nonce)
}

/// The message passed the round and nonce checks.
pub open spec fn passes_gate(s: MpcSession, round: u32, nonce: u64) -> bool {
    round == s.spec_round() && !s.spec_nonces().contains(nonce)
}

impl MpcSession {
    /// Submit a round commitment.  After the round and nonce checks (the
    /// nonce is recorded even when a later check fails), the party must be
    /// registered and have no commitment yet.
    pub fn submit_commit(&mut self, submission: CommitSubmission) -> (res: Result<(), MpcError>)
        ensures
            round_in_range(*old(self)) ==> round_in_range(*final(self)),
            message_gate(*old(self), *final(self), submission.round, submission.nonce, res),
            passes_gate(*old(self), submission.round, submission.nonce) ==> {
                &&& !old(self).spec_parties().contains(submission.party_id@) ==> (res matches Err(
                    MpcError::UnknownParty(p),
                ) && p@ == submission.party_id@) && final(self).spec_commitments() == old(self).spec_commitments()
                &&& old(self).spec_parties().contains(submission.party_id@) && old(self).spec_commitments().contains_key(submission.party_id@) ==> (res matches Err(
                    MpcError::DuplicateCommitment(p),
                ) && p@ == submission.party_id@) && final(self).spec_commitments() == old(self).spec_commitments()
                &&& old(self).spec_parties().contains(submission.party_id@) && !old(self).spec_commitments().contains_key(submission.party_id@) ==> res is Ok && final(self).spec_commitments() == old(self).spec_commitments().insert(
                    submission.party_id@,
                    submission.commitment@,
                )
            },
            final(self).spec_policy() == old(self).spec_policy(),
            final(self).spec_parties() == old(self).spec_parties(),
            final(self).spec_shares() == old(self).spec_shares(),
            final(self).spec_round() == old(self).spec_round(),
            final(self).spec_nonce_seed() == old(self).spec_nonce_seed(),
    {
        match self.ensure_round(submission.round) {
            Ok(()) => {},
            Err(e) => {
                return Err(e);
            },
        }
        match self.register_nonce(submission.nonce) {
            Ok(()) => {},
            Err(e) => {
                return Err(e);
            },
        }
        if !self.parties.contains_key(submission.party_id.as_str()) {
            return Err(MpcError::UnknownParty(submission.party_id));
        }
        if self.commitments.contains_key(submission.party_id.as_str()) {
            return Err(MpcError::DuplicateCommitment(submission.party_id));
        }
        self.commitments.insert(submission.party_id, submission.commitment);
        Ok(())
    }

    /// Submit a reveal.  After the round and nonce checks (the nonce is
    /// recorded even when a later check fails), the party must be registered,
    /// have no share yet, have a commitment, and the share must match it.
    pub fn submit_reveal(&mut self, submission: RevealSubmission) -> (res: Result<(), MpcError>)
        ensures
            round_in_range(*old(self)) ==> round_in_range(*final(self)),
            message_gate(*old(self), *final(self), submission.round, submission.nonce, res),
            passes_gate(*old(self), submission.round, submission.nonce) ==> {
                let id = submission.party_id@;
                let old_s = *old(self);
                &&& !old_s.spec_parties().contains(id) ==> (res matches Err(MpcError::UnknownParty(p)) && p@ == id)
                &&& old_s.spec_parties().contains(id) && old_s.spec_shares().contains_key(id) ==> (res matches Err(
                    MpcError::DuplicateShare(p),
                ) && p@ == id)
                &&& old_s.spec_parties().contains(id) && !old_s.spec_shares().contains_key(id)
                    && !old_s.spec_commitments().contains_key(id) ==> (res matches Err(
                    MpcError::UnknownCommitment(p),
                ) && p@ == id)
                &&& old_s.spec_parties().contains(id) && !old_s.spec_shares().contains_key(id)
                    && old_s.spec_commitments().contains_key(id) && old_s.spec_commitments()[id]
                    != spec_commitment_for(submission.share@) ==> (res matches Err(MpcError::InvalidCommitment(p))
                    && p@ == id)
                &&& res is Ok <==> old_s.spec_parties().contains(id) && !old_s.spec_shares().contains_key(id)
                    && old_s.spec_commitments().contains_key(id) && old_s.spec_commitments()[id]
                    == spec_commitment_for(submission.share@)
                &&& res is Ok ==> final(self).spec_shares() == old_s.spec_shares().insert(id, submission.share@)
                &&& res is Err ==> final(self).spec_shares() == old_s.spec_shares()
            },
            final(self).spec_policy() == old(self).spec_policy(),
            final(self).spec_parties() == old(self).spec_parties(),
            final(self).spec_commitments() == old(self).spec_commitments(),
            final(self).spec_round() == old(self).spec_round(),
            final(self).spec_nonce_seed() == old(self).spec_nonce_seed(),
            final(self).spec_shares().dom().finite(),
            res is Ok ==> final(self).spec_shares().dom().len() == old(self).spec_shares().dom().len() + 1,
            !passes_gate(*old(self), submission.round, submission.nonce) ==> final(self).spec_shares() == old(self).spec_shares(),
    {
        self.shares.lemma_seqs();
        match self.ensure_round(submission.round) {
            Ok(()) => {},
            Err(e) => {
                return Err(e);
            },
        }
        match self.register_nonce(submission.nonce) {
            Ok(()) => {},
            Err(e) => {
                return Err(e);
            },
        }
        if !self.parties.contains_key(submission.party_id.as_str()) {
            return Err(MpcError::UnknownParty(submission.party_id));
        }
        if self.shares.contains_key(submission.party_id.as_str()) {
            return Err(MpcError::DuplicateShare(submission.party_id));
        }
        let matches = match self.commitments.get(submission.party_id.as_str()) {
            Some(expected) => {
                let received = commitment_for(submission.share.as_slice());
                bytes_eq(expected.as_slice(), received.as_slice())
            },
            None => {
                return Err(MpcError::UnknownCommitment(submission.party_id));
            },
        };
        if !matches {
            return Err(MpcError::InvalidCommitment(submission.party_id));
        }
        self.shares.lemma_seqs();
        self.shares.insert(submission.party_id, submission.share);
        self.shares.lemma_seqs();
        Ok(())
    }

    /// The current round.
    pub fn round(&self) -> (r: u32)
        ensures
            r == self.spec_round(),
    {
        self.round
    }

    /// Move to the next round unless the round limit is reached.
    pub fn advance_round(&mut self)
        ensures
            round_in_range(*old(self)) ==> round_in_range(*final(self)),
            final(self).spec_round() == if old(self).spec_round() < old(self).spec_policy().max_rounds {
                (old(self).spec_round() + 1) as u32
            } else {
                old(self).spec_round()
            },
            final(self).spec_policy() == old(self).spec_policy(),
            final(self).spec_parties() == old(self).spec_parties(),
            final(self).spec_commitments() == old(self).spec_commitments(),
            final(self).spec_shares() == old(self).spec_shares(),
            final(self).spec_nonces() == old(self).spec_nonces(),
            final(self).spec_nonce_seed() == old(self).spec_nonce_seed(),
    {
        if self.round < self.policy.max_rounds {
            self.round = self.round + 1;
        }
    }

    /// Number of accepted shares.
    pub fn submitted_shares(&self) -> (n: usize)
        ensures
            n == self.spec_shares().dom().len(),
    {
        self.shares.len()
    }

    /// Whether enough shares are present for finalization.
    pub fn can_finalize(&self) -> (b: bool)
        ensures
            b == (self.spec_shares().dom().len() >= self.spec_policy().threshold),
    {
        self.shares.len() >= self.policy.threshold
    }
}

/// Insert `k` into the strictly sorted `order` at its place.
fn insert_sorted(order: &mut Vec<String>, k: &str)
    requires
        strictly_sorted(string_views(old(order)@)),
        !string_views(old(order)@).contains(k@),
    ensures
        strictly_sorted(string_views(final(order)@)),
        string_views(final(order)@).to_set() == string_views(old(order)@).to_set().insert(k@),
        final(order)@.len() == old(order)@.len() + 1,
{
    let ghost ov = string_views(order@);
    let mut p: usize = 0;
    while p < order.len() && !str_less(k, order[p].as_str())
        invariant
            0 <= p <= order@.len(),
            ov == string_views(order@),
            order@ == old(order)@,
            strictly_sorted(ov),
            !ov.contains(k@),
            forall|q: int| 0 <= q < p ==> #[trigger] str_lt(ov[q], k@),
        decreases order@.len() - p,
    {
        proof {
            assert(ov[p as int] == order@[p as int]@);
            if ov[p as int] == k@ {
                assert(ov.contains(k@));
            }
            lemma_str_lt_total(ov[p as int], k@);
        }
        p = p + 1;
    }
    proof {
        if p < order@.len() {
            assert(ov[p as int] == order@[p as int]@);
        }
    }
    order.insert(p, copy_str(k));
    let ghost nv = string_views(order@);
    proof {
        assert(nv =~= ov.insert(p as int, k@));
        assert forall|i: int, j: int| 0 <= i < j < nv.len() implies #[trigger] str_lt(nv[i], nv[j]) by {
            if j < p {
                assert(str_lt(ov[i], ov[j]));
            } else if j == p {
                assert(str_lt(ov[i], k@));
            } else if i < p {
                assert(str_lt(ov[i], ov[j - 1]));
            } else if i == p {
                assert(str_lt(k@, ov[p as int]));
                if j - 1 > p {
                    assert(str_lt(ov[p as int], ov[j - 1]));
                    lemma_str_lt_transitive(k@, ov[p as int], ov[j - 1]);
                }
            } else {
                assert(str_lt(ov[i - 1], ov[j - 1]));
            }
        }
        assert(nv.to_set() =~= ov.to_set().insert(k@)) by {
            assert forall|z: Seq<char>| nv.to_set().contains(z) <==> ov.to_set().insert(k@).contains(z) by {
                if nv.contains(z) {
                    let i = choose|i: int| 0 <= i < nv.len() && nv[i] == z;
                    if i < p {
                        assert(ov[i] == z);
                    } else if i > p {
                        assert(ov[i - 1] == z);
                    }
                }
                if ov.contains(z) {
                    let i = choose|i: int| 0 <= i < ov.len() && ov[i] == z;
                    if i < p {
                        assert(nv[i] == z);
                    } else {
                        assert(nv[i + 1] == z);
                    }
                }
                if z == k@ {
                    assert(nv[p as int] == z);
                }
            }
        }
    }
}

impl MpcSession {
    /// The session digest over the accepted shares: SHA-256 over each
    /// party's identifier and share, parties in `str` order.  Fails when fewer
    /// shares than the threshold are present.
    pub fn finalize_digest(&self) -> (res: Result<Vec<u8>, MpcError>)
        ensures
            self.spec_shares().dom().len() < self.spec_policy().threshold ==> res == Err::<Vec<u8>, MpcError>(
                MpcError::InsufficientShares,
            ),
            self.spec_shares().dom().len() >= self.spec_policy().threshold ==> (res matches Ok(d) && d@
                == spec_session_digest(self.spec_shares())),
            finalize_outcome(*self) == (match res {
                Ok(d) => Ok::<Seq<u8>, MpcError>(d@),
                Err(e) => Err::<Seq<u8>, MpcError>(e),
            }),
    {
        if !self.can_finalize() {
            return Err(MpcError::InsufficientShares);
        }
        self.shares.lemma_seqs();
        let ghost m = self.shares@;
        let ghost ks = self.shares.key_seq();
        let n = self.shares.len();
        let mut order: Vec<String> = Vec::new();
        let mut i: usize = 0;
        assert(string_views(order@).to_set() =~= ks.take(0).to_set());
        while i < n
            invariant
                0 <= i <= n,
                n == ks.len(),
                ks == self.shares.key_seq(),
                ks.no_duplicates(),
                order@.len() == i,
                strictly_sorted(string_views(order@)),
                string_views(order@).to_set() == ks.take(i as int).to_set(),
            decreases n - i,
        {
            let k = self.shares.key_at(i);
            proof {
                if string_views(order@).contains(k@) {
                    assert(string_views(order@).to_set().contains(k@));
                    let t0 = ks.take(i as int);
                    assert(t0.contains(k@));
                    let j = choose|j: int| 0 <= j < t0.len() && t0[j] == k@;
                    assert(ks[j] == ks[i as int]);
                }
            }
            insert_sorted(&mut order, k);
            proof {
                assert(ks.take(i + 1) =~= ks.take(i as int).push(ks[i as int]));
                assert(ks.take(i + 1).to_set() =~= ks.take(i as int).to_set().insert(ks[i as int])) by {
                    assert forall|z: Seq<char>| ks.take(i + 1).to_set().contains(z) <==> ks.take(
                        i as int,
                    ).to_set().insert(ks[i as int]).contains(z) by {
                        let t1 = ks.take(i + 1);
                        if t1.contains(z) {
                            let j = choose|j: int| 0 <= j < t1.len() && t1[j] == z;
                            if j < i {
                                assert(ks.take(i as int)[j] == z);
                            }
                        }
                        let t0 = ks.take(i as int);
                        if t0.contains(z) {
                            let j = choose|j: int| 0 <= j < t0.len() && t0[j] == z;
                            assert(ks.take(i + 1)[j] == z);
                        }
                        if z == ks[i as int] {
                            assert(ks.take(i + 1)[i as int] == z);
                        }
                    }
                }
            }
            i = i + 1;
        }
        let ghost ov = string_views(order@);
        proof {
            assert(ks.take(n as int) =~= ks);
            assert(ov.to_set() =~= m.dom()) by {
                assert forall|z: Seq<char>| ov.to_set().contains(z) <==> m.dom().contains(z) by {
                    assert(m.contains_key(z) <==> ks.contains(z));
                }
            }
            assert(strictly_sorted(ov) && ov.to_set() == m.dom());
            lemma_sorted_unique(ov, canonical_order(m.dom()));
        }
        let mut data: Vec<u8> = Vec::new();
        let mut j: usize = 0;
        while j < order.len()
            invariant
                0 <= j <= order@.len(),
                ov == string_views(order@),
                ov.to_set() == m.dom(),
                m == self.shares@,
                data@ == digest_input(ov.take(j as int), m),
            decreases order@.len() - j,
        {
            let party = order[j].as_str();
            push_str_bytes(&mut data, party);
            proof {
                assert(ov[j as int] == party@);
                assert(ov.to_set().contains(ov[j as int]));
            }
            match self.shares.get(party) {
                Some(share) => {
                    push_bytes(&mut data, share.as_slice());
                },
                None => {},
            }
            proof {
                assert(ov.take(j + 1).drop_last() =~= ov.take(j as int));
                assert(ov.take(j + 1).last() == ov[j as int]);
            }
            j = j + 1;
        }
        proof {
            assert(ov.take(j as int) =~= ov);
        }
        Ok(sha256(data.as_slice()))
    }

    /// Check the coordinator's aggregate for the current round: after the
    /// round and nonce checks, the local digest must be available and equal
    /// the aggregate's.
    pub fn apply_aggregate(&mut self, aggregate: &AggregateMessage) -> (res: Result<(), MpcError>)
        ensures
            round_in_range(*old(self)) ==> round_in_range(*final(self)),
            message_gate(*old(self), *final(self), aggregate.round, aggregate.nonce, res),
            same_but_nonces(*final(self), *old(self)),
            passes_gate(*old(self), aggregate.round, aggregate.nonce) ==> {
                &&& old(self).spec_shares().dom().len() < old(self).spec_policy().threshold ==> res == Err::<
                    (),
                    MpcError,
                >(MpcError::InsufficientShares)
                &&& old(self).spec_shares().dom().len() >= old(self).spec_policy().threshold ==> (res is Ok
                    <==> aggregate.digest@ == spec_session_digest(old(self).spec_shares()))
                &&& old(self).spec_shares().dom().len() >= old(self).spec_policy().threshold && res is Err ==> res
                    == Err::<(), MpcError>(MpcError::AggregateMismatch)
            },
    {
        match self.ensure_round(aggregate.round) {
            Ok(()) => {},
            Err(e) => {
                return Err(e);
            },
        }
        match self.register_nonce(aggregate.nonce) {
            Ok(()) => {},
            Err(e) => {
                return Err(e);
            },
        }
        let local = match self.finalize_digest() {
            Ok(d) => d,
            Err(e) => {
                return Err(e);
            },
        };
        if !bytes_eq(local.as_slice(), aggregate.digest.as_slice()) {
            return Err(MpcError::AggregateMismatch);
        }
        Ok(())
    }
}

/// Two sessions with the same threshold and the same accepted shares,
/// whatever order the shares arrived in, finalize alike: both fail with
/// `InsufficientShares`, or both give the same digest.
pub proof fn lemma_same_shares_same_digest(a: MpcSession, b: MpcSession)
    requires
        a.spec_policy().threshold == b.spec_policy().threshold,
        a.spec_shares() == b.spec_shares(),
    ensures
        finalize_outcome(a) == finalize_outcome(b),
{
}

/// Accepting two parties' shares in either order gives the same share map.
pub proof fn lemma_share_order_irrelevant(
    shares: Map<Seq<char>, Seq<u8>>,
    p1: Seq<char>,
    s1: Seq<u8>,
    p2: Seq<char>,
    s2: Seq<u8>,
)
    requires
        p1 != p2,
    ensures
        shares.insert(p1, s1).insert(p2, s2) == shares.insert(p2, s2).insert(p1, s1),
        spec_session_digest(shares.insert(p1, s1).insert(p2, s2)) == spec_session_digest(
            shares.insert(p2, s2).insert(p1, s1),
        ),
{
    assert(shares.insert(p1, s1).insert(p2, s2) =~= shares.insert(p2, s2).insert(p1, s1));
}

/// A nonce that passed the round and nonce checks is recorded, so a later
/// message carrying it is rejected as a replay in any round.
pub proof fn lemma_nonce_used_once(
    before: MpcSession,
    after: MpcSession,
    round: u32,
    nonce: u64,
    res: Result<(), MpcError>,
    later_round: u32,
)
    requires
        message_gate(before, after, round, nonce, res),
        passes_gate(before, round, nonce),
    ensures
        after.spec_nonces().contains(nonce),
        !passes_gate(after, later_round, nonce),
{
}

} // verus!
