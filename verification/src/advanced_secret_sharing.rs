//! Advanced secret sharing primitives: verifiable share commitments,
//! HMAC-authenticated participant shares and proactive share refresh.
//!
//! Refreshing XORs a share with a mask derived from a seed and the current
//! epoch; re-sharing moves shares to a new participant roster under a new
//! epoch and binds the result with a SHA-256 transcript proof.
use vstd::prelude::*;

use crate::crypto::{hmac_sha256, sha256, sha256_collides, spec_hmac_sha256, spec_sha256};
use crate::util::{
    bytes_eq, copy_bytes, copy_str, lemma_middle_cancel, push_bytes, push_str_bytes, push_u64_le, string_views, utf8,
};
use vstd::bytes::spec_u64_to_le_bytes as le64;

verus! {

/// Errors of advanced secret sharing operations.
#[derive(Debug, PartialEq, Eq, Structural)]
pub enum AdvancedSharingError {
    IndexOutOfBounds,
    VerificationFailed,
    InvalidShareLength,
    InvalidThreshold,
    ParticipantMismatch,
    ProofVerificationFailed,
    MacAuthenticationFailed,
    EmptyMacKey,
}

/// A participant share with an HMAC-SHA-256 authenticity tag over
/// `participant_id || share_bytes || epoch_le || context`.
#[derive(Debug, Clone, PartialEq, Eq)]
pub struct AuthenticatedShare {
    /// Participant identifier bound by the MAC.
    pub participant_id: String,
    /// Share payload.
    pub share_bytes: Vec<u8>,
    /// Epoch at the time of authentication.
    pub epoch: u64,
    /// The HMAC-SHA-256 tag.
    pub mac: Vec<u8>,
}

/// Commitment record for one share.
#[derive(Debug, Clone, PartialEq, Eq)]
pub struct VssCommitment {
    /// Share index in the share set.
    pub index: u8,
    /// Hash commitment bytes.
    pub commitment: Vec<u8>,
}

/// Verified share representation.
#[derive(Debug, Clone, PartialEq, Eq)]
pub struct VerifiedShare {
    /// Share index.
    pub index: u8,
    /// Share payload.
    pub share: Vec<u8>,
}

/// Share bound to a participant identifier.
#[derive(Debug, Clone, PartialEq, Eq)]
pub struct ParticipantShare {
    /// Participant identifier.
    pub participant_id: String,
    /// Share bytes assigned to the participant.
    pub share: Vec<u8>,
}

/// Mathematical view of a [`ParticipantShare`].
pub struct ParticipantShareView {
    pub participant_id: Seq<char>,
    pub share: Seq<u8>,
}

impl View for ParticipantShare {
    type V = ParticipantShareView;

    open spec fn view(&self) -> ParticipantShareView {
        ParticipantShareView { participant_id: self.participant_id@, share: self.share@ }
    }
}

/// Result of a proactive re-sharing operation.
#[derive(Debug, Clone)]
pub struct ResharePlan {
    /// Previous threshold value.
    pub old_threshold: usize,
    /// New threshold value.
    pub new_threshold: usize,
    /// Previous epoch.
    pub old_epoch: u64,
    /// New epoch.
    pub new_epoch: u64,
    /// Refreshed participant shares.
    pub refreshed: Vec<ParticipantShare>,
    /// Transcript proof binding the metadata and the refreshed commitments.
    pub proof: RefreshProof,
}

/// Proof artifact for proactive share refresh operations.
#[derive(Debug, Clone, PartialEq, Eq)]
pub struct RefreshProof {
    /// Transcript hash over operation metadata and refreshed commitments.
    pub transcript_hash: Vec<u8>,
}

/// Proactive share refresher for rotating share material by epoch.
#[derive(Debug, Clone)]
pub struct ProactiveRefresher {
    /// Current epoch for the refresh schedule.
    pub epoch: u64,
}

// ---------------------------------------------------------------------------
// Specifications
// ---------------------------------------------------------------------------

/// The bytes an authentication tag covers.
pub open spec fn mac_message(participant: Seq<char>, share: Seq<u8>, epoch: u64, context: Seq<u8>) -> Seq<u8> {
    utf8(participant) + share + le64(epoch) + context
}

/// The authentication tag of a share.
pub open spec fn spec_mac(
    participant: Seq<char>,
    share: Seq<u8>,
    epoch: u64,
    context: Seq<u8>,
    key: Seq<u8>,
) -> Seq<u8> {
    spec_hmac_sha256(key, mac_message(participant, share, epoch, context))
}

/// Whether `mac` is the authentication tag of the other fields.
pub open spec fn tag_valid(
    participant: Seq<char>,
    share: Seq<u8>,
    epoch: u64,
    mac: Seq<u8>,
    context: Seq<u8>,
    key: Seq<u8>,
) -> bool {
    mac == spec_mac(participant, share, epoch, context, key)
}

/// The commitment to share `share` at position `index`.
pub open spec fn spec_commitment(index: u8, share: Seq<u8>) -> Seq<u8> {
    spec_sha256(seq![index] + share)
}

/// One 32-byte mask block.
pub open spec fn mask_block(seed: Seq<u8>, epoch: u64, counter: u64) -> Seq<u8> {
    spec_sha256(seed + le64(epoch) + le64(counter))
}

/// The mask of length `len` for `seed` at `epoch`: byte `i` is byte `i % 32`
/// of block `i / 32`.
pub open spec fn spec_mask(seed: Seq<u8>, epoch: u64, len: nat) -> Seq<u8> {
    Seq::new(len, |i: int| mask_block(seed, epoch, (i / 32) as u64)[i % 32])
}

/// Byte-wise XOR of `a` with the first `a.len()` bytes of `m`.
pub open spec fn spec_xor(a: Seq<u8>, m: Seq<u8>) -> Seq<u8> {
    Seq::new(a.len(), |i: int| a[i] ^ m[i])
}

/// A share refreshed with `seed` at `epoch`.
pub open spec fn spec_refresh(share: Seq<u8>, seed: Seq<u8>, epoch: u64) -> Seq<u8> {
    spec_xor(share, spec_mask(seed, epoch, share.len()))
}

/// Whether the two thresholds fit the two rosters.
pub open spec fn thresholds_valid(old_parties: nat, new_parties: nat, old_t: nat, new_t: nat) -> bool {
    &&& 0 < old_t <= old_parties
    &&& 0 < new_t <= new_parties
}

/// The epoch after one advance (saturating).
pub open spec fn next_epoch(e: u64) -> u64 {
    if e == u64::MAX {
        e
    } else {
        (e + 1) as u64
    }
}

/// The per-participant seed used when re-sharing to position `idx`.
pub open spec fn reshare_seed(seed: Seq<u8>, participant: Seq<char>, idx: int) -> Seq<u8> {
    seed + utf8(participant) + le64(idx as u64)
}

/// Concatenated UTF-8 bytes of a list of identifiers.
pub open spec fn ids_bytes(ids: Seq<Seq<char>>) -> Seq<u8>
    decreases ids.len(),
{
    if ids.len() == 0 {
        Seq::empty()
    } else {
        ids_bytes(ids.drop_last()) + utf8(ids.last())
    }
}

/// Concatenated identifier bytes and share commitments of refreshed shares.
pub open spec fn refreshed_bytes(items: Seq<ParticipantShareView>) -> Seq<u8>
    decreases items.len(),
{
    if items.len() == 0 {
        Seq::empty()
    } else {
        refreshed_bytes(items.drop_last()) + utf8(items.last().participant_id) + spec_commitment(
            0,
            items.last().share,
        )
    }
}

/// The transcript of a re-sharing operation: both epochs and both
/// thresholds (little-endian), the participant identifiers, then each
/// refreshed share's identifier and commitment.
pub open spec fn reshare_transcript(
    old_epoch: u64,
    new_epoch: u64,
    old_threshold: usize,
    new_threshold: usize,
    participants: Seq<Seq<char>>,
    refreshed: Seq<ParticipantShareView>,
) -> Seq<u8> {
    le64(old_epoch) + le64(new_epoch) + le64(old_threshold as u64) + le64(new_threshold as u64) + ids_bytes(
        participants,
    ) + refreshed_bytes(refreshed)
}

/// The transcript hash of a re-sharing operation.
pub open spec fn spec_refresh_proof(
    old_epoch: u64,
    new_epoch: u64,
    old_threshold: usize,
    new_threshold: usize,
    participants: Seq<Seq<char>>,
    refreshed: Seq<ParticipantShareView>,
) -> Seq<u8> {
    spec_sha256(reshare_transcript(old_epoch, new_epoch, old_threshold, new_threshold, participants, refreshed))
}

/// The transcript a plan's hash must be the digest of.
pub open spec fn plan_transcript(plan: ResharePlan) -> Seq<u8> {
    let items = plan.refreshed@.map_values(|p: ParticipantShare| p@);
    reshare_transcript(
        plan.old_epoch,
        plan.new_epoch,
        plan.old_threshold,
        plan.new_threshold,
        share_ids(items),
        items,
    )
}

/// The identifiers of a list of shares.
pub open spec fn share_ids(items: Seq<ParticipantShareView>) -> Seq<Seq<char>> {
    items.map_values(|p: ParticipantShareView| p.participant_id)
}

/// A plan's transcript matches the payload it carries.
pub open spec fn plan_valid(plan: ResharePlan) -> bool {
    let items = plan.refreshed@.map_values(|p: ParticipantShare| p@);
    plan.proof.transcript_hash@ == spec_refresh_proof(
        plan.old_epoch,
        plan.new_epoch,
        plan.old_threshold,
        plan.new_threshold,
        share_ids(items),
        items,
    )
}

// ---------------------------------------------------------------------------
// Authenticated shares
// ---------------------------------------------------------------------------

fn compute_mac(participant_id: &str, share_bytes: &[u8], epoch: u64, context: &[u8], key: &[u8]) -> (tag: Vec<u8>)
    ensures
        tag@ == spec_mac(participant_id@, share_bytes@, epoch, context@, key@),
{
    let mut data: Vec<u8> = Vec::new();
    push_str_bytes(&mut data, participant_id);
    push_bytes(&mut data, share_bytes);
    push_u64_le(&mut data, epoch);
    push_bytes(&mut data, context);
    assert(data@ =~= mac_message(participant_id@, share_bytes@, epoch, context@));
    hmac_sha256(key, data.as_slice())
}

/// Produce an [`AuthenticatedShare`] by computing its HMAC-SHA-256 tag.
///
/// Fails with [`AdvancedSharingError::EmptyMacKey`] when `key` is empty.
pub fn authenticate_share(
    participant_id: &str,
    share_bytes: &[u8],
    epoch: u64,
    context: &[u8],
    key: &[u8],
) -> (res: Result<AuthenticatedShare, AdvancedSharingError>)
    ensures
        key@.len() == 0 <==> res == Err::<AuthenticatedShare, AdvancedSharingError>(
            AdvancedSharingError::EmptyMacKey,
        ),
        res matches Ok(a) ==> {
            &&& a.participant_id@ == participant_id@
            &&& a.share_bytes@ == share_bytes@
            &&& a.epoch == epoch
            &&& a.mac@ == spec_mac(participant_id@, share_bytes@, epoch, context@, key@)
        },
{
    if key.len() == 0 {
        return Err(AdvancedSharingError::EmptyMacKey);
    }
    let tag = compute_mac(participant_id, share_bytes, epoch, context, key);
    Ok(
        AuthenticatedShare {
            participant_id: copy_str(participant_id),
            share_bytes: copy_bytes(share_bytes),
            epoch,
            mac: tag,
        },
    )
}

/// Verify an [`AuthenticatedShare`] tag.
///
/// Fails with [`AdvancedSharingError::EmptyMacKey`] when `key` is empty and
/// with [`AdvancedSharingError::MacAuthenticationFailed`] when the stored tag
/// differs from the recomputed one.
pub fn verify_authenticated_share(auth_share: &AuthenticatedShare, context: &[u8], key: &[u8]) -> (res:
    Result<(), AdvancedSharingError>)
    ensures
        key@.len() == 0 ==> res == Err::<(), AdvancedSharingError>(AdvancedSharingError::EmptyMacKey),
        key@.len() != 0 ==> (res is Ok <==> tag_valid(
            auth_share.participant_id@,
            auth_share.share_bytes@,
            auth_share.epoch,
            auth_share.mac@,
            context@,
            key@,
        )),
        key@.len() != 0 && res is Err ==> res == Err::<(), AdvancedSharingError>(
            AdvancedSharingError::MacAuthenticationFailed,
        ),
{
    if key.len() == 0 {
        return Err(AdvancedSharingError::EmptyMacKey);
    }
    let expected = compute_mac(
        auth_share.participant_id.as_str(),
        auth_share.share_bytes.as_slice(),
        auth_share.epoch,
        context,
        key,
    );
    if !bytes_eq(expected.as_slice(), auth_share.mac.as_slice()) {
        return Err(AdvancedSharingError::MacAuthenticationFailed);
    }
    Ok(())
}

// ---------------------------------------------------------------------------
// Commitments
// ---------------------------------------------------------------------------

fn commitment_hash(index: u8, share: &[u8]) -> (h: Vec<u8>)
    ensures
        h@ == spec_commitment(index, share@),
{
    let mut data: Vec<u8> = Vec::new();
    data.push(index);
    push_bytes(&mut data, share);
    assert(data@ =~= seq![index] + share@);
    sha256(data.as_slice())
}

impl ParticipantShare {
    /// Build a participant share.
    pub fn new(participant_id: &str, share: Vec<u8>) -> (p: Self)
        ensures
            p.participant_id@ == participant_id@,
            p.share == share,
    {
        ParticipantShare { participant_id: copy_str(participant_id), share }
    }
}

/// Compute the commitment list for a share set: entry `i` commits to share `i`
/// under the index `i` truncated to a byte.
pub fn create_commitments(shares: &[Vec<u8>]) -> (r: Vec<VssCommitment>)
    ensures
        r@.len() == shares@.len(),
        forall|i: int|
            0 <= i < shares@.len() ==> {
                &&& #[trigger] r@[i].index == i as u8
                &&& r@[i].commitment@ == spec_commitment(i as u8, shares@[i]@)
            },
{
    let mut r: Vec<VssCommitment> = Vec::new();
    let mut i: usize = 0;
    while i < shares.len()
        invariant
            0 <= i <= shares@.len(),
            r@.len() == i,
            forall|j: int|
                0 <= j < i ==> {
                    &&& #[trigger] r@[j].index == j as u8
                    &&& r@[j].commitment@ == spec_commitment(j as u8, shares@[j]@)
                },
        decreases shares@.len() - i,
    {
        #[verifier::truncate]
        let index = i as u8;
        r.push(VssCommitment { index, commitment: commitment_hash(index, shares[i].as_slice()) });
        i = i + 1;
    }
    r
}

/// Verify a share against a commitment entry.
///
/// Fails with [`AdvancedSharingError::VerificationFailed`] when the share's
/// commitment under the entry's index differs from the stored commitment.
pub fn verify_share(share: &[u8], commitment: &VssCommitment) -> (res: Result<
    VerifiedShare,
    AdvancedSharingError,
>)
    ensures
        res is Ok <==> spec_commitment(commitment.index, share@) == commitment.commitment@,
        res matches Ok(v) ==> v.index == commitment.index && v.share@ == share@,
        res is Err ==> res == Err::<VerifiedShare, AdvancedSharingError>(
            AdvancedSharingError::VerificationFailed,
        ),
{
    let expected = commitment_hash(commitment.index, share);
    if !bytes_eq(expected.as_slice(), commitment.commitment.as_slice()) {
        return Err(AdvancedSharingError::VerificationFailed);
    }
    Ok(VerifiedShare { index: commitment.index, share: copy_bytes(share) })
}

// ---------------------------------------------------------------------------
// Proactive refresh
// ---------------------------------------------------------------------------

impl Default for ProactiveRefresher {
    /// A refresher at epoch 1.
    fn default() -> (r: Self)
        ensures
            r.epoch == 1,
    {
        ProactiveRefresher { epoch: 1 }
    }
}

impl ProactiveRefresher {
    /// Create a refresher at epoch 1.
    pub fn new() -> (r: Self)
        ensures
            r.epoch == 1,
    {
        ProactiveRefresher { epoch: 1 }
    }

    /// Advance to the next epoch (saturating at `u64::MAX`).
    pub fn advance_epoch(&mut self)
        ensures
            final(self).epoch == next_epoch(old(self).epoch),
    {
        self.epoch = self.epoch.saturating_add(1);
    }

    /// Refresh a share: XOR it with the mask derived from `seed` and the
    /// current epoch.
    ///
    /// Fails with [`AdvancedSharingError::InvalidShareLength`] for an empty share.
    pub fn refresh_share(&self, share: &[u8], seed: &[u8]) -> (res: Result<Vec<u8>, AdvancedSharingError>)
        ensures
            share@.len() == 0 <==> res == Err::<Vec<u8>, AdvancedSharingError>(
                AdvancedSharingError::InvalidShareLength,
            ),
            res is Ok <==> share@.len() > 0,
            res matches Ok(r) ==> r@ == spec_refresh(share@, seed@, self.epoch),
    {
        if share.len() == 0 {
            return Err(AdvancedSharingError::InvalidShareLength);
        }
        let mask = self.mask(seed, share.len());
        let mut refreshed: Vec<u8> = Vec::new();
        let mut i: usize = 0;
        while i < share.len()
            invariant
                0 <= i <= share@.len(),
                mask@ == spec_mask(seed@, self.epoch, share@.len()),
                refreshed@.len() == i,
                forall|j: int| 0 <= j < i ==> #[trigger] refreshed@[j] == share@[j] ^ mask@[j],
            decreases share@.len() - i,
        {
            refreshed.push(share[i] ^ mask[i]);
            i = i + 1;
        }
        assert(refreshed@ =~= spec_refresh(share@, seed@, self.epoch));
        Ok(refreshed)
    }

    fn mask(&self, seed: &[u8], len: usize) -> (m: Vec<u8>)
        ensures
            m@ == spec_mask(seed@, self.epoch, len as nat),
    {
        let mut output: Vec<u8> = Vec::new();
        let mut counter: u64 = 0;
        while output.len() < len
            invariant
                output@.len() == 32 * counter,
                counter <= len,
                forall|j: int|
                    0 <= j < output@.len() ==> #[trigger] output@[j] == mask_block(
                        seed@,
                        self.epoch,
                        (j / 32) as u64,
                    )[j % 32],
            decreases len - counter,
        {
            let mut data: Vec<u8> = Vec::new();
            push_bytes(&mut data, seed);
            push_u64_le(&mut data, self.epoch);
            push_u64_le(&mut data, counter);
            assert(data@ =~= seed@ + le64(self.epoch) + le64(counter));
            let block = sha256(data.as_slice());
            let ghost before = output@;
            push_bytes(&mut output, block.as_slice());
            assert forall|j: int| 0 <= j < output@.len() implies #[trigger] output@[j] == mask_block(
                seed@,
                self.epoch,
                (j / 32) as u64,
            )[j % 32] by {
                if j >= before.len() {
                    assert(j / 32 == counter);
                    assert(output@[j] == block@[j - before.len()]);
                } else {
                    assert(output@[j] == before[j]);
                }
            }
            counter = counter + 1;
        }
        output.truncate(len);
        assert(output@ =~= spec_mask(seed@, self.epoch, len as nat));
        output
    }
}

// ---------------------------------------------------------------------------
// Re-sharing
// ---------------------------------------------------------------------------

/// The share that re-sharing assigns to position `i` of the new roster.
pub open spec fn spec_reshared(
    current: Seq<ParticipantShareView>,
    next: Seq<Seq<char>>,
    seed: Seq<u8>,
    epoch: u64,
    i: int,
) -> ParticipantShareView {
    ParticipantShareView {
        participant_id: next[i],
        share: spec_refresh(current[i % current.len() as int].share, reshare_seed(seed, next[i], i), epoch),
    }
}

/// Every source share that re-sharing to `n` positions reads is non-empty.
pub open spec fn sources_nonempty(current: Seq<ParticipantShareView>, n: nat) -> bool {
    forall|i: int| 0 <= i < n ==> #[trigger] current[i % current.len() as int].share.len() > 0
}

/// The views of a list of shares.
pub open spec fn share_views(items: Seq<ParticipantShare>) -> Seq<ParticipantShareView> {
    items.map_values(|p: ParticipantShare| p@)
}

fn validate_thresholds(old_parties: usize, new_parties: usize, old_threshold: usize, new_threshold: usize) -> (res:
    Result<(), AdvancedSharingError>)
    ensures
        res is Ok <==> thresholds_valid(
            old_parties as nat,
            new_parties as nat,
            old_threshold as nat,
            new_threshold as nat,
        ),
        res is Err ==> res == Err::<(), AdvancedSharingError>(AdvancedSharingError::InvalidThreshold),
{
    if old_threshold == 0 || old_threshold > old_parties {
        return Err(AdvancedSharingError::InvalidThreshold);
    }
    if new_threshold == 0 || new_threshold > new_parties {
        return Err(AdvancedSharingError::InvalidThreshold);
    }
    Ok(())
}

fn build_refresh_proof(
    old_epoch: u64,
    new_epoch: u64,
    old_threshold: usize,
    new_threshold: usize,
    participants: &[String],
    refreshed: &[ParticipantShare],
) -> (p: RefreshProof)
    ensures
        p.transcript_hash@ == spec_refresh_proof(
            old_epoch,
            new_epoch,
            old_threshold,
            new_threshold,
            string_views(participants@),
            share_views(refreshed@),
        ),
{
    let mut data: Vec<u8> = Vec::new();
    push_u64_le(&mut data, old_epoch);
    push_u64_le(&mut data, new_epoch);
    push_u64_le(&mut data, old_threshold as u64);
    push_u64_le(&mut data, new_threshold as u64);
    let ghost head = data@;
    let ghost ids = string_views(participants@);
    let mut i: usize = 0;
    while i < participants.len()
        invariant
            0 <= i <= participants@.len(),
            ids == string_views(participants@),
            data@ == head + ids_bytes(ids.take(i as int)),
        decreases participants@.len() - i,
    {
        push_str_bytes(&mut data, participants[i].as_str());
        assert(ids.take(i + 1).drop_last() =~= ids.take(i as int));
        i = i + 1;
        assert(data@ =~= head + ids_bytes(ids.take(i as int)));
    }
    assert(ids.take(i as int) =~= ids);
    let ghost mid = data@;
    let ghost items = share_views(refreshed@);
    let mut k: usize = 0;
    while k < refreshed.len()
        invariant
            0 <= k <= refreshed@.len(),
            items == share_views(refreshed@),
            data@ == mid + refreshed_bytes(items.take(k as int)),
        decreases refreshed@.len() - k,
    {
        let item = &refreshed[k];
        push_str_bytes(&mut data, item.participant_id.as_str());
        let commitment = commitment_hash(0, item.share.as_slice());
        push_bytes(&mut data, commitment.as_slice());
        assert(items.take(k + 1).drop_last() =~= items.take(k as int));
        k = k + 1;
        assert(data@ =~= mid + refreshed_bytes(items.take(k as int)));
    }
    assert(items.take(k as int) =~= items);
    assert(data@ =~= le64(old_epoch) + le64(new_epoch) + le64(old_threshold as u64) + le64(
        new_threshold as u64,
    ) + ids_bytes(ids) + refreshed_bytes(items));
    RefreshProof { transcript_hash: sha256(data.as_slice()) }
}

/// Verify that a re-share plan's transcript matches the payload it carries.
pub fn verify_reshare_plan(plan: &ResharePlan) -> (ok: bool)
    ensures
        ok == plan_valid(*plan),
{
    let mut participants: Vec<String> = Vec::new();
    let mut i: usize = 0;
    while i < plan.refreshed.len()
        invariant
            0 <= i <= plan.refreshed@.len(),
            participants@.len() == i,
            forall|j: int| 0 <= j < i ==> #[trigger] participants@[j]@ == plan.refreshed@[j].participant_id@,
        decreases plan.refreshed@.len() - i,
    {
        participants.push(plan.refreshed[i].participant_id.clone());
        i = i + 1;
    }
    let expected = build_refresh_proof(
        plan.old_epoch,
        plan.new_epoch,
        plan.old_threshold,
        plan.new_threshold,
        participants.as_slice(),
        plan.refreshed.as_slice(),
    );
    assert(string_views(participants@) =~= share_ids(share_views(plan.refreshed@)));
    bytes_eq(expected.transcript_hash.as_slice(), plan.proof.transcript_hash.as_slice())
}

impl ProactiveRefresher {
    /// Proactively re-share shares to a new participant roster.
    ///
    /// Position `i` of the new roster receives share `i mod current.len()`,
    /// refreshed under the new epoch with the seed `seed || participant || i_le`.
    /// Fails with [`AdvancedSharingError::InvalidThreshold`] when a threshold is
    /// 0 or exceeds its roster (the epoch is then unchanged), and with
    /// [`AdvancedSharingError::InvalidShareLength`] when a source share is
    /// empty (the epoch has then advanced).
    pub fn reshare_for_participants(
        &mut self,
        current: &[ParticipantShare],
        next_participants: &[String],
        old_threshold: usize,
        new_threshold: usize,
        seed: &[u8],
    ) -> (res: Result<ResharePlan, AdvancedSharingError>)
        ensures
            !thresholds_valid(
                current@.len(),
                next_participants@.len(),
                old_threshold as nat,
                new_threshold as nat,
            ) ==> res == Err::<ResharePlan, AdvancedSharingError>(
                AdvancedSharingError::InvalidThreshold,
            ) && final(self).epoch == old(self).epoch,
            thresholds_valid(
                current@.len(),
                next_participants@.len(),
                old_threshold as nat,
                new_threshold as nat,
            ) ==> final(self).epoch == next_epoch(old(self).epoch),
            thresholds_valid(
                current@.len(),
                next_participants@.len(),
                old_threshold as nat,
                new_threshold as nat,
            ) && !sources_nonempty(share_views(current@), next_participants@.len()) ==> res == Err::<
                ResharePlan,
                AdvancedSharingError,
            >(AdvancedSharingError::InvalidShareLength),
            thresholds_valid(
                current@.len(),
                next_participants@.len(),
                old_threshold as nat,
                new_threshold as nat,
            ) && sources_nonempty(share_views(current@), next_participants@.len()) ==> {
                &&& res is Ok
                &&& res->Ok_0.old_threshold == old_threshold
                &&& res->Ok_0.new_threshold == new_threshold
                &&& res->Ok_0.old_epoch == old(self).epoch
                &&& res->Ok_0.new_epoch == next_epoch(old(self).epoch)
                &&& share_views(res->Ok_0.refreshed@) == Seq::new(
                    next_participants@.len(),
                    |i: int|
                        spec_reshared(
                            share_views(current@),
                            string_views(next_participants@),
                            seed@,
                            next_epoch(old(self).epoch),
                            i,
                        ),
                )
                &&& plan_valid(res->Ok_0)
            },
    {
        match validate_thresholds(current.len(), next_participants.len(), old_threshold, new_threshold) {
            Ok(()) => {},
            Err(e) => {
                return Err(e);
            },
        }
        if current.len() == 0 || next_participants.len() == 0 {
            return Err(AdvancedSharingError::ParticipantMismatch);
        }
        let previous_epoch = self.epoch;
        self.advance_epoch();
        let ghost cur = share_views(current@);
        let ghost next = string_views(next_participants@);
        let mut refreshed: Vec<ParticipantShare> = Vec::new();
        let mut idx: usize = 0;
        while idx < next_participants.len()
            invariant
                0 <= idx <= next_participants@.len(),
                current@.len() > 0,
                thresholds_valid(
                    current@.len(),
                    next_participants@.len(),
                    old_threshold as nat,
                    new_threshold as nat,
                ),
                cur == share_views(current@),
                next == string_views(next_participants@),
                self.epoch == next_epoch(previous_epoch),
                previous_epoch == old(self).epoch,
                refreshed@.len() == idx,
                forall|j: int| 0 <= j < idx ==> #[trigger] current@[j % current@.len() as int].share@.len() > 0,
                forall|j: int|
                    0 <= j < idx ==> #[trigger] share_views(refreshed@)[j] == spec_reshared(
                        cur,
                        next,
                        seed@,
                        self.epoch,
                        j,
                    ),
            decreases next_participants@.len() - idx,
        {
            let participant_id = &next_participants[idx];
            let source_index = idx % current.len();
            let source_share = &current[source_index].share;
            assert(source_share@ == cur[idx as int % cur.len() as int].share);
            let mut ctx_seed: Vec<u8> = Vec::new();
            push_bytes(&mut ctx_seed, seed);
            push_str_bytes(&mut ctx_seed, participant_id.as_str());
            push_u64_le(&mut ctx_seed, idx as u64);
            assert(ctx_seed@ =~= reshare_seed(seed@, next[idx as int], idx as int));
            let next_share = match self.refresh_share(source_share.as_slice(), ctx_seed.as_slice()) {
                Ok(s) => s,
                Err(e) => {
                    assert(!sources_nonempty(cur, next_participants@.len())) by {
                        assert(cur[idx as int % cur.len() as int].share.len() == 0);
                    }
                    return Err(e);
                },
            };
            let ghost before = refreshed@;
            let item = ParticipantShare::new(participant_id.as_str(), next_share);
            assert(item@.participant_id == next[idx as int]);
            assert(item@.share == spec_refresh(cur[idx as int % cur.len() as int].share, reshare_seed(seed@, next[idx as int], idx as int), self.epoch));
            assert(item@ == spec_reshared(cur, next, seed@, self.epoch, idx as int));
            refreshed.push(item);
            proof {
                assert forall|j: int| 0 <= j < idx + 1 implies #[trigger] share_views(refreshed@)[j]
                    == spec_reshared(cur, next, seed@, self.epoch, j) by {
                    assert(share_views(refreshed@)[j] == refreshed@[j]@);
                    if j < idx {
                        assert(refreshed@[j] == before[j]);
                        assert(share_views(before)[j] == before[j]@);
                    }
                }
            }
            idx = idx + 1;
        }
        proof {
            assert forall|i: int| 0 <= i < next_participants@.len() implies #[trigger] cur[i
                % cur.len() as int].share.len() > 0 by {
                assert(current@[i % current@.len() as int].share@.len() > 0);
            }
        }
        let proof = build_refresh_proof(
            previous_epoch,
            self.epoch,
            old_threshold,
            new_threshold,
            next_participants,
            refreshed.as_slice(),
        );
        let plan = ResharePlan {
            old_threshold,
            new_threshold,
            old_epoch: previous_epoch,
            new_epoch: self.epoch,
            refreshed,
            proof,
        };
        assert(share_views(plan.refreshed@) =~= Seq::new(
            next_participants@.len(),
            |i: int| spec_reshared(cur, next, seed@, self.epoch, i),
        ));
        assert(share_ids(share_views(plan.refreshed@)) =~= next);
        if !verify_reshare_plan(&plan) {
            return Err(AdvancedSharingError::ProofVerificationFailed);
        }
        Ok(plan)
    }
}

// ---------------------------------------------------------------------------
// Laws
// ---------------------------------------------------------------------------

/// `refresh_share` undoes itself: a non-empty share refreshed with a seed
/// keeps its length, so refreshing the result again with the same seed at
/// the same epoch is accepted too, and gives the share back (the mask is
/// XORed in and out again).
pub proof fn lemma_refresh_round_trip(share: Seq<u8>, seed: Seq<u8>, epoch: u64)
    ensures
        spec_refresh(share, seed, epoch).len() == share.len(),
        spec_refresh(spec_refresh(share, seed, epoch), seed, epoch) == share,
{
    let once = spec_refresh(share, seed, epoch);
    let m = spec_mask(seed, epoch, share.len());
    assert(spec_mask(seed, epoch, once.len()) == m);
    assert forall|i: int| 0 <= i < share.len() implies #[trigger] spec_refresh(once, seed, epoch)[i]
        == share[i] by {
        let a = share[i];
        let b = m[i];
        assert((a ^ b) ^ b == a) by (bit_vector);
    }
    assert(spec_refresh(once, seed, epoch) =~= share);
}

/// Every share passes `verify_share` against the commitment that
/// `create_commitments` made for it: entry `i` of the commitment list
/// accepts share `i`.
pub proof fn lemma_commitment_round_trip(shares: Seq<Seq<u8>>, commitments: Seq<VssCommitment>, i: int)
    requires
        commitments.len() == shares.len(),
        0 <= i < shares.len(),
        forall|j: int|
            0 <= j < shares.len() ==> {
                &&& #[trigger] commitments[j].index == j as u8
                &&& commitments[j].commitment@ == spec_commitment(j as u8, shares[j])
            },
    ensures
        spec_commitment(commitments[i].index, shares[i]) == commitments[i].commitment@,
{
    assert(commitments[i].index == i as u8);
}

/// A share authenticated under a key and context verifies under the same key
/// and context: the stored tag is the recomputed one.
pub proof fn lemma_authenticate_then_verify(
    participant: Seq<char>,
    share: Seq<u8>,
    epoch: u64,
    context: Seq<u8>,
    key: Seq<u8>,
)
    ensures
        tag_valid(participant, share, epoch, spec_mac(participant, share, epoch, context, key), context, key),
{
}

/// A plan verifies only with the epochs and thresholds its transcript was
/// built over: two plans with the same refreshed shares and the same
/// transcript hash that differ in an old or new epoch or an old or new
/// threshold cannot both pass `verify_reshare_plan` unless SHA-256 maps
/// their two different transcripts to the same digest.  So a plan whose new
/// threshold (say) was altered after it was built is rejected.
pub proof fn lemma_altered_plan_rejected(a: ResharePlan, b: ResharePlan)
    requires
        a.refreshed@.map_values(|p: ParticipantShare| p@) == b.refreshed@.map_values(|p: ParticipantShare| p@),
        a.proof.transcript_hash@ == b.proof.transcript_hash@,
        a.old_epoch != b.old_epoch || a.new_epoch != b.new_epoch || a.old_threshold != b.old_threshold
            || a.new_threshold != b.new_threshold,
    ensures
        plan_valid(a) && plan_valid(b) ==> sha256_collides(plan_transcript(a), plan_transcript(b)),
{
    let items = a.refreshed@.map_values(|p: ParticipantShare| p@);
    let rest = ids_bytes(share_ids(items)) + refreshed_bytes(items);
    let ha = le64(a.old_epoch) + le64(a.new_epoch) + le64(a.old_threshold as u64) + le64(a.new_threshold as u64);
    let hb = le64(b.old_epoch) + le64(b.new_epoch) + le64(b.old_threshold as u64) + le64(b.new_threshold as u64);
    assert(plan_transcript(a) =~= Seq::<u8>::empty() + ha + rest);
    assert(plan_transcript(b) =~= Seq::<u8>::empty() + hb + rest);
    assert(plan_transcript(a) != plan_transcript(b)) by {
        if plan_transcript(a) == plan_transcript(b) {
            lemma_middle_cancel(Seq::<u8>::empty(), ha, hb, rest);
            vstd::bytes::lemma_auto_spec_u64_to_from_le_bytes();
            assert(ha.subrange(0, 8) =~= le64(a.old_epoch));
            assert(hb.subrange(0, 8) =~= le64(b.old_epoch));
            assert(ha.subrange(8, 16) =~= le64(a.new_epoch));
            assert(hb.subrange(8, 16) =~= le64(b.new_epoch));
            assert(ha.subrange(16, 24) =~= le64(a.old_threshold as u64));
            assert(hb.subrange(16, 24) =~= le64(b.old_threshold as u64));
            assert(ha.subrange(24, 32) =~= le64(a.new_threshold as u64));
            assert(hb.subrange(24, 32) =~= le64(b.new_threshold as u64));
            assert(vstd::bytes::spec_u64_from_le_bytes(le64(a.old_epoch)) == a.old_epoch);
            assert(vstd::bytes::spec_u64_from_le_bytes(le64(b.old_epoch)) == b.old_epoch);
            assert(vstd::bytes::spec_u64_from_le_bytes(le64(a.new_epoch)) == a.new_epoch);
            assert(vstd::bytes::spec_u64_from_le_bytes(le64(b.new_epoch)) == b.new_epoch);
            assert(vstd::bytes::spec_u64_from_le_bytes(le64(a.old_threshold as u64)) == a.old_threshold as u64);
            assert(vstd::bytes::spec_u64_from_le_bytes(le64(b.old_threshold as u64)) == b.old_threshold as u64);
            assert(vstd::bytes::spec_u64_from_le_bytes(le64(a.new_threshold as u64)) == a.new_threshold as u64);
            assert(vstd::bytes::spec_u64_from_le_bytes(le64(b.new_threshold as u64)) == b.new_threshold as u64);
        }
    }
}

} // verus!
