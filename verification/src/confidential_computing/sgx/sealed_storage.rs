//! Sealed storage: blobs bound to a PCR policy, a cache of blobs by key
//! identifier, and a key store on top of it.
//!
//! Sealing is simulated (the ciphertext is the plaintext, under a zero
//! nonce); the authentication tag over nonce, ciphertext and policy, and the
//! PCR policy check that guard unsealing, are real.
use vstd::prelude::*;

use super::{compute_seal_tag, encode_policy, pcr_matches, policy_bytes, seal_tag, EnclaveError, PcrPolicy, PcrValues};
use crate::str_map::StrMap;
use crate::util::{bytes_eq, copy_bytes, copy_str, push_bytes, zeros};

verus! {

/// A sealed data blob.
#[derive(Debug, Clone)]
pub struct SealedDataBlob {
    /// Nonce (12 bytes for GCM).
    pub nonce: Vec<u8>,
    /// Encrypted data.
    pub ciphertext: Vec<u8>,
    /// Authentication tag (16 bytes for GCM).
    pub auth_tag: Vec<u8>,
    /// Which PCR values may unseal the blob.
    pub pcr_policy: PcrPolicy,
    /// Additional authenticated data.
    pub aad: Option<Vec<u8>>,
}

/// Mathematical view of a [`SealedDataBlob`].
pub struct SealedDataBlobView {
    pub nonce: Seq<u8>,
    pub ciphertext: Seq<u8>,
    pub auth_tag: Seq<u8>,
    pub pcr_policy: PcrPolicy,
    pub aad: Option<Seq<u8>>,
}

impl View for SealedDataBlob {
    type V = SealedDataBlobView;

    open spec fn view(&self) -> SealedDataBlobView {
        SealedDataBlobView {
            nonce: self.nonce@,
            ciphertext: self.ciphertext@,
            auth_tag: self.auth_tag@,
            pcr_policy: self.pcr_policy,
            aad: match self.aad {
                Some(a) => Some(a@),
                None => None,
            },
        }
    }
}

impl SealedDataBlob {
    /// Nonce size (12 bytes for GCM).
    pub const NONCE_SIZE: usize = 12;

    /// Authentication tag size (16 bytes for GCM).
    pub const AUTH_TAG_SIZE: usize = 16;

    /// A blob without additional authenticated data.
    pub fn new(nonce: Vec<u8>, ciphertext: Vec<u8>, auth_tag: Vec<u8>, pcr_policy: PcrPolicy) -> (b: Self)
        ensures
            b.nonce == nonce,
            b.ciphertext == ciphertext,
            b.auth_tag == auth_tag,
            b.pcr_policy == pcr_policy,
            b.aad is None,
    {
        SealedDataBlob { nonce, ciphertext, auth_tag, pcr_policy, aad: None }
    }

    /// The same blob with `aad` attached.
    pub fn with_aad(self, aad: Vec<u8>) -> (b: Self)
        ensures
            b.aad == Some(aad),
            b.nonce == self.nonce,
            b.ciphertext == self.ciphertext,
            b.auth_tag == self.auth_tag,
            b.pcr_policy == self.pcr_policy,
    {
        let mut b = self;
        b.aad = Some(aad);
        b
    }

    /// Total size of nonce, ciphertext and tag in bytes.
    pub fn size(&self) -> (n: usize)
        requires
            self.nonce@.len() + self.ciphertext@.len() + self.auth_tag@.len() <= usize::MAX,
        ensures
            n == self.nonce@.len() + self.ciphertext@.len() + self.auth_tag@.len(),
    {
        self.nonce.len() + self.ciphertext.len() + self.auth_tag.len()
    }

    /// A copy of the blob.
    pub fn duplicate(&self) -> (b: Self)
        ensures
            b@ == self@,
    {
        SealedDataBlob {
            nonce: copy_bytes(self.nonce.as_slice()),
            ciphertext: copy_bytes(self.ciphertext.as_slice()),
            auth_tag: copy_bytes(self.auth_tag.as_slice()),
            pcr_policy: self.pcr_policy,
            aad: match &self.aad {
                Some(a) => Some(copy_bytes(a.as_slice())),
                None => None,
            },
        }
    }
}

/// The tag a blob with this nonce, ciphertext and policy must carry.
pub open spec fn blob_tag(nonce: Seq<u8>, ciphertext: Seq<u8>, policy: PcrPolicy) -> Seq<u8> {
    seal_tag(nonce + ciphertext + policy_bytes(policy))
}

/// The blob that sealing `plaintext` under `policy` produces.
pub open spec fn sealed_blob(plaintext: Seq<u8>, policy: PcrPolicy) -> SealedDataBlobView {
    SealedDataBlobView {
        nonce: Seq::new(12, |i: int| 0u8),
        ciphertext: plaintext,
        auth_tag: blob_tag(Seq::new(12, |i: int| 0u8), plaintext, policy),
        pcr_policy: policy,
        aad: None,
    }
}

/// The error returned when a blob's tag does not match its content.
pub open spec fn tampering_error(e: EnclaveError) -> bool {
    e matches EnclaveError::SealedStorageError(m) && m@ == "Sealed data authentication failed"@
}

/// What unsealing `blob` with current PCR values `pcr` gives: a policy
/// mismatch first, then a tag that does not match the content, else the
/// plaintext.
pub open spec fn unseal_answer(pcr: PcrValues, blob: SealedDataBlob, res: Result<Vec<u8>, EnclaveError>) -> bool {
    if !pcr_matches(pcr, blob.pcr_policy) {
        res matches Err(e) && policy_mismatch_error(e)
    } else if blob.auth_tag@ != blob_tag(blob.nonce@, blob.ciphertext@, blob.pcr_policy) {
        res matches Err(e) && tampering_error(e)
    } else {
        res matches Ok(p) && p@ == blob.ciphertext@
    }
}

/// The error returned when the current PCR values do not meet a blob's policy.
pub open spec fn policy_mismatch_error(e: EnclaveError) -> bool {
    e matches EnclaveError::SealedStorageError(m) && m@ == "Current PCR values don't match sealing policy"@
}

/// Sealed storage manager.
pub struct SealedStorage {
    cache: StrMap<SealedDataBlob>,
    current_pcr: PcrValues,
}

impl SealedStorage {
    /// The cached blobs by key identifier.
    pub closed spec fn spec_cache(&self) -> Map<Seq<char>, SealedDataBlobView> {
        self.cache@
    }

    /// The current PCR values.
    pub closed spec fn spec_pcr(&self) -> PcrValues {
        self.current_pcr
    }

    /// An empty storage for an enclave with `pcr_values`.
    pub fn new(pcr_values: PcrValues) -> (s: Self)
        ensures
            s.spec_cache() == Map::<Seq<char>, SealedDataBlobView>::empty(),
            s.spec_pcr() == pcr_values,
    {
        SealedStorage { cache: StrMap::new(), current_pcr: pcr_values }
    }

    /// Seal `plaintext` under `pcr_policy`, cache the blob under `key_id`
    /// and return it.
    pub fn seal(&mut self, key_id: &str, plaintext: &[u8], pcr_policy: PcrPolicy) -> (res: Result<
        SealedDataBlob,
        EnclaveError,
    >)
        ensures
            res matches Ok(b) && b@ == sealed_blob(plaintext@, pcr_policy),
            final(self).spec_cache() == old(self).spec_cache().insert(
                key_id@,
                sealed_blob(plaintext@, pcr_policy),
            ),
            final(self).spec_pcr() == old(self).spec_pcr(),
    {
        let nonce = zeros(SealedDataBlob::NONCE_SIZE);
        let ciphertext = copy_bytes(plaintext);
        let mut content = copy_bytes(nonce.as_slice());
        push_bytes(&mut content, plaintext);
        push_bytes(&mut content, encode_policy(&pcr_policy).as_slice());
        let auth_tag = compute_seal_tag(content.as_slice());
        let blob = SealedDataBlob::new(nonce, ciphertext, auth_tag, pcr_policy);
        assert(blob@ == sealed_blob(plaintext@, pcr_policy));
        let stored = blob.duplicate();
        self.cache.insert(copy_str(key_id), stored);
        Ok(blob)
    }

    /// Unseal `blob`: fails when the current PCR values do not meet its
    /// policy, then when its tag does not match its nonce, ciphertext and
    /// policy (tampering); otherwise gives its plaintext.
    pub fn unseal(&self, blob: &SealedDataBlob) -> (res: Result<Vec<u8>, EnclaveError>)
        ensures
            unseal_answer(self.spec_pcr(), *blob, res),
    {
        if !self.current_pcr.matches_policy(&blob.pcr_policy) {
            return Err(
                EnclaveError::SealedStorageError(copy_str("Current PCR values don't match sealing policy")),
            );
        }
        let mut content = copy_bytes(blob.nonce.as_slice());
        push_bytes(&mut content, blob.ciphertext.as_slice());
        push_bytes(&mut content, encode_policy(&blob.pcr_policy).as_slice());
        let expected = compute_seal_tag(content.as_slice());
        if !bytes_eq(blob.auth_tag.as_slice(), expected.as_slice()) {
            return Err(EnclaveError::SealedStorageError(copy_str("Sealed data authentication failed")));
        }
        Ok(copy_bytes(blob.ciphertext.as_slice()))
    }

    /// Cache `blob` under `key_id`.
    pub fn cache_blob(&mut self, key_id: String, blob: SealedDataBlob)
        ensures
            final(self).spec_cache() == old(self).spec_cache().insert(key_id@, blob@),
            final(self).spec_pcr() == old(self).spec_pcr(),
    {
        self.cache.insert(key_id, blob);
    }

    /// The blob cached under `key_id`.
    pub fn get_cached(&self, key_id: &str) -> (r: Option<&SealedDataBlob>)
        ensures
            r is None <==> !self.spec_cache().contains_key(key_id@),
            r matches Some(b) ==> b@ == self.spec_cache()[key_id@],
    {
        self.cache.get(key_id)
    }

    /// Drop every cached blob.
    pub fn clear_cache(&mut self)
        ensures
            final(self).spec_cache() == Map::<Seq<char>, SealedDataBlobView>::empty(),
            final(self).spec_pcr() == old(self).spec_pcr(),
    {
        self.cache.clear();
    }

    /// Number of cached blobs.
    pub fn cache_size(&self) -> (n: usize)
        ensures
            n == self.spec_cache().dom().len(),
    {
        self.cache.len()
    }

    /// The current PCR values.
    pub fn current_pcr(&self) -> (p: &PcrValues)
        ensures
            *p == self.spec_pcr(),
    {
        &self.current_pcr
    }

    /// Replace the current PCR values.
    pub fn update_pcr(&mut self, new_pcr: PcrValues)
        ensures
            final(self).spec_pcr() == new_pcr,
            final(self).spec_cache() == old(self).spec_cache(),
    {
        self.current_pcr = new_pcr;
    }
}

/// Sealed store for private keys.
pub struct SealedKeyStore {
    storage: SealedStorage,
}

impl SealedKeyStore {
    /// The underlying storage's cache.
    pub closed spec fn spec_cache(&self) -> Map<Seq<char>, SealedDataBlobView> {
        self.storage.spec_cache()
    }

    /// The current PCR values.
    pub closed spec fn spec_pcr(&self) -> PcrValues {
        self.storage.spec_pcr()
    }

    /// An empty key store for an enclave with `pcr_values`.
    pub fn new(pcr_values: PcrValues) -> (s: Self)
        ensures
            s.spec_cache() == Map::<Seq<char>, SealedDataBlobView>::empty(),
            s.spec_pcr() == pcr_values,
    {
        SealedKeyStore { storage: SealedStorage::new(pcr_values) }
    }

    /// Seal a private key under `pcr_policy` (no policy means any PCR values).
    pub fn store_private_key(
        &mut self,
        key_id: &str,
        private_key_bytes: &[u8],
        pcr_policy: Option<PcrPolicy>,
    ) -> (res: Result<SealedDataBlob, EnclaveError>)
        ensures
            ({
                let policy = match pcr_policy {
                    Some(p) => p,
                    None => PcrPolicy { pcr0: None, pcr1: None, pcr2: None },
                };
                &&& res matches Ok(b) && b@ == sealed_blob(private_key_bytes@, policy)
                &&& final(self).spec_cache() == old(self).spec_cache().insert(
                    key_id@,
                    sealed_blob(private_key_bytes@, policy),
                )
            }),
            final(self).spec_pcr() == old(self).spec_pcr(),
    {
        let policy = match pcr_policy {
            Some(p) => p,
            None => PcrPolicy::any(),
        };
        self.storage.seal(key_id, private_key_bytes, policy)
    }

    /// Unseal a private key.
    pub fn retrieve_private_key(&self, blob: &SealedDataBlob) -> (res: Result<Vec<u8>, EnclaveError>)
        ensures
            unseal_answer(self.spec_pcr(), *blob, res),
    {
        self.storage.unseal(blob)
    }

    /// Whether the current PCR values meet the blob's policy.
    pub fn can_retrieve(&self, blob: &SealedDataBlob) -> (b: bool)
        ensures
            b == pcr_matches(self.spec_pcr(), blob.pcr_policy),
    {
        self.storage.current_pcr.matches_policy(&blob.pcr_policy)
    }
}

/// What `seal` makes, `unseal` gives back under PCR values that meet the
/// policy: the blob's tag matches its content, and its ciphertext is the
/// plaintext.
pub proof fn lemma_seal_unseal_roundtrip(plaintext: Seq<u8>, policy: PcrPolicy, current: PcrValues, blob: SealedDataBlob)
    requires
        blob@ == sealed_blob(plaintext, policy),
        pcr_matches(current, policy),
    ensures
        forall|res: Result<Vec<u8>, EnclaveError>| #[trigger] unseal_answer(current, blob, res) ==> (res matches Ok(
            p,
        ) && p@ == plaintext),
{
}

/// A blob whose tag differs from the one its content calls for does not
/// unseal, whatever the PCR values: tampering is detected.
pub proof fn lemma_tampered_blob_rejected(current: PcrValues, blob: SealedDataBlob, res: Result<Vec<u8>, EnclaveError>)
    requires
        unseal_answer(current, blob, res),
        blob.auth_tag@ != blob_tag(blob.nonce@, blob.ciphertext@, blob.pcr_policy),
    ensures
        res is Err,
{
}

/// Unsealing refuses a blob as soon as one register its policy names holds
/// another value, whichever register it is, with the policy-mismatch error.
pub proof fn lemma_unseal_needs_every_named_register(
    current: PcrValues,
    blob: SealedDataBlob,
    res: Result<Vec<u8>, EnclaveError>,
)
    requires
        unseal_answer(current, blob, res),
        (blob.pcr_policy.pcr0 matches Some(e) && current.pcr0@ != e@) || (blob.pcr_policy.pcr1 matches Some(e)
            && current.pcr1@ != e@) || (blob.pcr_policy.pcr2 matches Some(e) && current.pcr2@ != e@),
    ensures
        res matches Err(e) && policy_mismatch_error(e),
{
    super::lemma_policy_checks_each_register(current, blob.pcr_policy);
}

} // verus!
