//! On-chain key commitment model.
//!
//! A [`KeyAnchor`] binds the SHA-256 digest of a public key to an owner; its
//! identifier is the lower-case hex text of that digest.  [`AnchorRegistry`]
//! is an in-process ledger of anchors keyed by identifier.
use vstd::prelude::*;

use crate::crypto::{sha256, spec_sha256};
use crate::str_map::StrMap;
use crate::util::{copy_bytes, copy_str, hex_encode, spec_hex, str_eq};

verus! {

/// Errors of key-anchor operations.
#[derive(Debug, PartialEq, Eq)]
pub enum KeyAnchorError {
    AlreadyAnchored,
    NotFound,
    Revoked,
    OwnerMismatch { expected: String, got: String },
    EmptyPublicKey,
}

/// An on-chain key commitment record.
#[derive(Debug, Clone, PartialEq, Eq)]
pub struct KeyAnchor {
    /// Unique anchor identifier (hex of the SHA-256 of the key bytes).
    pub anchor_id: String,
    /// SHA-256 digest of the bound public key.
    pub key_hash: Vec<u8>,
    /// Owner/entity identifier.
    pub owner_id: String,
    /// Creation timestamp (Unix seconds, caller-supplied).
    pub timestamp: u64,
    /// Whether this anchor has been revoked.
    pub revoked: bool,
}

/// Mathematical view of a [`KeyAnchor`].
pub struct KeyAnchorView {
    pub anchor_id: Seq<char>,
    pub key_hash: Seq<u8>,
    pub owner_id: Seq<char>,
    pub timestamp: u64,
    pub revoked: bool,
}

impl View for KeyAnchor {
    type V = KeyAnchorView;

    open spec fn view(&self) -> KeyAnchorView {
        KeyAnchorView {
            anchor_id: self.anchor_id@,
            key_hash: self.key_hash@,
            owner_id: self.owner_id@,
            timestamp: self.timestamp,
            revoked: self.revoked,
        }
    }
}

/// The identifier of the anchor of a public key.
pub open spec fn spec_anchor_id(public_key: Seq<u8>) -> Seq<char> {
    spec_hex(spec_sha256(public_key))
}

/// The fresh (non-revoked) anchor of `public_key` for `owner`.
pub open spec fn spec_new_anchor(public_key: Seq<u8>, owner: Seq<char>, timestamp: u64) -> KeyAnchorView {
    KeyAnchorView {
        anchor_id: spec_anchor_id(public_key),
        key_hash: spec_sha256(public_key),
        owner_id: owner,
        timestamp,
        revoked: false,
    }
}

/// The anchor with the revocation flag set.
pub open spec fn spec_revoked(a: KeyAnchorView) -> KeyAnchorView {
    KeyAnchorView { revoked: true, ..a }
}

/// What verifying identifier `id` gives in `registry`: `NotFound`, `Revoked`,
/// or the anchor.
pub open spec fn verify_outcome(registry: Map<Seq<char>, KeyAnchorView>, id: Seq<char>) -> Result<
    KeyAnchorView,
    KeyAnchorError,
> {
    if !registry.contains_key(id) {
        Err(KeyAnchorError::NotFound)
    } else if registry[id].revoked {
        Err(KeyAnchorError::Revoked)
    } else {
        Ok(registry[id])
    }
}

impl KeyAnchor {
    /// Build a new (non-revoked) anchor.
    pub fn new(public_key: &[u8], owner_id: &str, timestamp: u64) -> (a: Self)
        ensures
            a@ == spec_new_anchor(public_key@, owner_id@, timestamp),
    {
        let key_hash = sha256(public_key);
        let anchor_id = hex_encode(key_hash.as_slice());
        KeyAnchor { anchor_id, key_hash, owner_id: copy_str(owner_id), timestamp, revoked: false }
    }

    /// Returns `true` when the anchor covers the given public key bytes.
    pub fn matches_key(&self, public_key: &[u8]) -> (b: bool)
        ensures
            b == (self.key_hash@ == spec_sha256(public_key@)),
    {
        let hash = sha256(public_key);
        crate::util::bytes_eq(self.key_hash.as_slice(), hash.as_slice())
    }

    /// A copy with the same view.
    pub fn duplicate(&self) -> (a: Self)
        ensures
            a@ == self@,
    {
        KeyAnchor {
            anchor_id: self.anchor_id.clone(),
            key_hash: copy_bytes(self.key_hash.as_slice()),
            owner_id: self.owner_id.clone(),
            timestamp: self.timestamp,
            revoked: self.revoked,
        }
    }
}

/// In-process registry of [`KeyAnchor`] records keyed by anchor identifier.
#[derive(Debug, Clone)]
pub struct AnchorRegistry {
    anchors: StrMap<KeyAnchor>,
}

impl View for AnchorRegistry {
    type V = Map<Seq<char>, KeyAnchorView>;

    closed spec fn view(&self) -> Map<Seq<char>, KeyAnchorView> {
        self.anchors@
    }
}

impl AnchorRegistry {
    /// Create an empty registry.
    pub fn new() -> (r: Self)
        ensures
            r@ == Map::<Seq<char>, KeyAnchorView>::empty(),
    {
        AnchorRegistry { anchors: StrMap::new() }
    }

    /// Register a new key anchor and return a copy of it.
    ///
    /// Fails with [`KeyAnchorError::EmptyPublicKey`] for an empty key and with
    /// [`KeyAnchorError::AlreadyAnchored`] when the key's anchor exists; the
    /// registry is then unchanged.
    pub fn register(&mut self, public_key: &[u8], owner_id: &str, timestamp: u64) -> (res: Result<
        KeyAnchor,
        KeyAnchorError,
    >)
        ensures
            public_key@.len() == 0 ==> res == Err::<KeyAnchor, KeyAnchorError>(
                KeyAnchorError::EmptyPublicKey,
            ),
            public_key@.len() != 0 && old(self)@.contains_key(spec_anchor_id(public_key@)) ==> res
                == Err::<KeyAnchor, KeyAnchorError>(KeyAnchorError::AlreadyAnchored),
            res is Err ==> final(self)@ == old(self)@,
            public_key@.len() != 0 && !old(self)@.contains_key(spec_anchor_id(public_key@)) ==> {
                &&& res is Ok
                &&& res->Ok_0@ == spec_new_anchor(public_key@, owner_id@, timestamp)
                &&& final(self)@ == old(self)@.insert(spec_anchor_id(public_key@), res->Ok_0@)
                &&& final(self)@.dom().len() == old(self)@.dom().len() + 1
            },
            final(self)@.dom().finite(),
    {
        self.anchors.lemma_seqs();
        if public_key.len() == 0 {
            return Err(KeyAnchorError::EmptyPublicKey);
        }
        let anchor = KeyAnchor::new(public_key, owner_id, timestamp);
        if self.anchors.contains_key(anchor.anchor_id.as_str()) {
            return Err(KeyAnchorError::AlreadyAnchored);
        }
        let copy = anchor.duplicate();
        self.anchors.insert(anchor.anchor_id.clone(), anchor);
        self.anchors.lemma_seqs();
        Ok(copy)
    }

    /// Revoke an anchor; only its registered owner may do so.
    ///
    /// Fails with [`KeyAnchorError::NotFound`] for an unknown identifier and with
    /// [`KeyAnchorError::OwnerMismatch`] (registered owner, requester) for any
    /// other requester; the registry is then unchanged.
    pub fn revoke(&mut self, anchor_id: &str, requesting_owner: &str) -> (res: Result<
        (),
        KeyAnchorError,
    >)
        ensures
            !old(self)@.contains_key(anchor_id@) ==> res == Err::<(), KeyAnchorError>(
                KeyAnchorError::NotFound,
            ),
            old(self)@.contains_key(anchor_id@) && old(self)@[anchor_id@].owner_id
                != requesting_owner@ ==> (res matches Err(KeyAnchorError::OwnerMismatch {
                expected,
                got,
            }) && expected@ == old(self)@[anchor_id@].owner_id && got@ == requesting_owner@),
            res is Err ==> final(self)@ == old(self)@,
            old(self)@.contains_key(anchor_id@) && old(self)@[anchor_id@].owner_id
                == requesting_owner@ ==> res is Ok && final(self)@ == old(self)@.insert(
                anchor_id@,
                spec_revoked(old(self)@[anchor_id@]),
            ),
    {
        match self.anchors.remove(anchor_id) {
            None => Err(KeyAnchorError::NotFound),
            Some(mut anchor) => {
                if !str_eq(anchor.owner_id.as_str(), requesting_owner) {
                    let expected = anchor.owner_id.clone();
                    self.anchors.insert(copy_str(anchor_id), anchor);
                    assert(self@ =~= old(self)@);
                    return Err(
                        KeyAnchorError::OwnerMismatch { expected, got: copy_str(requesting_owner) },
                    );
                }
                anchor.revoked = true;
                self.anchors.insert(copy_str(anchor_id), anchor);
                assert(self@ =~= old(self)@.insert(anchor_id@, spec_revoked(old(self)@[anchor_id@])));
                Ok(())
            },
        }
    }

    /// Look up an anchor by identifier.
    pub fn lookup(&self, anchor_id: &str) -> (r: Option<&KeyAnchor>)
        ensures
            r is None <==> !self@.contains_key(anchor_id@),
            r matches Some(a) ==> a@ == self@[anchor_id@],
    {
        self.anchors.get(anchor_id)
    }

    /// The anchor with this identifier, provided it is not revoked.
    ///
    /// Fails with [`KeyAnchorError::NotFound`] or [`KeyAnchorError::Revoked`].
    pub fn verify_anchor_by_id(&self, anchor_id: &str) -> (res: Result<&KeyAnchor, KeyAnchorError>)
        ensures
            !self@.contains_key(anchor_id@) <==> res == Err::<&KeyAnchor, KeyAnchorError>(
                KeyAnchorError::NotFound,
            ),
            self@.contains_key(anchor_id@) && self@[anchor_id@].revoked <==> res == Err::<
                &KeyAnchor,
                KeyAnchorError,
            >(KeyAnchorError::Revoked),
            res is Ok <==> self@.contains_key(anchor_id@) && !self@[anchor_id@].revoked,
            res matches Ok(a) ==> a@ == self@[anchor_id@] && !a.revoked,
            verify_outcome(self@, anchor_id@) == (match res {
                Ok(a) => Ok::<KeyAnchorView, KeyAnchorError>(a@),
                Err(e) => Err::<KeyAnchorView, KeyAnchorError>(e),
            }),
    {
        match self.anchors.get(anchor_id) {
            None => Err(KeyAnchorError::NotFound),
            Some(anchor) => {
                if anchor.revoked {
                    Err(KeyAnchorError::Revoked)
                } else {
                    Ok(anchor)
                }
            },
        }
    }

    /// The anchor of a public key, provided it is not revoked.
    ///
    /// Fails with [`KeyAnchorError::NotFound`] or [`KeyAnchorError::Revoked`].
    pub fn verify_anchor(&self, public_key: &[u8]) -> (res: Result<&KeyAnchor, KeyAnchorError>)
        ensures
            !self@.contains_key(spec_anchor_id(public_key@)) <==> res == Err::<
                &KeyAnchor,
                KeyAnchorError,
            >(KeyAnchorError::NotFound),
            self@.contains_key(spec_anchor_id(public_key@)) && self@[spec_anchor_id(
                public_key@,
            )].revoked <==> res == Err::<&KeyAnchor, KeyAnchorError>(KeyAnchorError::Revoked),
            res is Ok <==> self@.contains_key(spec_anchor_id(public_key@)) && !self@[spec_anchor_id(
                public_key@,
            )].revoked,
            res matches Ok(a) ==> a@ == self@[spec_anchor_id(public_key@)] && !a.revoked,
    {
        let key_hash = sha256(public_key);
        let anchor_id = hex_encode(key_hash.as_slice());
        self.verify_anchor_by_id(anchor_id.as_str())
    }

    /// Total number of anchors (including revoked ones).
    pub fn len(&self) -> (n: usize)
        ensures
            n == self@.dom().len(),
    {
        self.anchors.len()
    }

    /// Returns `true` when the registry holds no anchors.
    pub fn is_empty(&self) -> (b: bool)
        ensures
            b == (self@.dom().len() == 0),
    {
        self.anchors.len() == 0
    }
}

/// What verifying an anchor identifier gives in a registry: `None` for an
/// unknown identifier, else whether the anchor is still valid.
pub open spec fn anchor_valid(registry: Map<Seq<char>, KeyAnchorView>, id: Seq<char>) -> Option<bool> {
    if registry.contains_key(id) {
        Some(!registry[id].revoked)
    } else {
        None
    }
}

/// A key registered in a registry verifies as a valid anchor, and after its
/// owner revokes it the same identifier verifies as revoked: revocation takes
/// effect at once.
pub proof fn lemma_register_then_revoke(
    registry: Map<Seq<char>, KeyAnchorView>,
    public_key: Seq<u8>,
    owner: Seq<char>,
    timestamp: u64,
)
    requires
        !registry.contains_key(spec_anchor_id(public_key)),
    ensures
        ({
            let id = spec_anchor_id(public_key);
            let registered = registry.insert(id, spec_new_anchor(public_key, owner, timestamp));
            &&& anchor_valid(registered, id) == Some(true)
            &&& registered[id].owner_id == owner
            &&& anchor_valid(registered.insert(id, spec_revoked(registered[id])), id) == Some(false)
        }),
{
}

/// Revocation by the owner takes effect at once and touches nothing else:
/// the identifier then verifies as `Revoked`, the other anchors and the set
/// of identifiers stay as they were, and a repeated revocation by the owner
/// is accepted and changes nothing.
pub proof fn lemma_revoke_then_verify(registry: Map<Seq<char>, KeyAnchorView>, id: Seq<char>, owner: Seq<char>)
    requires
        registry.contains_key(id),
        registry[id].owner_id == owner,
    ensures
        ({
            let after = registry.insert(id, spec_revoked(registry[id]));
            &&& verify_outcome(after, id) == Err::<KeyAnchorView, KeyAnchorError>(KeyAnchorError::Revoked)
            &&& after.dom() == registry.dom()
            &&& forall|other: Seq<char>| other != id ==> #[trigger] verify_outcome(after, other) == verify_outcome(registry, other)
            &&& after.contains_key(id) && after[id].owner_id == owner
            &&& after.insert(id, spec_revoked(after[id])) == after
        }),
{
    let after = registry.insert(id, spec_revoked(registry[id]));
    assert(after.dom() =~= registry.dom());
    assert(after.insert(id, spec_revoked(after[id])) =~= after);
}

/// A registered key is found at once: looking up or verifying its anchor
/// identifier gives the new anchor, the registry holds one anchor more and
/// the others unchanged, and registering the same key again is refused as
/// already anchored.
pub proof fn lemma_register_then_lookup(
    registry: Map<Seq<char>, KeyAnchorView>,
    public_key: Seq<u8>,
    owner: Seq<char>,
    timestamp: u64,
)
    requires
        registry.dom().finite(),
        public_key.len() != 0,
        !registry.contains_key(spec_anchor_id(public_key)),
    ensures
        ({
            let id = spec_anchor_id(public_key);
            let anchor = spec_new_anchor(public_key, owner, timestamp);
            let after = registry.insert(id, anchor);
            &&& after.contains_key(id) && after[id] == anchor
            &&& verify_outcome(after, id) == Ok::<KeyAnchorView, KeyAnchorError>(anchor)
            &&& anchor.anchor_id == id && anchor.owner_id == owner && anchor.timestamp == timestamp && !anchor.revoked
            &&& after.dom().len() == registry.dom().len() + 1
            &&& forall|other: Seq<char>| other != id ==> #[trigger] verify_outcome(after, other) == verify_outcome(registry, other)
        }),
{
}

impl Default for AnchorRegistry {
    /// An empty registry.
    fn default() -> (r: Self)
        ensures
            r@ == Map::<Seq<char>, KeyAnchorView>::empty(),
    {
        AnchorRegistry::new()
    }
}

} // verus!
