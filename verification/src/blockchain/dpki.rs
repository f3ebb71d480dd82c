//! Decentralized PKI (dPKI) facade.
//!
//! Binds entity identifiers to public-key hashes and anchors each key in an
//! internal [`AnchorRegistry`].  Resolving an entity checks both the entry's
//! validity window and the anchor's status, so revoking the anchor takes
//! effect immediately.
use vstd::prelude::*;

use crate::blockchain::key_anchor::{
    spec_anchor_id, spec_new_anchor, spec_revoked, AnchorRegistry, KeyAnchorError, KeyAnchorView,
};
use crate::crypto::{sha256, spec_sha256};
use crate::str_map::StrMap;
use crate::util::{copy_bytes, copy_str};

verus! {

/// Errors of dPKI operations.
#[derive(Debug, PartialEq, Eq)]
pub enum DpkiError {
    AlreadyRegistered,
    NotFound,
    Expired { current: u64, until: u64 },
    NotYetValid { current: u64, from: u64 },
    AnchorError(KeyAnchorError),
    EmptyPublicKey,
}

/// A single dPKI binding entry.
#[derive(Debug, Clone, PartialEq, Eq)]
pub struct DpkiEntry {
    /// Entity identifier (e.g. DID, domain, agent handle).
    pub entity_id: String,
    /// SHA-256 hash of the bound public key.
    pub key_hash: Vec<u8>,
    /// Corresponding anchor identifier in the anchor registry.
    pub anchor_id: String,
    /// Validity start (Unix seconds).
    pub valid_from: u64,
    /// Validity end (Unix seconds, `None` = no expiry).
    pub valid_until: Option<u64>,
}

/// Mathematical view of a [`DpkiEntry`].
pub struct DpkiEntryView {
    pub entity_id: Seq<char>,
    pub key_hash: Seq<u8>,
    pub anchor_id: Seq<char>,
    pub valid_from: u64,
    pub valid_until: Option<u64>,
}

impl View for DpkiEntry {
    type V = DpkiEntryView;

    open spec fn view(&self) -> DpkiEntryView {
        DpkiEntryView {
            entity_id: self.entity_id@,
            key_hash: self.key_hash@,
            anchor_id: self.anchor_id@,
            valid_from: self.valid_from,
            valid_until: self.valid_until,
        }
    }
}

/// The temporal check of an entry at `now`.
pub open spec fn spec_time_check(e: DpkiEntryView, now: u64) -> Result<(), DpkiError> {
    if now < e.valid_from {
        Err(DpkiError::NotYetValid { current: now, from: e.valid_from })
    } else if e.valid_until matches Some(until) && now > until {
        Err(DpkiError::Expired { current: now, until: e.valid_until->Some_0 })
    } else {
        Ok(())
    }
}

/// What resolving `entity` at `now` gives for the given entries and anchors.
pub open spec fn spec_resolve(
    entries: Map<Seq<char>, DpkiEntryView>,
    anchors: Map<Seq<char>, KeyAnchorView>,
    entity: Seq<char>,
    now: u64,
) -> Result<DpkiEntryView, DpkiError> {
    if !entries.contains_key(entity) {
        Err(DpkiError::NotFound)
    } else {
        let e = entries[entity];
        match spec_time_check(e, now) {
            Err(err) => Err(err),
            Ok(_) => if !anchors.contains_key(e.anchor_id) {
                Err(DpkiError::AnchorError(KeyAnchorError::NotFound))
            } else if anchors[e.anchor_id].revoked {
                Err(DpkiError::AnchorError(KeyAnchorError::Revoked))
            } else {
                Ok(e)
            },
        }
    }
}

/// The entry that registering `public_key` for `entity` creates.
pub open spec fn spec_new_entry(
    entity: Seq<char>,
    public_key: Seq<u8>,
    valid_from: u64,
    valid_until: Option<u64>,
) -> DpkiEntryView {
    DpkiEntryView {
        entity_id: entity,
        key_hash: spec_sha256(public_key),
        anchor_id: spec_anchor_id(public_key),
        valid_from,
        valid_until,
    }
}

/// Every entry's key is anchored, with the entity as the anchor's owner.
pub open spec fn entries_anchored(
    entries: Map<Seq<char>, DpkiEntryView>,
    anchors: Map<Seq<char>, KeyAnchorView>,
) -> bool {
    forall|e: Seq<char>|
        #[trigger] entries.contains_key(e) ==> anchors.contains_key(entries[e].anchor_id)
            && anchors[entries[e].anchor_id].owner_id == e
}

impl DpkiEntry {
    /// Check whether this entry is temporally valid at `now`.
    ///
    /// Fails with [`DpkiError::NotYetValid`] before `valid_from` and with
    /// [`DpkiError::Expired`] after `valid_until`.
    pub fn is_valid_at(&self, now: u64) -> (res: Result<(), DpkiError>)
        ensures
            res == spec_time_check(self@, now),
    {
        if now < self.valid_from {
            return Err(DpkiError::NotYetValid { current: now, from: self.valid_from });
        }
        if let Some(until) = self.valid_until {
            if now > until {
                return Err(DpkiError::Expired { current: now, until });
            }
        }
        Ok(())
    }

    /// A copy with the same view.
    pub fn duplicate(&self) -> (e: Self)
        ensures
            e@ == self@,
    {
        DpkiEntry {
            entity_id: self.entity_id.clone(),
            key_hash: copy_bytes(self.key_hash.as_slice()),
            anchor_id: self.anchor_id.clone(),
            valid_from: self.valid_from,
            valid_until: self.valid_until,
        }
    }
}

/// Decentralized PKI registry.
#[derive(Debug)]
pub struct DecentralizedPki {
    entries: StrMap<DpkiEntry>,
    anchors: AnchorRegistry,
}

impl DecentralizedPki {
    /// The entries by entity identifier.
    pub closed spec fn entries_view(&self) -> Map<Seq<char>, DpkiEntryView> {
        self.entries@
    }

    /// The internal anchor registry.
    pub closed spec fn anchors_view(&self) -> Map<Seq<char>, KeyAnchorView> {
        self.anchors@
    }

    /// Every entry's key is anchored to its entity.
    #[verifier::type_invariant]
    spec fn wf(self) -> bool {
        entries_anchored(self.entries@, self.anchors@)
    }

    /// Create an empty dPKI registry.
    pub fn new() -> (d: Self)
        ensures
            d.entries_view() == Map::<Seq<char>, DpkiEntryView>::empty(),
            d.anchors_view() == Map::<Seq<char>, KeyAnchorView>::empty(),
    {
        let d = DecentralizedPki { entries: StrMap::new(), anchors: AnchorRegistry::new() };
        assert(entries_anchored(d.entries@, d.anchors@));
        d
    }

    /// Register a new entity-key binding and anchor the key.
    ///
    /// Fails with [`DpkiError::EmptyPublicKey`], [`DpkiError::AlreadyRegistered`]
    /// when the entity has an entry, or [`DpkiError::AnchorError`] when the key
    /// is already anchored; the registry is then unchanged.
    pub fn register_key(
        &mut self,
        entity_id: &str,
        public_key: &[u8],
        valid_from: u64,
        valid_until: Option<u64>,
        timestamp: u64,
    ) -> (res: Result<DpkiEntry, DpkiError>)
        ensures
            entries_anchored(final(self).entries_view(), final(self).anchors_view()),
            public_key@.len() == 0 ==> res == Err::<DpkiEntry, DpkiError>(DpkiError::EmptyPublicKey),
            public_key@.len() != 0 && old(self).entries_view().contains_key(entity_id@) ==> res
                == Err::<DpkiEntry, DpkiError>(DpkiError::AlreadyRegistered),
            public_key@.len() != 0 && !old(self).entries_view().contains_key(entity_id@)
                && old(self).anchors_view().contains_key(spec_anchor_id(public_key@)) ==> res
                == Err::<DpkiEntry, DpkiError>(DpkiError::AnchorError(KeyAnchorError::AlreadyAnchored)),
            res is Err ==> final(self).entries_view() == old(self).entries_view()
                && final(self).anchors_view() == old(self).anchors_view(),
            public_key@.len() != 0 && !old(self).entries_view().contains_key(entity_id@)
                && !old(self).anchors_view().contains_key(spec_anchor_id(public_key@)) ==> {
                &&& res is Ok
                &&& res->Ok_0@ == spec_new_entry(entity_id@, public_key@, valid_from, valid_until)
                &&& final(self).entries_view() == old(self).entries_view().insert(
                    entity_id@,
                    res->Ok_0@,
                )
                &&& final(self).anchors_view() == old(self).anchors_view().insert(
                    spec_anchor_id(public_key@),
                    spec_new_anchor(public_key@, entity_id@, timestamp),
                )
            },
    {
        proof {
            use_type_invariant(&*self);
        }
        if public_key.len() == 0 {
            return Err(DpkiError::EmptyPublicKey);
        }
        if self.entries.contains_key(entity_id) {
            return Err(DpkiError::AlreadyRegistered);
        }
        let mut taken = DecentralizedPki::new();
        std::mem::swap(&mut taken, self);
        let DecentralizedPki { mut entries, mut anchors } = taken;
        let ghost old_entries = entries@;
        let ghost old_anchors = anchors@;
        let anchor = match anchors.register(public_key, entity_id, timestamp) {
            Ok(a) => a,
            Err(e) => {
                *self = DecentralizedPki { entries, anchors };
                return Err(DpkiError::AnchorError(e));
            },
        };
        let key_hash = sha256(public_key);
        let entry = DpkiEntry {
            entity_id: copy_str(entity_id),
            key_hash,
            anchor_id: anchor.anchor_id,
            valid_from,
            valid_until,
        };
        let copy = entry.duplicate();
        entries.insert(copy_str(entity_id), entry);
        proof {
            let es = entries@;
            let an = anchors@;
            assert forall|e: Seq<char>| #[trigger] es.contains_key(e) implies an.contains_key(
                es[e].anchor_id,
            ) && an[es[e].anchor_id].owner_id == e by {
                if e != entity_id@ {
                    assert(old_entries.contains_key(e));
                    assert(old_anchors.contains_key(es[e].anchor_id));
                    assert(es[e].anchor_id != spec_anchor_id(public_key@));
                }
            }
        }
        *self = DecentralizedPki { entries, anchors };
        Ok(copy)
    }

    /// Resolve an entity's entry and validate it at `now`: the validity window
    /// first, then the anchor's revocation status.
    pub fn resolve(&self, entity_id: &str, now: u64) -> (res: Result<&DpkiEntry, DpkiError>)
        ensures
            entries_anchored(self.entries_view(), self.anchors_view()),
            match res {
                Ok(e) => spec_resolve(self.entries_view(), self.anchors_view(), entity_id@, now)
                    == Ok::<DpkiEntryView, DpkiError>(e@),
                Err(err) => spec_resolve(self.entries_view(), self.anchors_view(), entity_id@, now)
                    == Err::<DpkiEntryView, DpkiError>(err),
            },
    {
        proof {
            use_type_invariant(self);
        }
        let entry = match self.entries.get(entity_id) {
            Some(e) => e,
            None => {
                return Err(DpkiError::NotFound);
            },
        };
        assert(self.entries_view().contains_key(entity_id@));
        match entry.is_valid_at(now) {
            Ok(()) => {},
            Err(e) => {
                return Err(e);
            },
        }
        match self.anchors.verify_anchor_by_id(entry.anchor_id.as_str()) {
            Ok(_) => Ok(entry),
            Err(e) => Err(DpkiError::AnchorError(e)),
        }
    }

    /// Revoke an entity's key binding by revoking its anchor.
    ///
    /// Fails with [`DpkiError::NotFound`] for an unknown entity.
    pub fn invalidate(&mut self, entity_id: &str) -> (res: Result<(), DpkiError>)
        ensures
            entries_anchored(final(self).entries_view(), final(self).anchors_view()),
            final(self).entries_view() == old(self).entries_view(),
            !old(self).entries_view().contains_key(entity_id@) ==> res == Err::<(), DpkiError>(
                DpkiError::NotFound,
            ) && final(self).anchors_view() == old(self).anchors_view(),
            old(self).entries_view().contains_key(entity_id@) ==> ({
                let aid = old(self).entries_view()[entity_id@].anchor_id;
                &&& res is Ok
                &&& final(self).anchors_view() == old(self).anchors_view().insert(
                    aid,
                    spec_revoked(old(self).anchors_view()[aid]),
                )
            }),
    {
        proof {
            use_type_invariant(&*self);
        }
        let anchor_id = match self.entries.get(entity_id) {
            Some(e) => e.anchor_id.clone(),
            None => {
                return Err(DpkiError::NotFound);
            },
        };
        proof {
            assert(self.entries_view().contains_key(entity_id@));
        }
        let mut taken = DecentralizedPki::new();
        std::mem::swap(&mut taken, self);
        let DecentralizedPki { entries, mut anchors } = taken;
        let ghost old_anchors = anchors@;
        match anchors.revoke(anchor_id.as_str(), entity_id) {
            Ok(()) => {},
            Err(e) => {
                *self = DecentralizedPki { entries, anchors };
                return Err(DpkiError::AnchorError(e));
            },
        }
        proof {
            let es = entries@;
            let an = anchors@;
            assert forall|e: Seq<char>| #[trigger] es.contains_key(e) implies an.contains_key(
                es[e].anchor_id,
            ) && an[es[e].anchor_id].owner_id == e by {
                assert(old_anchors.contains_key(es[e].anchor_id));
            }
        }
        *self = DecentralizedPki { entries, anchors };
        Ok(())
    }

    /// Number of registered entries (including invalidated ones).
    pub fn len(&self) -> (n: usize)
        ensures
            n == self.entries_view().dom().len(),
    {
        self.entries.len()
    }

    /// Returns `true` when no entries have been registered.
    pub fn is_empty(&self) -> (b: bool)
        ensures
            b == (self.entries_view().dom().len() == 0),
    {
        self.entries.len() == 0
    }
}

/// Registering a key and resolving the entity inside its validity window
/// gives the new entry back; after the entity is invalidated, resolving it
/// inside the window fails with the anchor's revocation.
pub proof fn lemma_register_resolve_invalidate(
    entries: Map<Seq<char>, DpkiEntryView>,
    anchors: Map<Seq<char>, KeyAnchorView>,
    entity: Seq<char>,
    public_key: Seq<u8>,
    valid_from: u64,
    valid_until: Option<u64>,
    timestamp: u64,
    now: u64,
)
    requires
        entries_anchored(entries, anchors),
        !entries.contains_key(entity),
        !anchors.contains_key(spec_anchor_id(public_key)),
        valid_from <= now,
        valid_until matches Some(u) ==> now <= u,
    ensures
        ({
            let entry = spec_new_entry(entity, public_key, valid_from, valid_until);
            let aid = spec_anchor_id(public_key);
            let es = entries.insert(entity, entry);
            let an = anchors.insert(aid, spec_new_anchor(public_key, entity, timestamp));
            let revoked = an.insert(aid, spec_revoked(an[aid]));
            &&& entries_anchored(es, an)
            &&& spec_resolve(es, an, entity, now) == Ok::<DpkiEntryView, DpkiError>(entry)
            &&& spec_resolve(es, revoked, entity, now) == Err::<DpkiEntryView, DpkiError>(
                DpkiError::AnchorError(KeyAnchorError::Revoked),
            )
        }),
{
    let entry = spec_new_entry(entity, public_key, valid_from, valid_until);
    let aid = spec_anchor_id(public_key);
    let es = entries.insert(entity, entry);
    let an = anchors.insert(aid, spec_new_anchor(public_key, entity, timestamp));
    assert forall|e: Seq<char>| #[trigger] es.contains_key(e) implies an.contains_key(es[e].anchor_id)
        && an[es[e].anchor_id].owner_id == e by {
        if e != entity {
            assert(entries.contains_key(e));
            assert(anchors.contains_key(entries[e].anchor_id));
        }
    }
}

/// Invalidating an entity affects that entity alone: afterwards it resolves
/// as revoked at every time inside its validity window, and every other
/// entity resolves exactly as before, at every time.
pub proof fn lemma_invalidate_affects_only_entity(
    entries: Map<Seq<char>, DpkiEntryView>,
    anchors: Map<Seq<char>, KeyAnchorView>,
    entity: Seq<char>,
)
    requires
        entries_anchored(entries, anchors),
        entries.contains_key(entity),
    ensures
        ({
            let aid = entries[entity].anchor_id;
            let revoked = anchors.insert(aid, spec_revoked(anchors[aid]));
            &&& entries_anchored(entries, revoked)
            &&& forall|now: u64| #[trigger] spec_time_check(entries[entity], now) is Ok ==> spec_resolve(entries, revoked, entity, now)
                == Err::<DpkiEntryView, DpkiError>(DpkiError::AnchorError(KeyAnchorError::Revoked))
            &&& forall|other: Seq<char>, now: u64| other != entity ==> #[trigger] spec_resolve(entries, revoked, other, now)
                == spec_resolve(entries, anchors, other, now)
        }),
{
    let aid = entries[entity].anchor_id;
    let revoked = anchors.insert(aid, spec_revoked(anchors[aid]));
    assert forall|e: Seq<char>| #[trigger] entries.contains_key(e) implies revoked.contains_key(entries[e].anchor_id)
        && revoked[entries[e].anchor_id].owner_id == e by {
        assert(anchors.contains_key(entries[e].anchor_id));
    }
    assert forall|other: Seq<char>, now: u64| other != entity implies #[trigger] spec_resolve(entries, revoked, other, now)
        == spec_resolve(entries, anchors, other, now) by {
        if entries.contains_key(other) {
            assert(anchors.contains_key(entries[other].anchor_id));
            assert(anchors[entries[other].anchor_id].owner_id == other);
            assert(anchors[aid].owner_id == entity);
            assert(entries[other].anchor_id != aid);
        }
    }
}

impl Default for DecentralizedPki {
    /// An empty registry.
    fn default() -> (d: Self)
        ensures
            d.entries_view() == Map::<Seq<char>, DpkiEntryView>::empty(),
            d.anchors_view() == Map::<Seq<char>, KeyAnchorView>::empty(),
    {
        DecentralizedPki::new()
    }
}

} // verus!
