//! Smart-contract anchor interface.
//!
//! [`SmartContractAnchor`] abstracts over a blockchain back-end;
//! [`SimulatedContractAnchor`] implements it in-process over an
//! [`AnchorRegistry`], with a simulated block height that grows by one on
//! every successful mutating call.
use vstd::prelude::*;

use crate::blockchain::key_anchor::{
    spec_anchor_id, spec_new_anchor, spec_revoked, AnchorRegistry, KeyAnchorError, KeyAnchorView,
};
use crate::util::{concat3, copy_str};

verus! {

/// Errors produced by smart-contract anchor operations.
#[derive(Debug, PartialEq, Eq)]
pub enum ContractError {
    SubmissionFailed { reason: String },
    VerificationFailed { reason: String },
    RevocationFailed { reason: String },
    AnchorError(KeyAnchorError),
}

/// Result of an on-chain anchor verification call.
#[derive(Debug, Clone, PartialEq, Eq)]
pub struct OnChainVerificationResult {
    /// Whether the anchor is considered valid on-chain.
    pub valid: bool,
    /// Block height at which the verification was performed.
    pub block_height: u64,
    /// Anchor ID that was verified.
    pub anchor_id: String,
}

/// Abstraction over a blockchain smart-contract anchor registry.
pub trait SmartContractAnchor {
    /// Submit a new key anchor; returns the assigned anchor identifier.
    fn submit_anchor(&mut self, public_key: &[u8], owner_id: &str, timestamp: u64) -> Result<
        String,
        ContractError,
    >;

    /// Verify whether an anchor is currently valid on-chain.
    fn verify_on_chain(&self, anchor_id: &str) -> Result<OnChainVerificationResult, ContractError>;

    /// Revoke an existing anchor on-chain.
    fn revoke_anchor(&mut self, anchor_id: &str, requesting_owner: &str) -> Result<
        (),
        ContractError,
    >;
}

/// In-process (simulated) smart-contract anchor backed by [`AnchorRegistry`].
#[derive(Debug, Clone)]
pub struct SimulatedContractAnchor {
    registry: AnchorRegistry,
    /// Simulated block height; grows by one on every successful mutating call.
    pub block_height: u64,
}

impl SimulatedContractAnchor {
    /// The anchors recorded on the simulated chain.
    pub closed spec fn registry_view(&self) -> Map<Seq<char>, KeyAnchorView> {
        self.registry@
    }

    /// The simulated block height.
    pub closed spec fn height(&self) -> u64 {
        self.block_height
    }

    /// Create a fresh simulated anchor with block height 0.
    pub fn new() -> (c: Self)
        ensures
            c.height() == 0,
            c.registry_view() == Map::<Seq<char>, KeyAnchorView>::empty(),
    {
        SimulatedContractAnchor { registry: AnchorRegistry::new(), block_height: 0 }
    }
}

/// The block height after one more successful mutating call.
pub open spec fn next_height(h: u64) -> u64 {
    if h == u64::MAX {
        h
    } else {
        (h + 1) as u64
    }
}

impl SmartContractAnchor for SimulatedContractAnchor {
    /// Registers the key in the simulated registry.  Registry errors come back
    /// as [`ContractError::AnchorError`] and leave the chain unchanged.
    fn submit_anchor(&mut self, public_key: &[u8], owner_id: &str, timestamp: u64) -> (res: Result<
        String,
        ContractError,
    >)
        ensures
            public_key@.len() == 0 ==> res == Err::<String, ContractError>(
                ContractError::AnchorError(KeyAnchorError::EmptyPublicKey),
            ),
            public_key@.len() != 0 && old(self).registry_view().contains_key(
                spec_anchor_id(public_key@),
            ) ==> res == Err::<String, ContractError>(
                ContractError::AnchorError(KeyAnchorError::AlreadyAnchored),
            ),
            res is Err ==> final(self).registry_view() == old(self).registry_view()
                && final(self).height() == old(self).height(),
            public_key@.len() != 0 && !old(self).registry_view().contains_key(
                spec_anchor_id(public_key@),
            ) ==> {
                &&& res is Ok
                &&& res->Ok_0@ == spec_anchor_id(public_key@)
                &&& final(self).registry_view() == old(self).registry_view().insert(
                    spec_anchor_id(public_key@),
                    spec_new_anchor(public_key@, owner_id@, timestamp),
                )
                &&& final(self).height() == next_height(old(self).height())
            },
    {
        match self.registry.register(public_key, owner_id, timestamp) {
            Ok(anchor) => {
                self.block_height = self.block_height.saturating_add(1);
                Ok(anchor.anchor_id)
            },
            Err(e) => Err(ContractError::AnchorError(e)),
        }
    }

    /// Reports whether the anchor is unrevoked, with the current block height.
    /// An unknown identifier fails with [`ContractError::VerificationFailed`]
    /// and the reason `anchor <id> not found`.
    fn verify_on_chain(&self, anchor_id: &str) -> (res: Result<
        OnChainVerificationResult,
        ContractError,
    >)
        ensures
            !self.registry_view().contains_key(anchor_id@) ==> (res matches Err(
                ContractError::VerificationFailed { reason },
            ) && reason@ == "anchor "@ + anchor_id@ + " not found"@),
            self.registry_view().contains_key(anchor_id@) ==> {
                &&& res is Ok
                &&& res->Ok_0.valid == !self.registry_view()[anchor_id@].revoked
                &&& res->Ok_0.block_height == self.height()
                &&& res->Ok_0.anchor_id@ == anchor_id@
            },
    {
        match self.registry.lookup(anchor_id) {
            None => Err(
                ContractError::VerificationFailed { reason: concat3("anchor ", anchor_id, " not found") },
            ),
            Some(anchor) => Ok(
                OnChainVerificationResult {
                    valid: !anchor.revoked,
                    block_height: self.block_height,
                    anchor_id: copy_str(anchor_id),
                },
            ),
        }
    }

    /// Revokes the anchor in the simulated registry; registry errors come back
    /// as [`ContractError::AnchorError`] and leave the chain unchanged.
    fn revoke_anchor(&mut self, anchor_id: &str, requesting_owner: &str) -> (res: Result<
        (),
        ContractError,
    >)
        ensures
            !old(self).registry_view().contains_key(anchor_id@) ==> res == Err::<(), ContractError>(
                ContractError::AnchorError(KeyAnchorError::NotFound),
            ),
            old(self).registry_view().contains_key(anchor_id@)
                && old(self).registry_view()[anchor_id@].owner_id != requesting_owner@ ==> (res matches Err(
                ContractError::AnchorError(KeyAnchorError::OwnerMismatch { expected, got }),
            ) && expected@ == old(self).registry_view()[anchor_id@].owner_id && got@
                == requesting_owner@),
            res is Err ==> final(self).registry_view() == old(self).registry_view()
                && final(self).height() == old(self).height(),
            old(self).registry_view().contains_key(anchor_id@)
                && old(self).registry_view()[anchor_id@].owner_id == requesting_owner@ ==> {
                &&& res is Ok
                &&& final(self).registry_view() == old(self).registry_view().insert(
                    anchor_id@,
                    spec_revoked(old(self).registry_view()[anchor_id@]),
                )
                &&& final(self).height() == next_height(old(self).height())
            },
    {
        match self.registry.revoke(anchor_id, requesting_owner) {
            Ok(()) => {
                self.block_height = self.block_height.saturating_add(1);
                Ok(())
            },
            Err(e) => Err(ContractError::AnchorError(e)),
        }
    }
}

impl Default for SimulatedContractAnchor {
    /// A fresh chain at block height 0.
    fn default() -> (c: Self)
        ensures
            c.height() == 0,
            c.registry_view() == Map::<Seq<char>, KeyAnchorView>::empty(),
    {
        SimulatedContractAnchor::new()
    }
}

} // verus!
