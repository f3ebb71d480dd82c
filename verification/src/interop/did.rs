//! W3C DID Core document facade: a DID subject with `JsonWebKey2020`
//! verification methods and the relationships (`authentication`,
//! `assertionMethod`, `keyAgreement`) that reference them.
use vstd::prelude::*;

use super::jwk::{PqcJwk, PqcJwkView};
use crate::util::{copy_str, lemma_filter_take_step, str_eq};

verus! {

/// Errors of DID document operations.
#[derive(Debug, Clone, PartialEq, Eq)]
pub enum DidError {
    /// A method with this id already exists.
    DuplicateVerificationMethod(String),
    /// No method with this id exists.
    VerificationMethodNotFound(String),
    /// The DID is empty.
    EmptyDid,
    /// The method id is empty.
    EmptyMethodId,
}

/// Verification relationships of DID Core.
#[derive(Debug, Clone, Copy, PartialEq, Eq, Structural)]
pub enum VerificationRelationship {
    Authentication,
    AssertionMethod,
    KeyAgreement,
    CapabilityInvocation,
    CapabilityDelegation,
}

/// A `JsonWebKey2020` verification method.
#[derive(Debug, Clone, PartialEq, Eq)]
pub struct VerificationMethod {
    /// Fragment identifier, e.g. `did:example:alice#key-1`.
    pub id: String,
    /// Method type, `JsonWebKey2020`.
    pub method_type: String,
    /// DID of the controller.
    pub controller: String,
    /// The embedded key.
    pub public_key_jwk: PqcJwk,
}

/// Mathematical view of a [`VerificationMethod`].
pub struct VerificationMethodView {
    pub id: Seq<char>,
    pub method_type: Seq<char>,
    pub controller: Seq<char>,
    pub public_key_jwk: PqcJwkView,
}

impl View for VerificationMethod {
    type V = VerificationMethodView;

    open spec fn view(&self) -> VerificationMethodView {
        VerificationMethodView {
            id: self.id@,
            method_type: self.method_type@,
            controller: self.controller@,
            public_key_jwk: self.public_key_jwk@,
        }
    }
}

impl VerificationMethod {
    /// A `JsonWebKey2020` method with `id`, `controller` and `jwk`.
    pub fn new(id: &str, controller: &str, jwk: PqcJwk) -> (m: Self)
        ensures
            m.id@ == id@,
            m.method_type@ == "JsonWebKey2020"@,
            m.controller@ == controller@,
            m.public_key_jwk == jwk,
    {
        VerificationMethod {
            id: copy_str(id),
            method_type: copy_str("JsonWebKey2020"),
            controller: copy_str(controller),
            public_key_jwk: jwk,
        }
    }
}

/// A DID Core document.
#[derive(Debug, Clone)]
pub struct DidDocument {
    /// JSON-LD contexts.
    pub context: Vec<String>,
    /// DID subject.
    pub id: String,
    /// Verification methods in insertion order.
    pub verification_methods: Vec<VerificationMethod>,
    /// Authentication references.
    pub authentication: Vec<String>,
    /// Assertion method references.
    pub assertion_method: Vec<String>,
    /// Key agreement references.
    pub key_agreement: Vec<String>,
}

/// The method ids of a document.
pub open spec fn method_ids(methods: Seq<VerificationMethod>) -> Seq<Seq<char>> {
    methods.map_values(|m: VerificationMethod| m.id@)
}

/// The views of a list of strings.
pub open spec fn ids_view(v: Seq<String>) -> Seq<Seq<char>> {
    v.map_values(|s: String| s@)
}

/// The references a relationship list gains when a method joins it.
pub open spec fn refs_added(
    rels: Seq<VerificationRelationship>,
    target: VerificationRelationship,
    id: Seq<char>,
) -> Seq<Seq<char>>
    decreases rels.len(),
{
    if rels.len() == 0 {
        Seq::empty()
    } else {
        refs_added(rels.drop_last(), target, id) + if rels.last() == target {
            seq![id]
        } else {
            Seq::empty()
        }
    }
}

/// The list without the references to `id`.
pub open spec fn without_id(v: Seq<Seq<char>>, id: Seq<char>) -> Seq<Seq<char>> {
    v.filter(|x: Seq<char>| x != id)
}

impl DidDocument {
    /// A document for `did` with the DID Core and JsonWebKey2020 contexts and
    /// no methods.  Fails with `EmptyDid` on an empty DID.
    pub fn new(did: &str) -> (res: Result<Self, DidError>)
        ensures
            did@.len() == 0 ==> res == Err::<DidDocument, DidError>(DidError::EmptyDid),
            did@.len() > 0 ==> (res matches Ok(d) && {
                &&& d.id@ == did@
                &&& ids_view(d.context@) == seq![
                    "https://www.w3.org/ns/did/v1"@,
                    "https://w3id.org/security/suites/jws-2020/v1"@,
                ]
                &&& d.verification_methods@.len() == 0
                &&& d.authentication@.len() == 0
                &&& d.assertion_method@.len() == 0
                &&& d.key_agreement@.len() == 0
            }),
    {
        if did.is_empty() {
            return Err(DidError::EmptyDid);
        }
        let mut context: Vec<String> = Vec::new();
        context.push(copy_str("https://www.w3.org/ns/did/v1"));
        context.push(copy_str("https://w3id.org/security/suites/jws-2020/v1"));
        let d = DidDocument {
            context,
            id: copy_str(did),
            verification_methods: Vec::new(),
            authentication: Vec::new(),
            assertion_method: Vec::new(),
            key_agreement: Vec::new(),
        };
        assert(ids_view(d.context@) =~= seq![
            "https://www.w3.org/ns/did/v1"@,
            "https://w3id.org/security/suites/jws-2020/v1"@,
        ]);
        Ok(d)
    }

    fn find_method(&self, method_id: &str) -> (r: Option<usize>)
        ensures
            r is None <==> !method_ids(self.verification_methods@).contains(method_id@),
            r matches Some(i) ==> i < self.verification_methods@.len() && self.verification_methods@[i as int].id@
                == method_id@ && forall|j: int| 0 <= j < i ==> #[trigger] self.verification_methods@[j].id@ != method_id@,
    {
        let mut i: usize = 0;
        while i < self.verification_methods.len()
            invariant
                0 <= i <= self.verification_methods@.len(),
                forall|j: int| 0 <= j < i ==> #[trigger] self.verification_methods@[j].id@ != method_id@,
            decreases self.verification_methods@.len() - i,
        {
            if str_eq(self.verification_methods[i].id.as_str(), method_id) {
                assert(method_ids(self.verification_methods@)[i as int] == method_id@);
                return Some(i);
            }
            i = i + 1;
        }
        assert(!method_ids(self.verification_methods@).contains(method_id@)) by {
            if method_ids(self.verification_methods@).contains(method_id@) {
                let k = choose|k: int|
                    0 <= k < method_ids(self.verification_methods@).len() && method_ids(
                        self.verification_methods@,
                    )[k] == method_id@;
                assert(self.verification_methods@[k].id@ == method_id@);
            }
        }
        None
    }

    /// Add a verification method that joins the given relationships.
    ///
    /// Fails with `EmptyMethodId` on an empty id and with
    /// `DuplicateVerificationMethod` when a method with the same id exists;
    /// the document is then unchanged.
    pub fn add_verification_method(
        &mut self,
        method: VerificationMethod,
        relationships: &[VerificationRelationship],
    ) -> (res: Result<(), DidError>)
        ensures
            method.id@.len() == 0 ==> res == Err::<(), DidError>(DidError::EmptyMethodId) && *final(self) == *old(self),
            method.id@.len() > 0 && method_ids(old(self).verification_methods@).contains(method.id@) ==> (res matches Err(
                DidError::DuplicateVerificationMethod(m),
            ) && m@ == method.id@) && *final(self) == *old(self),
            method.id@.len() > 0 && !method_ids(old(self).verification_methods@).contains(method.id@) ==> {
                &&& res is Ok
                &&& final(self).verification_methods@ == old(self).verification_methods@.push(method)
                &&& ids_view(final(self).authentication@) == ids_view(old(self).authentication@) + refs_added(
                    relationships@,
                    VerificationRelationship::Authentication,
                    method.id@,
                )
                &&& ids_view(final(self).assertion_method@) == ids_view(old(self).assertion_method@) + refs_added(
                    relationships@,
                    VerificationRelationship::AssertionMethod,
                    method.id@,
                )
                &&& ids_view(final(self).key_agreement@) == ids_view(old(self).key_agreement@) + refs_added(
                    relationships@,
                    VerificationRelationship::KeyAgreement,
                    method.id@,
                )
                &&& final(self).id == old(self).id
                &&& final(self).context == old(self).context
            },
    {
        if method.id.as_str().is_empty() {
            return Err(DidError::EmptyMethodId);
        }
        if self.find_method(method.id.as_str()).is_some() {
            return Err(DidError::DuplicateVerificationMethod(copy_str(method.id.as_str())));
        }
        let method_id = copy_str(method.id.as_str());
        self.verification_methods.push(method);
        let ghost auth0 = ids_view(self.authentication@);
        let ghost assert0 = ids_view(self.assertion_method@);
        let ghost key0 = ids_view(self.key_agreement@);
        let mut i: usize = 0;
        while i < relationships.len()
            invariant
                0 <= i <= relationships@.len(),
                ids_view(self.authentication@) == auth0 + refs_added(
                    relationships@.take(i as int),
                    VerificationRelationship::Authentication,
                    method_id@,
                ),
                ids_view(self.assertion_method@) == assert0 + refs_added(
                    relationships@.take(i as int),
                    VerificationRelationship::AssertionMethod,
                    method_id@,
                ),
                ids_view(self.key_agreement@) == key0 + refs_added(
                    relationships@.take(i as int),
                    VerificationRelationship::KeyAgreement,
                    method_id@,
                ),
                self.verification_methods@ == old(self).verification_methods@.push(method),
                self.id == old(self).id,
                self.context == old(self).context,
                method_id@ == method.id@,
            decreases relationships@.len() - i,
        {
            let rel = relationships[i];
            let ghost before_auth = ids_view(self.authentication@);
            let ghost before_assert = ids_view(self.assertion_method@);
            let ghost before_key = ids_view(self.key_agreement@);
            proof {
                let t = relationships@.take(i + 1);
                assert(t.drop_last() =~= relationships@.take(i as int));
                assert(t.last() == rel);
                assert(refs_added(t, VerificationRelationship::Authentication, method_id@) == refs_added(
                    relationships@.take(i as int),
                    VerificationRelationship::Authentication,
                    method_id@,
                ) + if rel == VerificationRelationship::Authentication {
                    seq![method_id@]
                } else {
                    Seq::empty()
                });
                assert(refs_added(t, VerificationRelationship::AssertionMethod, method_id@) == refs_added(
                    relationships@.take(i as int),
                    VerificationRelationship::AssertionMethod,
                    method_id@,
                ) + if rel == VerificationRelationship::AssertionMethod {
                    seq![method_id@]
                } else {
                    Seq::empty()
                });
                assert(refs_added(t, VerificationRelationship::KeyAgreement, method_id@) == refs_added(
                    relationships@.take(i as int),
                    VerificationRelationship::KeyAgreement,
                    method_id@,
                ) + if rel == VerificationRelationship::KeyAgreement {
                    seq![method_id@]
                } else {
                    Seq::empty()
                });
            }
            match rel {
                VerificationRelationship::Authentication => {
                    self.authentication.push(copy_str(method_id.as_str()));
                },
                VerificationRelationship::AssertionMethod => {
                    self.assertion_method.push(copy_str(method_id.as_str()));
                },
                VerificationRelationship::KeyAgreement => {
                    self.key_agreement.push(copy_str(method_id.as_str()));
                },
                VerificationRelationship::CapabilityInvocation | VerificationRelationship::CapabilityDelegation => {},
            }
            proof {
                if rel == VerificationRelationship::Authentication {
                    assert(ids_view(self.authentication@) =~= before_auth.push(method_id@));
                } else {
                    assert(ids_view(self.authentication@) =~= before_auth);
                }
                if rel == VerificationRelationship::AssertionMethod {
                    assert(ids_view(self.assertion_method@) =~= before_assert.push(method_id@));
                } else {
                    assert(ids_view(self.assertion_method@) =~= before_assert);
                }
                if rel == VerificationRelationship::KeyAgreement {
                    assert(ids_view(self.key_agreement@) =~= before_key.push(method_id@));
                } else {
                    assert(ids_view(self.key_agreement@) =~= before_key);
                }
            }
            i = i + 1;
            proof {
                assert(ids_view(self.authentication@) =~= auth0 + refs_added(
                    relationships@.take(i as int),
                    VerificationRelationship::Authentication,
                    method_id@,
                ));
                assert(ids_view(self.assertion_method@) =~= assert0 + refs_added(
                    relationships@.take(i as int),
                    VerificationRelationship::AssertionMethod,
                    method_id@,
                ));
                assert(ids_view(self.key_agreement@) =~= key0 + refs_added(
                    relationships@.take(i as int),
                    VerificationRelationship::KeyAgreement,
                    method_id@,
                ));
            }
        }
        assert(relationships@.take(i as int) =~= relationships@);
        Ok(())
    }

    /// The first method with `method_id`.  Fails with
    /// `VerificationMethodNotFound` when there is none.
    pub fn get_method(&self, method_id: &str) -> (res: Result<&VerificationMethod, DidError>)
        ensures
            !method_ids(self.verification_methods@).contains(method_id@) ==> (res matches Err(
                DidError::VerificationMethodNotFound(m),
            ) && m@ == method_id@),
            method_ids(self.verification_methods@).contains(method_id@) ==> (res matches Ok(m) && m.id@ == method_id@
                && exists|i: int|
                0 <= i < self.verification_methods@.len() && self.verification_methods@[i] == *m && forall|j: int|
                    0 <= j < i ==> #[trigger] self.verification_methods@[j].id@ != method_id@),
    {
        match self.find_method(method_id) {
            Some(i) => Ok(&self.verification_methods[i]),
            None => Err(DidError::VerificationMethodNotFound(copy_str(method_id))),
        }
    }

    /// Remove every method with `method_id` and every relationship
    /// reference to it.  Fails with `VerificationMethodNotFound` when there is
    /// no such method; the document is then unchanged.
    pub fn remove_method(&mut self, method_id: &str) -> (res: Result<(), DidError>)
        ensures
            !method_ids(old(self).verification_methods@).contains(method_id@) ==> (res matches Err(
                DidError::VerificationMethodNotFound(m),
            ) && m@ == method_id@) && *final(self) == *old(self),
            method_ids(old(self).verification_methods@).contains(method_id@) ==> {
                &&& res is Ok
                &&& final(self).verification_methods@ == old(self).verification_methods@.filter(
                    |m: VerificationMethod| m.id@ != method_id@,
                )
                &&& ids_view(final(self).authentication@) == without_id(ids_view(old(self).authentication@), method_id@)
                &&& ids_view(final(self).assertion_method@) == without_id(
                    ids_view(old(self).assertion_method@),
                    method_id@,
                )
                &&& ids_view(final(self).key_agreement@) == without_id(ids_view(old(self).key_agreement@), method_id@)
                &&& final(self).id == old(self).id
                &&& final(self).context == old(self).context
            },
    {
        if self.find_method(method_id).is_none() {
            return Err(DidError::VerificationMethodNotFound(copy_str(method_id)));
        }
        let mut kept: Vec<VerificationMethod> = Vec::new();
        let mut old_methods: Vec<VerificationMethod> = Vec::new();
        std::mem::swap(&mut old_methods, &mut self.verification_methods);
        let ghost pred = |m: VerificationMethod| m.id@ != method_id@;
        let ghost src = old_methods@;
        let mut rest = old_methods;
        let ghost mut taken: Seq<VerificationMethod> = Seq::empty();
        while rest.len() > 0
            invariant
                src == taken + rest@,
                kept@ == taken.filter(pred),
                pred == (|m: VerificationMethod| m.id@ != method_id@),
            decreases rest@.len(),
        {
            let m = rest.remove(0);
            let keep = !str_eq(m.id.as_str(), method_id);
            proof {
                let t2 = taken.push(m);
                lemma_filter_take_step(t2, taken.len() as int, pred);
                assert(t2.take(taken.len() as int) =~= taken);
                assert(t2.take(taken.len() as int + 1) =~= t2);
                taken = t2;
            }
            if keep {
                kept.push(m);
            }
        }
        assert(taken =~= src);
        self.verification_methods = kept;
        retain_other_ids(&mut self.authentication, method_id);
        retain_other_ids(&mut self.assertion_method, method_id);
        retain_other_ids(&mut self.key_agreement, method_id);
        Ok(())
    }
}

/// Keep only the references different from `id`.
fn retain_other_ids(v: &mut Vec<String>, id: &str)
    ensures
        ids_view(final(v)@) == without_id(ids_view(old(v)@), id@),
{
    let ghost pred = |x: Seq<char>| x != id@;
    let ghost src = ids_view(v@);
    let mut kept: Vec<String> = Vec::new();
    let mut i: usize = 0;
    while i < v.len()
        invariant
            0 <= i <= v@.len(),
            v@ == old(v)@,
            src == ids_view(v@),
            ids_view(kept@) == src.take(i as int).filter(pred),
            pred == (|x: Seq<char>| x != id@),
        decreases v@.len() - i,
    {
        proof {
            lemma_filter_take_step(src, i as int, pred);
            assert(src[i as int] == v@[i as int]@);
        }
        if !str_eq(v[i].as_str(), id) {
            let ghost before = ids_view(kept@);
            kept.push(copy_str(v[i].as_str()));
            assert(ids_view(kept@) =~= before.push(src[i as int]));
        }
        i = i + 1;
    }
    assert(src.take(i as int) =~= src);
    *v = kept;
}

/// A method added under a fresh id is the one that `get_method` finds by that
/// id: no earlier method carries the id.
pub proof fn lemma_added_method_found(methods: Seq<VerificationMethod>, m: VerificationMethod)
    requires
        !method_ids(methods).contains(m.id@),
    ensures
        method_ids(methods.push(m)).contains(m.id@),
        methods.push(m)[methods.len() as int] == m,
        forall|j: int| 0 <= j < methods.len() ==> #[trigger] methods.push(m)[j].id@ != m.id@,
{
    assert(method_ids(methods.push(m))[methods.len() as int] == m.id@);
    assert forall|j: int| 0 <= j < methods.len() implies #[trigger] methods.push(m)[j].id@ != m.id@ by {
        assert(method_ids(methods)[j] == methods[j].id@);
    }
}

/// After `remove_method(id)` no method and no relationship carries the id,
/// so `get_method(id)` then fails with `VerificationMethodNotFound`.
pub proof fn lemma_removed_method_absent(methods: Seq<VerificationMethod>, refs: Seq<Seq<char>>, id: Seq<char>)
    ensures
        !method_ids(methods.filter(|m: VerificationMethod| m.id@ != id)).contains(id),
        !without_id(refs, id).contains(id),
{
    let pm = |m: VerificationMethod| m.id@ != id;
    let kept = methods.filter(pm);
    if method_ids(kept).contains(id) {
        let k = choose|k: int| 0 <= k < method_ids(kept).len() && method_ids(kept)[k] == id;
        methods.lemma_filter_pred(pm, k);
        assert(kept[k].id@ == id);
    }
    let pr = |x: Seq<char>| x != id;
    let kr = refs.filter(pr);
    if kr.contains(id) {
        let k = choose|k: int| 0 <= k < kr.len() && kr[k] == id;
        refs.lemma_filter_pred(pr, k);
    }
}

} // verus!
