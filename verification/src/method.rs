//! Verification methods: a named key, or a named collection of keys behind
//! one Merkle root, and the purposes a method can serve.

use vstd::prelude::*;
use vstd::string::*;
use crate::bytes::{
    bytes_eq, copy_bytes, decimal, hex, json_string, push_decimal, push_hex, push_json_string,
    push_text,
};
use crate::codec::ToJson;
use crate::collection::{revoke_marks, revoke_outcome, MerkleKeyCollection, Revocation};
use crate::ed25519::KeyPair;
use crate::error::Error;
use crate::inclusion::DIGEST_SHA256;

verus! {

/// The purpose that a method serves in a document.
#[derive(Clone, Copy, Debug, PartialEq, Eq, Structural)]
pub enum MethodScope {
    VerificationMethod,
    Authentication,
    AssertionMethod,
    KeyAgreement,
    CapabilityDelegation,
    CapabilityInvocation,
}

/// The name of a scope, as bytes.
pub open spec fn scope_text(scope: MethodScope) -> Seq<u8> {
    match scope {
        MethodScope::VerificationMethod => "VerificationMethod".spec_bytes(),
        MethodScope::Authentication => "Authentication".spec_bytes(),
        MethodScope::AssertionMethod => "AssertionMethod".spec_bytes(),
        MethodScope::KeyAgreement => "KeyAgreement".spec_bytes(),
        MethodScope::CapabilityDelegation => "CapabilityDelegation".spec_bytes(),
        MethodScope::CapabilityInvocation => "CapabilityInvocation".spec_bytes(),
    }
}

/// The scope that a name stands for: the first scope, in the order of the
/// enumeration, whose name it is; `InvalidScope` where it is no scope's name.
pub open spec fn parsed_scope(name: Seq<u8>) -> Result<MethodScope, Error> {
    if name == scope_text(MethodScope::VerificationMethod) {
        Ok(MethodScope::VerificationMethod)
    } else if name == scope_text(MethodScope::Authentication) {
        Ok(MethodScope::Authentication)
    } else if name == scope_text(MethodScope::AssertionMethod) {
        Ok(MethodScope::AssertionMethod)
    } else if name == scope_text(MethodScope::KeyAgreement) {
        Ok(MethodScope::KeyAgreement)
    } else if name == scope_text(MethodScope::CapabilityDelegation) {
        Ok(MethodScope::CapabilityDelegation)
    } else if name == scope_text(MethodScope::CapabilityInvocation) {
        Ok(MethodScope::CapabilityInvocation)
    } else {
        Err(Error::InvalidScope)
    }
}

impl MethodScope {
    /// The scope's name.
    pub fn name(&self) -> (text: &'static str)
        ensures
            text.spec_bytes() == scope_text(*self),
    {
        match self {
            MethodScope::VerificationMethod => "VerificationMethod",
            MethodScope::Authentication => "Authentication",
            MethodScope::AssertionMethod => "AssertionMethod",
            MethodScope::KeyAgreement => "KeyAgreement",
            MethodScope::CapabilityDelegation => "CapabilityDelegation",
            MethodScope::CapabilityInvocation => "CapabilityInvocation",
        }
    }

    /// Reads a scope from its name.
    pub fn parse(name: &[u8]) -> (scope: Result<MethodScope, Error>)
        ensures
            scope == parsed_scope(name@),
    {
        if bytes_eq(name, "VerificationMethod".as_bytes()) {
            Ok(MethodScope::VerificationMethod)
        } else if bytes_eq(name, "Authentication".as_bytes()) {
            Ok(MethodScope::Authentication)
        } else if bytes_eq(name, "AssertionMethod".as_bytes()) {
            Ok(MethodScope::AssertionMethod)
        } else if bytes_eq(name, "KeyAgreement".as_bytes()) {
            Ok(MethodScope::KeyAgreement)
        } else if bytes_eq(name, "CapabilityDelegation".as_bytes()) {
            Ok(MethodScope::CapabilityDelegation)
        } else if bytes_eq(name, "CapabilityInvocation".as_bytes()) {
            Ok(MethodScope::CapabilityInvocation)
        } else {
            Err(Error::InvalidScope)
        }
    }
}

impl Default for MethodScope {
    /// The scope in which a query by fragment is looked up.
    fn default() -> (scope: MethodScope)
        ensures
            scope == default_scope(),
    {
        MethodScope::Authentication
    }
}

/// The scope in which a query by fragment is looked up: authentication.
pub open spec fn default_scope() -> MethodScope {
    MethodScope::Authentication
}

/// The key material of a method.
pub enum KeyData {
    /// One raw public key.
    PublicKey { key: Vec<u8> },
    /// The descriptor of a Merkle key collection.
    Collection { digest_tag: u8, root: Vec<u8> },
}

/// The mathematical value of a `KeyData`.
pub enum KeyDataView {
    PublicKey { key: Seq<u8> },
    Collection { digest_tag: u8, root: Seq<u8> },
}

impl View for KeyData {
    type V = KeyDataView;

    open spec fn view(&self) -> KeyDataView {
        match self {
            KeyData::PublicKey { key } => KeyDataView::PublicKey { key: key@ },
            KeyData::Collection { digest_tag, root } => KeyDataView::Collection {
                digest_tag: *digest_tag,
                root: root@,
            },
        }
    }
}

impl KeyData {
    /// A copy of the key material.
    pub fn duplicate(&self) -> (k: KeyData)
        ensures
            k@ == self@,
    {
        match self {
            KeyData::PublicKey { key } => KeyData::PublicKey { key: copy_bytes(key.as_slice()) },
            KeyData::Collection { digest_tag, root } => KeyData::Collection {
                digest_tag: *digest_tag,
                root: copy_bytes(root.as_slice()),
            },
        }
    }

    /// Whether two key materials are the same.
    pub fn same(&self, other: &KeyData) -> (same: bool)
        ensures
            same == (self@ == other@),
    {
        match (self, other) {
            (KeyData::PublicKey { key: a }, KeyData::PublicKey { key: b }) => bytes_eq(
                a.as_slice(),
                b.as_slice(),
            ),
            (
                KeyData::Collection { digest_tag: ta, root: ra },
                KeyData::Collection { digest_tag: tb, root: rb },
            ) => *ta == *tb && bytes_eq(ra.as_slice(), rb.as_slice()),
            _ => false,
        }
    }
}

/// The mathematical value of a verification method.
pub struct MethodView {
    /// The fragment that names the method inside its document.
    pub fragment: Seq<u8>,
    /// The key material.
    pub key_data: KeyDataView,
    /// The revocation marks of a collection's leaves; empty for one key.
    pub marks: Seq<bool>,
}

/// A verification method.
pub struct VerificationMethod {
    fragment: Vec<u8>,
    key_data: KeyData,
    revocation: Revocation,
}

impl View for VerificationMethod {
    type V = MethodView;

    closed spec fn view(&self) -> MethodView {
        MethodView {
            fragment: self.fragment@,
            key_data: self.key_data@,
            marks: self.revocation@,
        }
    }
}

/// What revoking leaf `leaf` of a method answers: for a collection, whether
/// the leaf was still valid, or `InvalidKeyIndex` where it has no such
/// leaf; for a method over one key, `InvalidKeyIndex`.
pub open spec fn leaf_revoked(m: MethodView, leaf: int) -> Result<bool, Error> {
    if m.key_data is Collection {
        revoke_outcome(m.marks, leaf)
    } else {
        Err(Error::InvalidKeyIndex)
    }
}

/// The method after revoking leaf `leaf`: a collection with that leaf
/// marked; any other method, and any method without such a leaf, unchanged.
pub open spec fn after_revoking(m: MethodView, leaf: int) -> MethodView {
    if m.key_data is Collection {
        MethodView { marks: revoke_marks(m.marks, leaf), ..m }
    } else {
        m
    }
}

/// The text of the revocation marks: `1` for a revoked leaf, else `0`.
pub open spec fn marks_text(marks: Seq<bool>) -> Seq<u8> {
    Seq::new(
        marks.len(),
        |i: int|
            if marks[i] {
                49u8
            } else {
                48u8
            },
    )
}

/// The marks that a text of `0` and `1` stands for.
pub open spec fn marks_of(text: Seq<u8>) -> Option<Seq<bool>> {
    if forall|i: int| 0 <= i < text.len() ==> #[trigger] text[i] == 48 || text[i] == 49 {
        Some(Seq::new(text.len(), |i: int| text[i] == 49))
    } else {
        None
    }
}

/// Reading the text of marks gives the marks back.
pub proof fn lemma_marks_of_text(marks: Seq<bool>)
    ensures
        marks_of(marks_text(marks)) == Some(marks),
{
    assert(marks_of(marks_text(marks)).unwrap() =~= marks);
}

/// Reads revocation marks from their text; see `marks_of`.
pub fn marks_from_text(text: &[u8]) -> (r: Option<Revocation>)
    ensures
        match r {
            Some(marks) => marks_of(text@) == Some(marks@),
            None => marks_of(text@) is None,
        },
{
    let mut marks: Vec<bool> = Vec::new();
    let mut i: usize = 0;
    while i < text.len()
        invariant
            i <= text.len(),
            marks@.len() == i,
            forall|k: int| 0 <= k < i ==> #[trigger] text@[k] == 48 || text@[k] == 49,
            forall|k: int| 0 <= k < i ==> marks@[k] == (text@[k] == 49),
        decreases text.len() - i,
    {
        let c: u8 = text[i];
        if c != 48 && c != 49 {
            return None;
        }
        marks.push(c == 49);
        i += 1;
    }
    assert(marks@ =~= marks_of(text@).unwrap());
    Some(Revocation::from_marks(marks))
}

/// The JSON text of key material.
pub open spec fn key_data_json(key_data: KeyDataView, marks: Seq<bool>) -> Seq<u8> {
    match key_data {
        KeyDataView::PublicKey { key } => "\"type\":\"Ed25519VerificationKey2018\",\"publicKeyHex\":\"".spec_bytes()
            + hex(key) + "\"".spec_bytes(),
        KeyDataView::Collection { digest_tag, root } =>
            "\"type\":\"MerkleKeyCollection2021\",\"digest\":".spec_bytes() + decimal(
                digest_tag as nat,
            ) + ",\"rootHex\":\"".spec_bytes() + hex(root) + "\",\"revoked\":\"".spec_bytes()
                + marks_text(marks) + "\"".spec_bytes(),
    }
}

/// The JSON text of a method.
pub open spec fn method_json(m: MethodView) -> Seq<u8> {
    "{\"fragment\":".spec_bytes() + json_string(m.fragment) + ",".spec_bytes() + key_data_json(
        m.key_data,
        m.marks,
    ) + "}".spec_bytes()
}

/// The fragment of a method made from a key pair without a tag.
pub open spec fn default_fragment() -> Seq<u8> {
    "authentication".spec_bytes()
}

fn push_marks(out: &mut Vec<u8>, marks: &Revocation)
    ensures
        final(out)@ == old(out)@ + marks_text(marks@),
{
    let mut i: usize = 0;
    let n: usize = marks.len();
    assert(old(out)@ + marks_text(marks@).take(0) =~= old(out)@);
    while i < n
        invariant
            i <= n,
            n == marks@.len(),
            out@ == old(out)@ + marks_text(marks@).take(i as int),
        decreases n - i,
    {
        out.push(if marks.is_revoked(i) {
            49
        } else {
            48
        });
        assert(out@ =~= old(out)@ + marks_text(marks@).take(i + 1));
        i += 1;
    }
    assert(marks_text(marks@).take(n as int) =~= marks_text(marks@));
}

impl VerificationMethod {
    /// The method with the given parts.
    pub fn from_parts(fragment: Vec<u8>, key_data: KeyData, revocation: Revocation) -> (m:
        VerificationMethod)
        ensures
            m@ == (MethodView { fragment: fragment@, key_data: key_data@, marks: revocation@ }),
    {
        VerificationMethod { fragment, key_data, revocation }
    }

    /// A method over one public key.
    pub fn from_public_key(fragment: &[u8], key: &[u8]) -> (m: VerificationMethod)
        ensures
            m@ == (MethodView {
                fragment: fragment@,
                key_data: KeyDataView::PublicKey { key: key@ },
                marks: Seq::empty(),
            }),
    {
        let revocation: Revocation = Revocation::new(0);
        assert(revocation@ =~= Seq::empty());
        VerificationMethod {
            fragment: copy_bytes(fragment),
            key_data: KeyData::PublicKey { key: copy_bytes(key) },
            revocation,
        }
    }

    /// A method over the public key of a pair, named by `tag`, or
    /// `authentication` where there is none.
    pub fn from_keypair(pair: &KeyPair, tag: Option<&[u8]>) -> (m: VerificationMethod)
        ensures
            m@ == (MethodView {
                fragment: match tag {
                    Some(t) => t@,
                    None => default_fragment(),
                },
                key_data: KeyDataView::PublicKey { key: pair.public_bytes() },
                marks: Seq::empty(),
            }),
    {
        match tag {
            Some(t) => Self::from_public_key(t, pair.public()),
            None => Self::from_public_key("authentication".as_bytes(), pair.public()),
        }
    }

    /// A method over a key collection: it holds the collection's root, the
    /// tag of SHA-256, and the collection's revocation marks as they are now.
    pub fn from_collection(fragment: &[u8], collection: &MerkleKeyCollection) -> (m:
        VerificationMethod)
        ensures
            m@ == (MethodView {
                fragment: fragment@,
                key_data: KeyDataView::Collection {
                    digest_tag: DIGEST_SHA256,
                    root: collection.root_digest(),
                },
                marks: collection.marks(),
            }),
    {
        VerificationMethod {
            fragment: copy_bytes(fragment),
            key_data: KeyData::Collection {
                digest_tag: DIGEST_SHA256,
                root: copy_bytes(collection.root()),
            },
            revocation: collection.revocation(),
        }
    }

    /// The fragment.
    pub fn fragment(&self) -> (fragment: &[u8])
        ensures
            fragment@ == self@.fragment,
    {
        self.fragment.as_slice()
    }

    /// The key material.
    pub fn key_data(&self) -> (key_data: &KeyData)
        ensures
            key_data@ == self@.key_data,
    {
        &self.key_data
    }

    /// The revocation marks.
    pub fn revocation(&self) -> (marks: &Revocation)
        ensures
            marks@ == self@.marks,
    {
        &self.revocation
    }

    /// Revokes the leaf at `index` of a collection method and answers
    /// whether it was still valid. `InvalidKeyIndex`, and no change, where
    /// the method has no such leaf; a method over one key has no leaf at
    /// all. Fragment and key material stay.
    pub fn revoke_merkle_key(&mut self, index: usize) -> (r: Result<bool, Error>)
        ensures
            r == leaf_revoked(old(self)@, index as int),
            final(self)@ == after_revoking(old(self)@, index as int),
    {
        match &self.key_data {
            KeyData::Collection { .. } => self.revocation.revoke(index),
            KeyData::PublicKey { .. } => Err(Error::InvalidKeyIndex),
        }
    }

    /// A copy of the method.
    pub fn duplicate(&self) -> (m: VerificationMethod)
        ensures
            m@ == self@,
    {
        VerificationMethod {
            fragment: copy_bytes(self.fragment.as_slice()),
            key_data: self.key_data.duplicate(),
            revocation: self.revocation.duplicate(),
        }
    }

    /// Whether two methods are the same.
    pub fn same(&self, other: &VerificationMethod) -> (same: bool)
        ensures
            same == (self@ == other@),
    {
        bytes_eq(self.fragment.as_slice(), other.fragment.as_slice()) && self.key_data.same(
            &other.key_data,
        ) && self.revocation.same(&other.revocation)
    }

    /// Appends the method's JSON text to `out`.
    pub fn write_json(&self, out: &mut Vec<u8>)
        ensures
            final(out)@ == old(out)@ + method_json(self@),
    {
        push_text(out, "{\"fragment\":");
        push_json_string(out, self.fragment.as_slice());
        push_text(out, ",");
        match &self.key_data {
            KeyData::PublicKey { key } => {
                push_text(out, "\"type\":\"Ed25519VerificationKey2018\",\"publicKeyHex\":\"");
                push_hex(out, key.as_slice());
                push_text(out, "\"");
            },
            KeyData::Collection { digest_tag, root } => {
                push_text(out, "\"type\":\"MerkleKeyCollection2021\",\"digest\":");
                push_decimal(out, *digest_tag as u64);
                push_text(out, ",\"rootHex\":\"");
                push_hex(out, root.as_slice());
                push_text(out, "\",\"revoked\":\"");
                push_marks(out, &self.revocation);
                push_text(out, "\"");
            },
        }
        push_text(out, "}");
        assert(out@ =~= old(out)@ + method_json(self@));
    }
}

impl ToJson for VerificationMethod {
    open spec fn json(&self) -> Seq<u8> {
        method_json(self@)
    }

    fn to_json_vec(&self) -> (out: Vec<u8>) {
        let mut out: Vec<u8> = Vec::new();
        self.write_json(&mut out);
        assert(Seq::<u8>::empty() + method_json(self@) =~= method_json(self@));
        out
    }
}

impl Clone for VerificationMethod {
    fn clone(&self) -> (m: VerificationMethod)
        ensures
            m@ == self@,
    {
        self.duplicate()
    }
}

} // verus!
