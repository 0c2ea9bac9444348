//! The identity document: an identifier, the time of creation, the registry
//! of verification methods, and at most one envelope over the document
//! itself. Identifier and time of creation never change.

use vstd::prelude::*;
use vstd::string::*;
use crate::bytes::{decimal, hex, json_string, push_decimal, push_hex, push_json_string, push_text};
use crate::codec::{sha256, sha256_digest, ToJson};
use crate::ed25519::{KeyPair, KeyType};
use crate::error::Error;
use crate::method::{
    after_revoking, default_scope, leaf_revoked, parsed_scope, KeyData, KeyDataView, MethodScope,
    MethodView, VerificationMethod,
};
use crate::registry::{
    distinct, entries_json, holds, resolved, resolved_index, without, EntryView,
    VerificationMethodRegistry,
};
use crate::signature::{
    checks_with_key_of, envelope_json, envelope_option_view, holds_key_of, sign_body,
    sign_with_method, signed,
    signed_by, signing_leaf, unix_seconds, verified, verify_body, EnvelopeView, SignatureEnvelope,
    SigningKey, SigningKeyView,
};

verus! {

/// The mathematical value of a document.
pub struct DocumentView {
    pub id: Seq<u8>,
    pub created: u64,
    pub methods: Seq<EntryView>,
    pub envelope: Option<EnvelopeView>,
}

/// An identity document.
pub struct Document {
    id: Vec<u8>,
    created: u64,
    registry: VerificationMethodRegistry,
    envelope: Option<SignatureEnvelope>,
}

impl View for Document {
    type V = DocumentView;

    closed spec fn view(&self) -> DocumentView {
        DocumentView {
            id: self.id@,
            created: self.created,
            methods: self.registry@,
            envelope: envelope_option_view(self.envelope),
        }
    }
}

/// The bytes of a method's key material that a document's identifier is
/// derived from: the public key, or the collection's root.
pub open spec fn key_material(key_data: KeyDataView) -> Seq<u8> {
    match key_data {
        KeyDataView::PublicKey { key } => key,
        KeyDataView::Collection { root, .. } => root,
    }
}

/// The identifier of the document made from a method: `did:iota:` and the
/// hexadecimal SHA-256 digest of the method's key material.
pub open spec fn document_id(key_data: KeyDataView) -> Seq<u8> {
    "did:iota:".spec_bytes() + hex(sha256(key_material(key_data)))
}

/// The members of a document's JSON object that stand before the envelope.
pub open spec fn document_members(v: DocumentView) -> Seq<u8> {
    "\"id\":".spec_bytes() + json_string(v.id) + ",\"created\":".spec_bytes() + decimal(
        v.created as nat,
    ) + ",\"methods\":".spec_bytes() + entries_json(v.methods)
}

/// The JSON text of a document without its envelope: what a signature over
/// the document is made over, once canonical.
pub open spec fn document_body(v: DocumentView) -> Seq<u8> {
    "{".spec_bytes() + document_members(v) + "}".spec_bytes()
}

/// The JSON text of a document, envelope included.
pub open spec fn document_json(v: DocumentView) -> Seq<u8> {
    match v.envelope {
        Some(env) => "{".spec_bytes() + document_members(v) + ",\"proof\":".spec_bytes()
            + envelope_json(env) + "}".spec_bytes(),
        None => document_body(v),
    }
}

/// The index of the first entry at or after `from` that stands under
/// `scope`; the number of entries where there is none.
pub open spec fn find_scope(entries: Seq<EntryView>, scope: MethodScope, from: int) -> int
    decreases entries.len() - from,
{
    if from < 0 || from >= entries.len() {
        entries.len() as int
    } else if entries[from].scope == scope {
        from
    } else {
        find_scope(entries, scope, from + 1)
    }
}

/// The method that signs the document itself: the first under authentication.
pub open spec fn authentication_method(entries: Seq<EntryView>) -> Option<MethodView> {
    if find_scope(entries, MethodScope::Authentication, 0) < entries.len() {
        Some(entries[find_scope(entries, MethodScope::Authentication, 0)].method)
    } else {
        None
    }
}

/// The envelope that signing the document with `secret` makes:
/// `MethodNotFound` without an authentication method, else `signed_by`.
pub open spec fn document_signed(v: DocumentView, secret: Seq<u8>, created: u64) -> Result<
    EnvelopeView,
    Error,
> {
    match authentication_method(v.methods) {
        None => Err(Error::MethodNotFound),
        Some(m) => signed_by(
            v.id,
            m,
            SigningKeyView::Plain { secret },
            document_body(v),
            created,
        ),
    }
}

/// What verifying the document answers.
pub open spec fn document_verified(v: DocumentView) -> Result<(), Error> {
    verified(v.methods, v.id, document_body(v), v.envelope)
}

/// The document made from an authentication method at a given time.
pub open spec fn fresh_document(method: MethodView, created: u64) -> DocumentView {
    DocumentView {
        id: document_id(method.key_data),
        created,
        methods: seq![EntryView { scope: MethodScope::Authentication, method }],
        envelope: None,
    }
}

/// A payload to sign: the JSON text of its properties, and the envelope
/// once it is signed.
pub struct Payload {
    pub body: Vec<u8>,
    pub envelope: Option<SignatureEnvelope>,
}

/// The mathematical value of a payload.
pub struct PayloadView {
    pub body: Seq<u8>,
    pub envelope: Option<EnvelopeView>,
}

impl View for Payload {
    type V = PayloadView;

    open spec fn view(&self) -> PayloadView {
        PayloadView { body: self.body@, envelope: envelope_option_view(self.envelope) }
    }
}

impl Document {
    /// Within a scope no fragment occurs twice.
    pub open spec fn wf(&self) -> bool {
        distinct(self@.methods)
    }

    /// The document whose only method is `method`, under authentication,
    /// created at the given time and not signed.
    pub fn from_authentication_at(method: VerificationMethod, created: u64) -> (d: Document)
        ensures
            d@ == fresh_document(method@, created),
            d.wf(),
    {
        let digest: Vec<u8> = match method.key_data() {
            KeyData::PublicKey { key } => sha256_digest(key.as_slice()),
            KeyData::Collection { root, .. } => sha256_digest(root.as_slice()),
        };
        let mut id: Vec<u8> = Vec::new();
        push_text(&mut id, "did:iota:");
        push_hex(&mut id, digest.as_slice());
        assert(id@ =~= document_id(method@.key_data));
        let mut registry: VerificationMethodRegistry = VerificationMethodRegistry::new();
        let ghost m = method@;
        registry.insert(MethodScope::Authentication, method);
        assert(registry@ =~= seq![EntryView { scope: MethodScope::Authentication, method: m }]);
        Document { id, created, registry, envelope: None }
    }

    /// The document with the given parts.
    pub fn from_parts(
        id: Vec<u8>,
        created: u64,
        registry: VerificationMethodRegistry,
        envelope: Option<SignatureEnvelope>,
    ) -> (d: Document)
        requires
            registry.wf(),
        ensures
            d@ == (DocumentView {
                id: id@,
                created,
                methods: registry@,
                envelope: envelope_option_view(envelope),
            }),
            d.wf(),
    {
        Document { id, created, registry, envelope }
    }

    /// The document whose only method is `method`, created now.
    pub fn from_authentication(method: VerificationMethod) -> (d: Document)
        ensures
            d@ == fresh_document(method@, d@.created),
            d.wf(),
    {
        Self::from_authentication_at(method, unix_seconds())
    }

    /// The document whose only method holds the public key of `pair` under
    /// the fragment `authentication`, created now.
    pub fn from_keypair(pair: &KeyPair) -> (d: Document)
        ensures
            d@ == fresh_document(
                MethodView {
                    fragment: crate::method::default_fragment(),
                    key_data: KeyDataView::PublicKey { key: pair.public_bytes() },
                    marks: Seq::empty(),
                },
                d@.created,
            ),
            d.wf(),
    {
        Self::from_authentication(VerificationMethod::from_keypair(pair, None))
    }

    /// The identifier.
    pub fn id(&self) -> (id: &[u8])
        ensures
            id@ == self@.id,
    {
        self.id.as_slice()
    }

    /// The time of creation, in seconds since the Unix epoch.
    pub fn created(&self) -> (created: u64)
        ensures
            created == self@.created,
    {
        self.created
    }

    /// The envelope over the document, if it is signed.
    pub fn envelope(&self) -> (envelope: Option<&SignatureEnvelope>)
        ensures
            match envelope {
                Some(env) => self@.envelope == Some(env@),
                None => self@.envelope is None,
            },
    {
        match &self.envelope {
            Some(env) => Some(env),
            None => None,
        }
    }

    /// The registry of methods.
    pub fn methods(&self) -> (registry: &VerificationMethodRegistry)
        ensures
            registry@ == self@.methods,
    {
        &self.registry
    }

    /// Puts `registry` in the place of the document's methods.
    pub(crate) fn replace_methods(&mut self, registry: VerificationMethodRegistry)
        requires
            registry.wf(),
        ensures
            final(self)@ == (DocumentView { methods: registry@, ..old(self)@ }),
            final(self).wf(),
    {
        self.registry = registry;
    }

    /// Enters `method` under `scope`; see `VerificationMethodRegistry::insert`.
    pub fn insert_scoped(&mut self, scope: MethodScope, method: VerificationMethod) -> (inserted:
        bool)
        requires
            old(self).wf(),
        ensures
            inserted == !holds(old(self)@.methods, scope, method@.fragment),
            final(self)@ == (DocumentView {
                methods: if inserted {
                    old(self)@.methods.push(EntryView { scope, method: method@ })
                } else {
                    old(self)@.methods
                },
                ..old(self)@
            }),
            final(self).wf(),
    {
        self.registry.insert(scope, method)
    }

    /// Enters `method` under the scope that `scope` names. `InvalidScope`,
    /// and no change, where it names none; without a name it names none.
    pub fn insert_method(&mut self, method: VerificationMethod, scope: Option<&[u8]>) -> (r: Result<
        bool,
        Error,
    >)
        requires
            old(self).wf(),
        ensures
            match (scope, r) {
                (Some(name), Ok(inserted)) => parsed_scope(name@) matches Ok(s) && inserted
                    == !holds(old(self)@.methods, s, method@.fragment) && final(self)@
                    == (DocumentView {
                    methods: if inserted {
                        old(self)@.methods.push(EntryView { scope: s, method: method@ })
                    } else {
                        old(self)@.methods
                    },
                    ..old(self)@
                }),
                (Some(name), Err(e)) => parsed_scope(name@) is Err && e == Error::InvalidScope
                    && final(self)@ == old(self)@,
                (None, Ok(_)) => false,
                (None, Err(e)) => e == Error::InvalidScope && final(self)@ == old(self)@,
            },
            final(self).wf(),
    {
        let name: &[u8] = match scope {
            Some(n) => n,
            None => {
                return Err(Error::InvalidScope);
            },
        };
        match MethodScope::parse(name) {
            Ok(s) => Ok(self.insert_scoped(s, method)),
            Err(e) => Err(e),
        }
    }

    /// Removes the methods that answer `identifier`; see
    /// `VerificationMethodRegistry::remove`.
    pub fn remove_method(&mut self, identifier: &[u8]) -> (r: Result<(), Error>)
        requires
            old(self).wf(),
        ensures
            final(self)@ == (DocumentView {
                methods: without(old(self)@.methods, old(self)@.id, identifier@),
                ..old(self)@
            }),
            final(self).wf(),
            match r {
                Ok(_) => final(self)@.methods.len() < old(self)@.methods.len(),
                Err(e) => e == Error::MethodNotFound && final(self)@ == old(self)@,
            },
    {
        self.registry.remove(self.id.as_slice(), identifier)
    }

    /// A copy of the method that `query` resolves to; see `resolved`.
    pub fn resolve_key(&self, query: &[u8]) -> (r: Result<VerificationMethod, Error>)
        ensures
            match r {
                Ok(m) => resolved(self@.methods, self@.id, default_scope(), query@) == Some(m@),
                Err(e) => e == Error::MethodNotFound && resolved(
                    self@.methods,
                    self@.id,
                    default_scope(),
                    query@,
                ) is None,
            },
    {
        match self.registry.resolve(self.id.as_slice(), MethodScope::default(), query) {
            Ok(m) => Ok(m.duplicate()),
            Err(e) => Err(e),
        }
    }

    /// Revokes leaf `index` of the method that `query` resolves to, and
    /// answers whether the leaf was still valid. `MethodNotFound` where the
    /// query does not resolve, `InvalidKeyIndex` where the method is no key
    /// collection or has no such leaf; on an error nothing changes. Nothing
    /// but that leaf's mark changes.
    pub fn revoke_merkle_key(&mut self, query: &[u8], index: usize) -> (r: Result<bool, Error>)
        requires
            old(self).wf(),
        ensures
            r == revoked_outcome(old(self)@, query@, index as int),
            final(self)@ == revoked_document(old(self)@, query@, index as int),
            r is Err ==> final(self)@ == old(self)@,
            final(self).wf(),
    {
        match self.registry.position(self.id.as_slice(), MethodScope::default(), query) {
            Some(i) => {
                let r = self.registry.revoke_at(i, index);
                proof {
                    if r is Err {
                        assert(self@.methods =~= old(self)@.methods);
                    }
                }
                r
            },
            None => Err(Error::MethodNotFound),
        }
    }

    /// The method that signs the document itself; see `authentication_method`.
    pub fn first_authentication(&self) -> (method: Option<&VerificationMethod>)
        ensures
            match method {
                Some(m) => authentication_method(self@.methods) == Some(m@),
                None => authentication_method(self@.methods) is None,
            },
    {
        let mut i: usize = 0;
        while i < self.registry.len()
            invariant
                i <= self@.methods.len(),
                find_scope(self@.methods, MethodScope::Authentication, 0) == find_scope(
                    self@.methods,
                    MethodScope::Authentication,
                    i as int,
                ),
            decreases self@.methods.len() - i,
        {
            match self.registry.get(i) {
                Some(entry) => {
                    if entry.scope == MethodScope::Authentication {
                        return Some(&entry.method);
                    }
                },
                None => {},
            }
            i += 1;
        }
        None
    }

    /// Appends the members that stand before the envelope to `out`.
    fn write_members(&self, out: &mut Vec<u8>)
        ensures
            final(out)@ == old(out)@ + document_members(self@),
    {
        push_text(out, "\"id\":");
        push_json_string(out, self.id.as_slice());
        push_text(out, ",\"created\":");
        push_decimal(out, self.created);
        push_text(out, ",\"methods\":");
        self.registry.write_json(out);
        assert(out@ =~= old(out)@ + document_members(self@));
    }

    /// The JSON text of the document without its envelope.
    pub fn signing_body(&self) -> (out: Vec<u8>)
        ensures
            out@ == document_body(self@),
    {
        let mut out: Vec<u8> = Vec::new();
        push_text(&mut out, "{");
        self.write_members(&mut out);
        push_text(&mut out, "}");
        assert(out@ =~= document_body(self@));
        out
    }

    /// Signs the document with its first authentication method at the given
    /// time, and embeds the envelope in place of any earlier one; see
    /// `document_signed`. On an error nothing changes.
    ///
    /// The new envelope's reference resolves to the method that signed.
    /// Where that method holds the public key of the secret, the signed
    /// document verifies.
    pub fn sign_at(&mut self, secret: &[u8], created: u64) -> (r: Result<(), Error>)
        ensures
            match document_signed(old(self)@, secret@, created) {
                Ok(env) => r is Ok && final(self)@ == (DocumentView {
                    envelope: Some(env),
                    ..old(self)@
                }),
                Err(e) => r == Err::<(), Error>(e) && final(self)@ == old(self)@,
            },
            r is Ok ==> holds_key_of(authentication_method(old(self)@.methods), secret@)
                ==> document_verified(final(self)@) is Ok,
    {
        proof {
            if authentication_method(self@.methods) is Some {
                lemma_authentication_reference(self@.methods, self@.id);
            }
        }
        let body: Vec<u8> = self.signing_body();
        let made: Result<SignatureEnvelope, Error> = match self.first_authentication() {
            Some(method) => sign_with_method(
                &self.registry,
                self.id.as_slice(),
                method,
                &SigningKey::Plain { secret: crate::bytes::copy_bytes(secret) },
                body.as_slice(),
                created,
            ),
            None => Err(Error::MethodNotFound),
        };
        match made {
            Ok(env) => {
                self.envelope = Some(env);
                assert(document_members(self@) == document_members(old(self)@));
                Ok(())
            },
            Err(e) => Err(e),
        }
    }

    /// Signs the document now; see `sign_at`.
    pub fn sign(&mut self, secret: &[u8]) -> (r: Result<(), Error>)
        ensures
            match document_signed(old(self)@, secret@, 0) {
                Ok(_) => r is Ok && final(self)@.envelope is Some && document_signed(
                    old(self)@,
                    secret@,
                    final(self)@.envelope.unwrap().created,
                ) == Ok::<EnvelopeView, Error>(final(self)@.envelope.unwrap()) && final(self)@
                    == (DocumentView { envelope: final(self)@.envelope, ..old(self)@ }),
                Err(e) => r == Err::<(), Error>(e) && final(self)@ == old(self)@,
            },
            r is Ok ==> holds_key_of(authentication_method(old(self)@.methods), secret@)
                ==> document_verified(final(self)@) is Ok,
    {
        self.sign_at(secret, unix_seconds())
    }

    /// Checks the document's envelope; see `verified`.
    pub fn verify(&self) -> (r: Result<(), Error>)
        ensures
            r == document_verified(self@),
    {
        let body: Vec<u8> = self.signing_body();
        verify_body(&self.registry, self.id.as_slice(), body.as_slice(), self.envelope())
    }

    /// Whether the document's envelope verifies.
    pub fn is_verified(&self) -> (ok: bool)
        ensures
            ok == (document_verified(self@) is Ok),
    {
        self.verify().is_ok()
    }

    /// Signs `payload` at the given time with the method that `query`
    /// resolves to, and embeds the envelope in place of any earlier one;
    /// see `signed`. On an error the payload stays as it is.
    ///
    /// Where the method checks the new envelope against the public key of
    /// the secret, the signed payload verifies against this document.
    pub fn sign_data_at(&self, payload: &mut Payload, query: &[u8], key: &SigningKey, created: u64)
        -> (r: Result<(), Error>)
        ensures
            match signed(self@.methods, self@.id, query@, key@, old(payload)@.body, created) {
                Ok(env) => r is Ok && final(payload)@ == (PayloadView {
                    envelope: Some(env),
                    ..old(payload)@
                }),
                Err(e) => r == Err::<(), Error>(e) && final(payload)@ == old(payload)@,
            },
            r is Ok ==> self.wf() ==> checks_with_key_of(
                resolved(self@.methods, self@.id, default_scope(), query@),
                final(payload)@.envelope.unwrap(),
                crate::signature::secret_of(key@),
            ) ==> verified(self@.methods, self@.id, final(payload)@.body, final(payload)@.envelope)
                is Ok,
    {
        match sign_body(
            &self.registry,
            self.id.as_slice(),
            query,
            key,
            payload.body.as_slice(),
            created,
        ) {
            Ok(env) => {
                payload.envelope = Some(env);
                Ok(())
            },
            Err(e) => Err(e),
        }
    }

    /// Signs `payload` now; see `sign_data_at`.
    pub fn sign_data(&self, payload: &mut Payload, query: &[u8], key: &SigningKey) -> (r: Result<
        (),
        Error,
    >)
        ensures
            match signed(self@.methods, self@.id, query@, key@, old(payload)@.body, 0) {
                Ok(_) => r is Ok && final(payload)@.envelope is Some && signed(
                    self@.methods,
                    self@.id,
                    query@,
                    key@,
                    old(payload)@.body,
                    final(payload)@.envelope.unwrap().created,
                ) == Ok::<EnvelopeView, Error>(final(payload)@.envelope.unwrap())
                    && final(payload)@.body == old(payload)@.body,
                Err(e) => r == Err::<(), Error>(e) && final(payload)@ == old(payload)@,
            },
            r is Ok ==> self.wf() ==> checks_with_key_of(
                resolved(self@.methods, self@.id, default_scope(), query@),
                final(payload)@.envelope.unwrap(),
                crate::signature::secret_of(key@),
            ) ==> verified(self@.methods, self@.id, final(payload)@.body, final(payload)@.envelope)
                is Ok,
    {
        self.sign_data_at(payload, query, key, unix_seconds())
    }

    /// Checks the envelope of `payload` against this document's methods;
    /// see `verified`.
    pub fn verify_data(&self, payload: &Payload) -> (r: Result<(), Error>)
        ensures
            r == verified(self@.methods, self@.id, payload@.body, payload@.envelope),
    {
        verify_body(
            &self.registry,
            self.id.as_slice(),
            payload.body.as_slice(),
            match &payload.envelope {
                Some(env) => Some(env),
                None => None,
            },
        )
    }

    /// A copy of the document.
    pub fn duplicate(&self) -> (d: Document)
        ensures
            d@ == self@,
    {
        Document {
            id: crate::bytes::copy_bytes(self.id.as_slice()),
            created: self.created,
            registry: self.registry.duplicate(),
            envelope: match &self.envelope {
                Some(env) => Some(env.duplicate()),
                None => None,
            },
        }
    }
}

/// What `revoke_merkle_key` answers.
pub open spec fn revoked_outcome(v: DocumentView, query: Seq<u8>, leaf: int) -> Result<bool, Error> {
    match resolved_index(v.methods, v.id, default_scope(), query) {
        Some(i) => leaf_revoked(v.methods[i].method, leaf),
        None => Err(Error::MethodNotFound),
    }
}

/// The document after `revoke_merkle_key`.
pub open spec fn revoked_document(v: DocumentView, query: Seq<u8>, leaf: int) -> DocumentView {
    match resolved_index(v.methods, v.id, default_scope(), query) {
        Some(i) => DocumentView {
            methods: v.methods.update(
                i,
                EntryView {
                    scope: v.methods[i].scope,
                    method: after_revoking(v.methods[i].method, leaf),
                },
            ),
            ..v
        },
        None => v,
    }
}

/// The first entry under a scope is under that scope, and none before it is.
pub proof fn lemma_find_scope(entries: Seq<EntryView>, scope: MethodScope, from: int)
    requires
        0 <= from <= entries.len(),
    ensures
        from <= find_scope(entries, scope, from) <= entries.len(),
        find_scope(entries, scope, from) < entries.len() ==> entries[find_scope(
            entries,
            scope,
            from,
        )].scope == scope,
        forall|k: int|
            from <= k < find_scope(entries, scope, from) ==> (#[trigger] entries[k]).scope != scope,
    decreases entries.len() - from,
{
    if from < entries.len() && entries[from].scope != scope {
        lemma_find_scope(entries, scope, from + 1);
    }
}

/// The full identifier of the method that signs the document resolves to
/// that method, whatever other entries share its fragment.
pub proof fn lemma_authentication_reference(entries: Seq<EntryView>, did: Seq<u8>)
    requires
        authentication_method(entries) is Some,
    ensures
        resolved(
            entries,
            did,
            default_scope(),
            crate::registry::full_id(did, authentication_method(entries).unwrap().fragment),
        ) == authentication_method(entries),
{
    let i = find_scope(entries, MethodScope::Authentication, 0);
    let reference = crate::registry::full_id(did, entries[i].method.fragment);
    lemma_find_scope(entries, MethodScope::Authentication, 0);
    crate::registry::lemma_find_exact_in(entries, did, MethodScope::Authentication, reference, 0);
    let j = crate::registry::find_exact_in(entries, did, MethodScope::Authentication, reference, 0);
    if j > i {
        assert(!(entries[i].scope == MethodScope::Authentication && reference
            == crate::registry::full_id(did, entries[i].method.fragment)));
    }
}

/// In a document made from one method, every query that names the method,
/// by its fragment or by its full identifier, resolves to it.
pub proof fn lemma_fresh_document_resolves(method: MethodView, created: u64, query: Seq<u8>)
    requires
        crate::registry::answers(
            document_id(method.key_data),
            EntryView { scope: MethodScope::Authentication, method },
            query,
        ),
    ensures
        resolved(
            fresh_document(method, created).methods,
            document_id(method.key_data),
            default_scope(),
            query,
        ) == Some(method),
{
    let v = fresh_document(method, created);
    reveal_with_fuel(crate::registry::find_exact_in, 2);
    reveal_with_fuel(crate::registry::find_exact, 2);
    reveal_with_fuel(crate::registry::find_fragment, 2);
    assert(v.methods[0].method == method);
}

/// A document made from a key is signed by the method that holds that key:
/// signed with the key's secret, it verifies.
pub proof fn lemma_fresh_document_signer(method: MethodView, created: u64, secret: Seq<u8>)
    requires
        method.key_data == (KeyDataView::PublicKey { key: crate::ed25519::ed25519_public(secret) }),
        crate::ed25519::ed25519_public(secret).len() == 32,
    ensures
        holds_key_of(authentication_method(fresh_document(method, created).methods), secret),
{
    let v = fresh_document(method, created);
    assert(find_scope(v.methods, MethodScope::Authentication, 0) == 0);
}

/// Revoking a leaf makes every envelope that the leaf signed fail with
/// `RevokedKey`, and leaves the verdict on every other envelope as it was.
pub proof fn lemma_revoked_leaf_rejected(
    v: DocumentView,
    query: Seq<u8>,
    leaf: int,
    body: Seq<u8>,
    envelope: EnvelopeView,
)
    requires
        revoked_outcome(v, query, leaf) is Ok,
    ensures
        ({
            let w = revoked_document(v, query, leaf);
            let k = resolved_index(v.methods, v.id, default_scope(), query).unwrap();
            let by_leaf = resolved_index(v.methods, v.id, default_scope(), envelope.method) == Some(k)
                && signing_leaf(v.methods[k].method, envelope) == Some(leaf as nat);
            &&& by_leaf ==> verified(w.methods, w.id, body, Some(envelope)) == Err::<(), Error>(
                Error::RevokedKey,
            )
            &&& !by_leaf ==> verified(w.methods, w.id, body, Some(envelope)) == verified(
                v.methods,
                v.id,
                body,
                Some(envelope),
            )
        }),
{
    let w = revoked_document(v, query, leaf);
    crate::registry::lemma_find_exact_in(v.methods, v.id, default_scope(), query, 0);
    crate::registry::lemma_find_exact(v.methods, v.id, query, 0);
    crate::registry::lemma_find_fragment(v.methods, default_scope(), query, 0);
    crate::registry::lemma_resolution_by_place(
        v.methods,
        w.methods,
        v.id,
        default_scope(),
        envelope.method,
        0,
    );
    crate::registry::lemma_find_exact_in(v.methods, v.id, default_scope(), envelope.method, 0);
    crate::registry::lemma_find_exact(v.methods, v.id, envelope.method, 0);
    crate::registry::lemma_find_fragment(v.methods, default_scope(), envelope.method, 0);
}

impl ToJson for Document {
    open spec fn json(&self) -> Seq<u8> {
        document_json(self@)
    }

    fn to_json_vec(&self) -> (out: Vec<u8>) {
        match &self.envelope {
            Some(env) => {
                let mut out: Vec<u8> = Vec::new();
                push_text(&mut out, "{");
                self.write_members(&mut out);
                push_text(&mut out, ",\"proof\":");
                env.write_json(&mut out);
                push_text(&mut out, "}");
                assert(out@ =~= document_json(self@));
                out
            },
            None => self.signing_body(),
        }
    }
}

impl Clone for Document {
    fn clone(&self) -> (d: Document)
        ensures
            d@ == self@,
    {
        self.duplicate()
    }
}

/// A freshly made document together with the key pair it was made from.
pub struct NewDocument {
    key: KeyPair,
    doc: Document,
}

impl NewDocument {
    /// The key pair.
    pub closed spec fn key_pair(&self) -> KeyPair {
        self.key
    }

    /// The document.
    pub closed spec fn document(&self) -> Document {
        self.doc
    }

    /// A copy of the key pair.
    pub fn key(&self) -> (pair: KeyPair)
        ensures
            pair.public_bytes() == self.key_pair().public_bytes(),
            pair.secret_bytes() == self.key_pair().secret_bytes(),
            pair.wf() == self.key_pair().wf(),
    {
        self.key.duplicate()
    }

    /// A copy of the document.
    pub fn doc(&self) -> (d: Document)
        ensures
            d@ == self.document()@,
    {
        self.doc.duplicate()
    }
}

impl Document {
    /// A fresh key pair of the given kind and the document whose only method
    /// holds its public key under the fragment `tag`, or `authentication`
    /// without one. `EncodeError` where no key could be drawn.
    pub fn new(key_type: KeyType, tag: Option<&[u8]>) -> (r: Result<NewDocument, Error>)
        ensures
            match r {
                Ok(n) => n.key_pair().wf() && n.document().wf() && n.document()@ == fresh_document(
                    MethodView {
                        fragment: match tag {
                            Some(t) => t@,
                            None => crate::method::default_fragment(),
                        },
                        key_data: KeyDataView::PublicKey { key: n.key_pair().public_bytes() },
                        marks: Seq::empty(),
                    },
                    n.document()@.created,
                ),
                Err(e) => e == Error::EncodeError,
            },
    {
        match KeyPair::new(key_type) {
            Ok(key) => {
                let method: VerificationMethod = VerificationMethod::from_keypair(&key, tag);
                let doc: Document = Document::from_authentication(method);
                Ok(NewDocument { key, doc })
            },
            Err(e) => Err(e),
        }
    }
}

} // verus!
