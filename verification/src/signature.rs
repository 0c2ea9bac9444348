//! Signature envelopes: making one over a payload with a method of the
//! registry, and checking one. The bytes that are signed are the canonical
//! form of the payload's JSON text without its envelope.

use vstd::prelude::*;
use vstd::string::*;
use crate::bytes::{
    append, copy_bytes, decimal, hex, json_string, push_decimal, push_hex, push_json_string,
    push_text,
};
use crate::codec::{bytes_result_view, canonical_json, canonicalize};
use crate::ed25519::{
    accepts, ed25519_accepts, ed25519_public, ed25519_signature, sign_message, KEY_LENGTH,
    SIGNATURE_LENGTH,
};
use crate::error::Error;
use crate::inclusion::{decoded, InclusionProof, DIGEST_SHA256};
use crate::merkle::{leaf_index, leaf_index_of, path_leads_to, verify_inclusion};
use crate::method::{default_scope, KeyData, KeyDataView, MethodScope, MethodView, VerificationMethod};
use crate::registry::{full_id, resolved, EntryView, VerificationMethodRegistry};

verus! {

/// What a signature by a collection's leaf carries besides the signature:
/// the leaf's public key and the encoded inclusion proof.
pub struct MerkleEvidence {
    pub public_key: Vec<u8>,
    pub inclusion: Vec<u8>,
}

/// The mathematical value of a `MerkleEvidence`.
pub struct EvidenceView {
    pub public_key: Seq<u8>,
    pub inclusion: Seq<u8>,
}

impl View for MerkleEvidence {
    type V = EvidenceView;

    open spec fn view(&self) -> EvidenceView {
        EvidenceView { public_key: self.public_key@, inclusion: self.inclusion@ }
    }
}

/// The envelope of a signature, embedded in what was signed.
pub struct SignatureEnvelope {
    /// The full identifier of the method that signed.
    pub method: Vec<u8>,
    /// When the signature was made, in seconds since the Unix epoch.
    pub created: u64,
    /// The signature's bytes.
    pub signature: Vec<u8>,
    /// For a signature by a collection's leaf, the leaf's key and proof.
    pub evidence: Option<MerkleEvidence>,
}

/// The mathematical value of a `SignatureEnvelope`.
pub struct EnvelopeView {
    pub method: Seq<u8>,
    pub created: u64,
    pub signature: Seq<u8>,
    pub evidence: Option<EvidenceView>,
}

/// The view of optional evidence.
pub open spec fn evidence_option_view(e: Option<MerkleEvidence>) -> Option<EvidenceView> {
    match e {
        Some(ev) => Some(ev@),
        None => None,
    }
}

impl View for SignatureEnvelope {
    type V = EnvelopeView;

    open spec fn view(&self) -> EnvelopeView {
        EnvelopeView {
            method: self.method@,
            created: self.created,
            signature: self.signature@,
            evidence: evidence_option_view(self.evidence),
        }
    }
}

/// The view of an optional envelope.
pub open spec fn envelope_option_view(e: Option<SignatureEnvelope>) -> Option<EnvelopeView> {
    match e {
        Some(env) => Some(env@),
        None => None,
    }
}

/// The view of the outcome of signing.
pub open spec fn envelope_result_view(r: Result<SignatureEnvelope, Error>) -> Result<
    EnvelopeView,
    Error,
> {
    match r {
        Ok(env) => Ok(env@),
        Err(e) => Err(e),
    }
}

/// The JSON text of the evidence's two members, with a leading comma.
pub open spec fn evidence_json(e: Option<EvidenceView>) -> Seq<u8> {
    match e {
        Some(ev) => ",\"publicKeyHex\":\"".spec_bytes() + hex(ev.public_key)
            + "\",\"inclusionProofHex\":\"".spec_bytes() + hex(ev.inclusion) + "\"".spec_bytes(),
        None => Seq::empty(),
    }
}

/// The JSON text of an envelope.
pub open spec fn envelope_json(e: EnvelopeView) -> Seq<u8> {
    "{\"verificationMethod\":".spec_bytes() + json_string(e.method) + ",\"created\":".spec_bytes()
        + decimal(e.created as nat) + ",\"signatureValue\":\"".spec_bytes() + hex(e.signature)
        + "\"".spec_bytes() + evidence_json(e.evidence) + "}".spec_bytes()
}

impl MerkleEvidence {
    /// A copy of the evidence.
    pub fn duplicate(&self) -> (e: MerkleEvidence)
        ensures
            e@ == self@,
    {
        MerkleEvidence {
            public_key: copy_bytes(self.public_key.as_slice()),
            inclusion: copy_bytes(self.inclusion.as_slice()),
        }
    }
}

impl SignatureEnvelope {
    /// A copy of the envelope.
    pub fn duplicate(&self) -> (e: SignatureEnvelope)
        ensures
            e@ == self@,
    {
        SignatureEnvelope {
            method: copy_bytes(self.method.as_slice()),
            created: self.created,
            signature: copy_bytes(self.signature.as_slice()),
            evidence: match &self.evidence {
                Some(ev) => Some(ev.duplicate()),
                None => None,
            },
        }
    }

    /// Appends the envelope's JSON text to `out`.
    pub fn write_json(&self, out: &mut Vec<u8>)
        ensures
            final(out)@ == old(out)@ + envelope_json(self@),
    {
        push_text(out, "{\"verificationMethod\":");
        push_json_string(out, self.method.as_slice());
        push_text(out, ",\"created\":");
        push_decimal(out, self.created);
        push_text(out, ",\"signatureValue\":\"");
        push_hex(out, self.signature.as_slice());
        push_text(out, "\"");
        let ghost mid = out@;
        match &self.evidence {
            Some(ev) => {
                push_text(out, ",\"publicKeyHex\":\"");
                push_hex(out, ev.public_key.as_slice());
                push_text(out, "\",\"inclusionProofHex\":\"");
                push_hex(out, ev.inclusion.as_slice());
                push_text(out, "\"");
                assert(out@ =~= mid + evidence_json(self@.evidence));
            },
            None => {
                assert(out@ =~= mid + evidence_json(self@.evidence));
            },
        }
        push_text(out, "}");
        assert(out@ =~= old(out)@ + envelope_json(self@));
    }
}

/// The key material that a caller signs with: one secret key, or a leaf of
/// a key collection with its public key and its encoded inclusion proof.
pub enum SigningKey {
    Plain { secret: Vec<u8> },
    Merkle { public: Vec<u8>, secret: Vec<u8>, inclusion: Vec<u8> },
}

/// The mathematical value of a `SigningKey`.
pub enum SigningKeyView {
    Plain { secret: Seq<u8> },
    Merkle { public: Seq<u8>, secret: Seq<u8>, inclusion: Seq<u8> },
}

impl View for SigningKey {
    type V = SigningKeyView;

    open spec fn view(&self) -> SigningKeyView {
        match self {
            SigningKey::Plain { secret } => SigningKeyView::Plain { secret: secret@ },
            SigningKey::Merkle { public, secret, inclusion } => SigningKeyView::Merkle {
                public: public@,
                secret: secret@,
                inclusion: inclusion@,
            },
        }
    }
}

/// The secret key of a signing key.
pub open spec fn secret_of(key: SigningKeyView) -> Seq<u8> {
    match key {
        SigningKeyView::Plain { secret } => secret,
        SigningKeyView::Merkle { secret, .. } => secret,
    }
}

impl SigningKey {
    /// The secret key.
    pub fn secret(&self) -> (secret: &[u8])
        ensures
            secret@ == secret_of(self@),
    {
        match self {
            SigningKey::Plain { secret } => secret.as_slice(),
            SigningKey::Merkle { secret, .. } => secret.as_slice(),
        }
    }
}

/// The view of the outcome of `check_evidence`.
pub open spec fn evidence_result_view(r: Result<Option<MerkleEvidence>, Error>) -> Result<
    Option<EvidenceView>,
    Error,
> {
    match r {
        Ok(e) => Ok(evidence_option_view(e)),
        Err(e) => Err(e),
    }
}

/// The evidence that a signature with `key` by `method` has to carry. A
/// method over one key needs none. A collection method needs a leaf key:
/// `InvalidInclusionProof` without one or where its proof does not decode,
/// `InvalidMerkleDigest` where the collection's digest is not SHA-256 or the
/// proof was made with another digest.
pub open spec fn evidence_for(method: MethodView, key: SigningKeyView) -> Result<
    Option<EvidenceView>,
    Error,
> {
    match method.key_data {
        KeyDataView::PublicKey { .. } => Ok(None),
        KeyDataView::Collection { digest_tag, .. } => match key {
            SigningKeyView::Plain { .. } => Err(Error::InvalidInclusionProof),
            SigningKeyView::Merkle { public, inclusion, .. } => if digest_tag != DIGEST_SHA256 {
                Err(Error::InvalidMerkleDigest)
            } else {
                match decoded(inclusion) {
                    None => Err(Error::InvalidInclusionProof),
                    Some(p) => if p.digest_tag != digest_tag {
                        Err(Error::InvalidMerkleDigest)
                    } else {
                        Ok(Some(EvidenceView { public_key: public, inclusion }))
                    },
                }
            },
        },
    }
}

/// The envelope that `method` makes over `body` with `key`: `EncodeError`
/// where the body has no canonical form, the errors of `evidence_for`,
/// `DecodeError` where the secret has not 32 bytes.
pub open spec fn signed_by(
    did: Seq<u8>,
    method: MethodView,
    key: SigningKeyView,
    body: Seq<u8>,
    created: u64,
) -> Result<EnvelopeView, Error> {
    match canonical_json(body) {
        None => Err(Error::EncodeError),
        Some(bytes) => match evidence_for(method, key) {
            Err(e) => Err(e),
            Ok(evidence) => if secret_of(key).len() != 32 {
                Err(Error::DecodeError)
            } else {
                Ok(
                    EnvelopeView {
                        method: full_id(did, method.fragment),
                        created,
                        signature: ed25519_signature(secret_of(key), bytes),
                        evidence,
                    },
                )
            },
        },
    }
}

/// The envelope that signing makes with the method that `query` resolves
/// to: `MethodNotFound` where it does not resolve, else `signed_by`.
pub open spec fn signed(
    entries: Seq<EntryView>,
    did: Seq<u8>,
    query: Seq<u8>,
    key: SigningKeyView,
    body: Seq<u8>,
    created: u64,
) -> Result<EnvelopeView, Error> {
    match resolved(entries, did, default_scope(), query) {
        None => Err(Error::MethodNotFound),
        Some(m) => signed_by(did, m, key, body, created),
    }
}

/// The public key that an envelope's signature is checked against. For a
/// method over one key, that key. For a collection method, the leaf key of
/// the evidence, once the proof has been decoded, its leaf found not
/// revoked — `RevokedKey` otherwise —, the digests found to agree, and the
/// proof found to lead from the leaf key to the collection's root.
pub open spec fn verification_key(method: MethodView, envelope: EnvelopeView) -> Result<
    Seq<u8>,
    Error,
> {
    match method.key_data {
        KeyDataView::PublicKey { key } => Ok(key),
        KeyDataView::Collection { digest_tag, root } => match envelope.evidence {
            None => Err(Error::InvalidInclusionProof),
            Some(ev) => match decoded(ev.inclusion) {
                None => Err(Error::InvalidInclusionProof),
                Some(p) => match leaf_index_of(p.nodes, method.marks.len()) {
                    None => Err(Error::InvalidInclusionProof),
                    Some(i) => if method.marks[i as int] {
                        Err(Error::RevokedKey)
                    } else if digest_tag != DIGEST_SHA256 || p.digest_tag != digest_tag {
                        Err(Error::InvalidMerkleDigest)
                    } else if !path_leads_to(root, ev.public_key, p.nodes) {
                        Err(Error::InvalidInclusionProof)
                    } else {
                        Ok(ev.public_key)
                    },
                },
            },
        },
    }
}

/// The leaf of a collection method that an envelope claims to be signed
/// by: the index that the path of its inclusion proof gives.
pub open spec fn signing_leaf(method: MethodView, envelope: EnvelopeView) -> Option<nat> {
    match (method.key_data, envelope.evidence) {
        (KeyDataView::Collection { .. }, Some(ev)) => match decoded(ev.inclusion) {
            Some(p) => leaf_index_of(p.nodes, method.marks.len()),
            None => None,
        },
        _ => None,
    }
}

/// A leaf that is not revoked is accepted with its own inclusion proof: for
/// a method over the collection of `keys`, an envelope that carries key `i`
/// and the written inclusion path of place `i` is checked against key `i`.
pub proof fn lemma_leaf_evidence_accepted(
    keys: Seq<Seq<u8>>,
    i: int,
    method: MethodView,
    envelope: EnvelopeView,
)
    requires
        0 <= i < keys.len(),
        method.key_data == (KeyDataView::Collection {
            digest_tag: DIGEST_SHA256,
            root: crate::merkle::tree_root(crate::merkle::leaf_hashes(keys)),
        }),
        method.marks.len() == keys.len(),
        !method.marks[i],
        crate::inclusion::writable(
            crate::inclusion::ProofView {
                digest_tag: DIGEST_SHA256,
                nodes: crate::merkle::inclusion_path(crate::merkle::leaf_hashes(keys), i),
            },
        ),
        envelope.evidence == Some(
            EvidenceView {
                public_key: keys[i],
                inclusion: crate::inclusion::proof_bytes(
                    crate::inclusion::ProofView {
                        digest_tag: DIGEST_SHA256,
                        nodes: crate::merkle::inclusion_path(crate::merkle::leaf_hashes(keys), i),
                    },
                ),
            },
        ),
    ensures
        signing_leaf(method, envelope) == Some(i as nat),
        verification_key(method, envelope) == Ok::<Seq<u8>, Error>(keys[i]),
{
    let p = crate::inclusion::ProofView {
        digest_tag: DIGEST_SHA256,
        nodes: crate::merkle::inclusion_path(crate::merkle::leaf_hashes(keys), i),
    };
    crate::inclusion::lemma_decode_encode(p);
    crate::merkle::lemma_inclusion_path_verifies(keys, i);
}

/// Whether a resolved method holds one key of 32 bytes, the public key that
/// belongs to `secret`.
pub open spec fn holds_key_of(method: Option<MethodView>, secret: Seq<u8>) -> bool {
    method matches Some(m) && m.key_data == (KeyDataView::PublicKey {
        key: ed25519_public(secret),
    }) && ed25519_public(secret).len() == 32
}

/// Whether a resolved method checks `envelope` against the public key that
/// belongs to `secret`, a key of 32 bytes: for a method over one key, that
/// the method holds that key; for a collection, that the envelope's leaf is
/// that key, is not revoked, and is proved by the envelope's inclusion proof.
pub open spec fn checks_with_key_of(
    method: Option<MethodView>,
    envelope: EnvelopeView,
    secret: Seq<u8>,
) -> bool {
    method matches Some(m) && verification_key(m, envelope) == Ok::<Seq<u8>, Error>(
        ed25519_public(secret),
    ) && ed25519_public(secret).len() == 32
}

/// A method that holds the key of a secret checks every envelope against it.
pub proof fn lemma_holder_checks(method: Option<MethodView>, envelope: EnvelopeView, secret: Seq<u8>)
    requires
        holds_key_of(method, secret),
    ensures
        checks_with_key_of(method, envelope, secret),
{
}

/// What the check of a signature answers once the key and the canonical
/// bytes are known.
pub open spec fn judged(key: Seq<u8>, bytes: Seq<u8>, signature: Seq<u8>) -> Result<(), Error> {
    if key.len() == 32 && signature.len() == 64 && ed25519_accepts(key, bytes, signature) {
        Ok(())
    } else {
        Err(Error::SignatureVerificationFailed)
    }
}

/// What verification answers: `SignatureVerificationFailed` without an
/// envelope, `MethodNotFound` where the envelope's method does not resolve,
/// the errors of `verification_key`, `EncodeError` where the body has no
/// canonical form, and then `judged`.
pub open spec fn verified(
    entries: Seq<EntryView>,
    did: Seq<u8>,
    body: Seq<u8>,
    envelope: Option<EnvelopeView>,
) -> Result<(), Error> {
    match envelope {
        None => Err(Error::SignatureVerificationFailed),
        Some(env) => match resolved(entries, did, default_scope(), env.method) {
            None => Err(Error::MethodNotFound),
            Some(m) => match verification_key(m, env) {
                Err(e) => Err(e),
                Ok(key) => match canonical_json(body) {
                    None => Err(Error::EncodeError),
                    Some(bytes) => judged(key, bytes, env.signature),
                },
            },
        },
    }
}

/// An envelope whose signature was changed, over a body and under a method
/// that the unchanged envelope verified with, gets the verdict of the
/// signature check alone: it verifies if the key accepts the new signature,
/// and fails with `SignatureVerificationFailed`, and no other error, if not.
pub proof fn lemma_changed_signature(
    entries: Seq<EntryView>,
    did: Seq<u8>,
    body: Seq<u8>,
    envelope: EnvelopeView,
    signature: Seq<u8>,
)
    requires
        verified(entries, did, body, Some(envelope)) is Ok,
    ensures
        ({
            let method = resolved(entries, did, default_scope(), envelope.method).unwrap();
            let key = verification_key(method, envelope).unwrap();
            let bytes = canonical_json(body).unwrap();
            verified(entries, did, body, Some(EnvelopeView { signature, ..envelope })) == judged(
                key,
                bytes,
                signature,
            )
        }),
        verified(entries, did, body, Some(EnvelopeView { signature, ..envelope })) is Err
            ==> verified(entries, did, body, Some(EnvelopeView { signature, ..envelope })) == Err::<
            (),
            Error,
        >(Error::SignatureVerificationFailed),
{
}

/// Two bodies with the same canonical form get the same verdict, and a
/// changed body gets the verdict of the signature check over its own
/// canonical form.
pub proof fn lemma_changed_body(
    entries: Seq<EntryView>,
    did: Seq<u8>,
    body: Seq<u8>,
    changed: Seq<u8>,
    envelope: EnvelopeView,
)
    requires
        verified(entries, did, body, Some(envelope)) is Ok,
    ensures
        canonical_json(changed) == canonical_json(body) ==> verified(
            entries,
            did,
            changed,
            Some(envelope),
        ) is Ok,
        canonical_json(changed) matches Some(bytes) ==> verified(
            entries,
            did,
            changed,
            Some(envelope),
        ) == judged(
            verification_key(
                resolved(entries, did, default_scope(), envelope.method).unwrap(),
                envelope,
            ).unwrap(),
            bytes,
            envelope.signature,
        ),
        canonical_json(changed) is None ==> verified(entries, did, changed, Some(envelope))
            == Err::<(), Error>(Error::EncodeError),
{
}

/// Checks the key material against the method; see `evidence_for`.
pub fn check_evidence(method: &VerificationMethod, key: &SigningKey) -> (r: Result<
    Option<MerkleEvidence>,
    Error,
>)
    ensures
        evidence_result_view(r) == evidence_for(method@, key@),
{
    match method.key_data() {
        KeyData::PublicKey { .. } => Ok(None),
        KeyData::Collection { digest_tag, .. } => match key {
            SigningKey::Plain { .. } => Err(Error::InvalidInclusionProof),
            SigningKey::Merkle { public, inclusion, .. } => {
                if *digest_tag != DIGEST_SHA256 {
                    return Err(Error::InvalidMerkleDigest);
                }
                match InclusionProof::decode(inclusion.as_slice()) {
                    None => Err(Error::InvalidInclusionProof),
                    Some(p) => {
                        if p.digest_tag != *digest_tag {
                            Err(Error::InvalidMerkleDigest)
                        } else {
                            Ok(
                                Some(
                                    MerkleEvidence {
                                        public_key: copy_bytes(public.as_slice()),
                                        inclusion: copy_bytes(inclusion.as_slice()),
                                    },
                                ),
                            )
                        }
                    },
                }
            },
        },
    }
}

/// Finds the key to check an envelope against; see `verification_key`.
pub fn find_verification_key(method: &VerificationMethod, envelope: &SignatureEnvelope) -> (r:
    Result<Vec<u8>, Error>)
    ensures
        bytes_result_view(r) == verification_key(method@, envelope@),
{
    match method.key_data() {
        KeyData::PublicKey { key } => Ok(copy_bytes(key.as_slice())),
        KeyData::Collection { digest_tag, root } => match &envelope.evidence {
            None => Err(Error::InvalidInclusionProof),
            Some(ev) => match InclusionProof::decode(ev.inclusion.as_slice()) {
                None => Err(Error::InvalidInclusionProof),
                Some(p) => match leaf_index(&p.nodes, method.revocation().len()) {
                    None => Err(Error::InvalidInclusionProof),
                    Some(i) => {
                        if method.revocation().is_revoked(i) {
                            Err(Error::RevokedKey)
                        } else if *digest_tag != DIGEST_SHA256 || p.digest_tag != *digest_tag {
                            Err(Error::InvalidMerkleDigest)
                        } else if !verify_inclusion(
                            root.as_slice(),
                            ev.public_key.as_slice(),
                            &p.nodes,
                        ) {
                            Err(Error::InvalidInclusionProof)
                        } else {
                            Ok(copy_bytes(ev.public_key.as_slice()))
                        }
                    },
                },
            },
        },
    }
}

/// Checks a signature over canonical bytes against a key; see `judged`.
pub fn judge(key: &[u8], bytes: &[u8], signature: &[u8]) -> (r: Result<(), Error>)
    ensures
        r == judged(key@, bytes@, signature@),
{
    if key.len() == KEY_LENGTH && signature.len() == SIGNATURE_LENGTH && accepts(
        key,
        bytes,
        signature,
    ) {
        Ok(())
    } else {
        Err(Error::SignatureVerificationFailed)
    }
}

/// Signs `body` with `method`; see `signed_by`. The signature has 64 bytes.
///
/// Where the envelope's reference resolves in `registry` to a method that
/// checks the envelope against the public key of the secret, the envelope
/// verifies over the body.
pub fn sign_with_method(
    registry: &VerificationMethodRegistry,
    did: &[u8],
    method: &VerificationMethod,
    key: &SigningKey,
    body: &[u8],
    created: u64,
) -> (r: Result<SignatureEnvelope, Error>)
    ensures
        envelope_result_view(r) == signed_by(did@, method@, key@, body@, created),
        r matches Ok(env) ==> env@.signature.len() == 64,
        r matches Ok(env) ==> checks_with_key_of(
            resolved(registry@, did@, default_scope(), env@.method),
            env@,
            secret_of(key@),
        ) ==> verified(registry@, did@, body@, Some(env@)) is Ok,
{
    let bytes: Vec<u8> = match canonicalize(body) {
        Ok(b) => b,
        Err(e) => {
            return Err(e);
        },
    };
    let evidence: Option<MerkleEvidence> = match check_evidence(method, key) {
        Ok(ev) => ev,
        Err(e) => {
            return Err(e);
        },
    };
    let secret: &[u8] = key.secret();
    if secret.len() != KEY_LENGTH {
        return Err(Error::DecodeError);
    }
    let signature: Vec<u8> = sign_message(secret, bytes.as_slice());
    let mut reference: Vec<u8> = Vec::new();
    append(&mut reference, did);
    push_text(&mut reference, "#");
    append(&mut reference, method.fragment());
    assert(reference@ =~= full_id(did@, method@.fragment));
    Ok(SignatureEnvelope { method: reference, created, signature, evidence })
}

/// Signs `body` with the method that `query` resolves to; see `signed`.
/// The signature has 64 bytes.
///
/// In a registry without two methods in one place, the envelope's reference
/// resolves to the method that signed. Where that method checks the
/// envelope against the public key of the secret, the envelope verifies
/// over the body.
pub fn sign_body(
    registry: &VerificationMethodRegistry,
    did: &[u8],
    query: &[u8],
    key: &SigningKey,
    body: &[u8],
    created: u64,
) -> (r: Result<SignatureEnvelope, Error>)
    ensures
        envelope_result_view(r) == signed(registry@, did@, query@, key@, body@, created),
        r matches Ok(env) ==> env@.signature.len() == 64,
        r matches Ok(env) ==> registry.wf() ==> resolved(
            registry@,
            did@,
            default_scope(),
            env@.method,
        ) == resolved(registry@, did@, default_scope(), query@),
        r matches Ok(env) ==> registry.wf() ==> checks_with_key_of(
            resolved(registry@, did@, default_scope(), query@),
            env@,
            secret_of(key@),
        ) ==> verified(registry@, did@, body@, Some(env@)) is Ok,
{
    match registry.resolve(did, MethodScope::default(), query) {
        Ok(method) => {
            proof {
                if registry.wf() {
                    crate::registry::lemma_reference_resolves(
                        registry@,
                        did@,
                        default_scope(),
                        query@,
                    );
                }
            }
            sign_with_method(registry, did, method, key, body, created)
        },
        Err(e) => Err(e),
    }
}

/// Reads the system clock with `SystemTime::now` of std and gives the
/// seconds since the Unix epoch, 0 for a clock set before it. Nothing is
/// claimed of the result.
#[verifier::external_body]
pub(crate) fn unix_seconds() -> (seconds: u64) {
    std::time::SystemTime::now().duration_since(std::time::UNIX_EPOCH).map_or(0, |d| d.as_secs())
}

/// Checks the envelope over `body`; see `verified`.
pub fn verify_body(
    registry: &VerificationMethodRegistry,
    did: &[u8],
    body: &[u8],
    envelope: Option<&SignatureEnvelope>,
) -> (r: Result<(), Error>)
    ensures
        r == verified(
            registry@,
            did@,
            body@,
            match envelope {
                Some(env) => Some(env@),
                None => None,
            },
        ),
{
    let env: &SignatureEnvelope = match envelope {
        Some(e) => e,
        None => {
            return Err(Error::SignatureVerificationFailed);
        },
    };
    let method: &VerificationMethod = match registry.resolve(
        did,
        MethodScope::default(),
        env.method.as_slice(),
    ) {
        Ok(m) => m,
        Err(e) => {
            return Err(e);
        },
    };
    let key: Vec<u8> = match find_verification_key(method, env) {
        Ok(k) => k,
        Err(e) => {
            return Err(e);
        },
    };
    let bytes: Vec<u8> = match canonicalize(body) {
        Ok(b) => b,
        Err(e) => {
            return Err(e);
        },
    };
    judge(key.as_slice(), bytes.as_slice(), env.signature.as_slice())
}

} // verus!
