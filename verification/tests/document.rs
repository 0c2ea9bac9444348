use identity::codec::{canonicalize, ToJson};
use identity::document::{Document, Payload};
use identity::ed25519::{KeyPair, KeyType};
use identity::error::Error;
use identity::collection::Revocation;
use identity::method::{KeyData, MethodScope, VerificationMethod};
use identity::signature::{SignatureEnvelope, SigningKey};

const SECRET: [u8; 32] = [
    0x9d, 0x61, 0xb1, 0x9d, 0xef, 0xfd, 0x5a, 0x60, 0xba, 0x84, 0x4a, 0xf4, 0x92, 0xec, 0x2c, 0xc4,
    0x44, 0x49, 0xc5, 0x69, 0x7b, 0x32, 0x69, 0x19, 0x70, 0x3b, 0xac, 0x03, 0x1c, 0xae, 0x7f, 0x60,
];

const PUBLIC_HEX: &str = "d75a980182b10ab7d54bfed3c964073a0ee172f3daa62325af021a68f707511a";

fn hex(bytes: &[u8]) -> String {
    bytes.iter().map(|b| format!("{:02x}", b)).collect()
}

fn sha256(data: &[u8]) -> [u8; 32] {
    let mut out = [0u8; 32];
    crypto::hashes::sha::SHA256(data, &mut out);
    out
}

fn known_pair() -> KeyPair {
    KeyPair::from_secret(&SECRET).unwrap()
}

fn with_envelope(doc: &Document, envelope: Option<SignatureEnvelope>) -> Document {
    Document::from_parts(doc.id().to_vec(), doc.created(), doc.methods().duplicate(), envelope)
}

#[test]
fn test_document() {
    let keypair: KeyPair = KeyPair::new_ed25519().unwrap();

    let mut document: Document = Document::from_keypair(&keypair);
    document.sign(keypair.secret()).unwrap();
    assert_eq!(document.verify().unwrap(), ());
}

#[test]
fn key_pair_from_known_secret_has_known_public_key() {
    let pair = known_pair();
    assert_eq!(hex(pair.public()), PUBLIC_HEX);
    assert_eq!(pair.secret(), &SECRET[..]);
    assert_eq!(pair.key_type(), KeyType::Ed25519);
}

#[test]
fn key_pair_rejects_secret_of_wrong_length() {
    assert!(matches!(KeyPair::from_secret(&SECRET[..31]), Err(Error::DecodeError)));
    assert!(matches!(KeyPair::from_secret(&[]), Err(Error::DecodeError)));
}

#[test]
fn fresh_key_pairs_differ() {
    let a = KeyPair::new(KeyType::Ed25519).unwrap();
    let b = KeyPair::new(KeyType::Ed25519).unwrap();
    assert_eq!(a.secret().len(), 32);
    assert_eq!(a.public().len(), 32);
    assert_ne!(a.secret(), b.secret());
}

#[test]
fn document_identifier_is_digest_of_key() {
    let pair = known_pair();
    let doc = Document::from_keypair(&pair);
    let expected = format!("did:iota:{}", hex(&sha256(pair.public())));
    assert_eq!(doc.id(), expected.as_bytes());
}

#[test]
fn document_json_has_exact_text() {
    let pair = known_pair();
    let method = VerificationMethod::from_keypair(&pair, None);
    let doc = Document::from_authentication_at(method, 5);
    let id = format!("did:iota:{}", hex(&sha256(pair.public())));
    let expected = format!(
        "{{\"id\":\"{}\",\"created\":5,\"methods\":[{{\"scope\":\"Authentication\",\"method\":{{\"fragment\":\"authentication\",\"type\":\"Ed25519VerificationKey2018\",\"publicKeyHex\":\"{}\"}}}}]}}",
        id, PUBLIC_HEX
    );
    assert_eq!(String::from_utf8(doc.to_json_vec()).unwrap(), expected);
    assert_eq!(doc.signing_body(), expected.as_bytes());
    assert!(doc.envelope().is_none());
}

#[test]
fn signed_document_json_carries_envelope() {
    let pair = known_pair();
    let mut doc = Document::from_authentication_at(VerificationMethod::from_keypair(&pair, None), 5);
    doc.sign_at(pair.secret(), 77).unwrap();
    let text = String::from_utf8(doc.to_json_vec()).unwrap();
    let env = doc.envelope().unwrap();
    let tail = format!(
        ",\"proof\":{{\"verificationMethod\":\"{}#authentication\",\"created\":77,\"signatureValue\":\"{}\"}}}}",
        String::from_utf8(doc.id().to_vec()).unwrap(),
        hex(&env.signature)
    );
    assert!(text.ends_with(&tail));
    assert_eq!(env.created, 77);
    assert_eq!(env.signature.len(), 64);
    assert!(env.evidence.is_none());
}

#[test]
fn signature_is_over_canonical_body_and_checks_independently() {
    let pair = known_pair();
    let mut doc = Document::from_authentication_at(VerificationMethod::from_keypair(&pair, None), 5);
    doc.sign_at(pair.secret(), 77).unwrap();
    let canonical = canonicalize(&doc.signing_body()).unwrap();
    let mut key = [0u8; 32];
    key.copy_from_slice(pair.public());
    let mut sig = [0u8; 64];
    sig.copy_from_slice(&doc.envelope().unwrap().signature);
    let public = crypto::signatures::ed25519::PublicKey::try_from_bytes(key).unwrap();
    let signature = crypto::signatures::ed25519::Signature::from_bytes(sig);
    assert!(public.verify(&signature, &canonical));
    assert!(!public.verify(&signature, b"something else"));
}

#[test]
fn sign_sets_a_recent_creation_time() {
    let pair = KeyPair::new_ed25519().unwrap();
    let mut doc = Document::from_keypair(&pair);
    assert!(doc.created() > 1_600_000_000);
    doc.sign(pair.secret()).unwrap();
    assert!(doc.envelope().unwrap().created >= doc.created());
}

#[test]
fn flipping_a_signature_bit_fails_verification() {
    let pair = KeyPair::new_ed25519().unwrap();
    let mut doc = Document::from_keypair(&pair);
    doc.sign(pair.secret()).unwrap();
    assert_eq!(doc.verify(), Ok(()));
    assert!(doc.is_verified());

    let mut envelope = doc.envelope().unwrap().duplicate();
    envelope.signature[10] ^= 0x01;
    let tampered = with_envelope(&doc, Some(envelope));
    assert_eq!(tampered.verify(), Err(Error::SignatureVerificationFailed));
    assert!(!tampered.is_verified());
}

#[test]
fn changing_the_document_after_signing_fails_verification() {
    let pair = KeyPair::new_ed25519().unwrap();
    let mut doc = Document::from_keypair(&pair);
    doc.sign(pair.secret()).unwrap();
    let other = KeyPair::new_ed25519().unwrap();
    let added = VerificationMethod::from_keypair(&other, Some(b"extra"));
    assert!(doc.insert_scoped(MethodScope::KeyAgreement, added));
    assert_eq!(doc.verify(), Err(Error::SignatureVerificationFailed));
}

#[test]
fn unsigned_document_does_not_verify() {
    let pair = KeyPair::new_ed25519().unwrap();
    let doc = Document::from_keypair(&pair);
    assert_eq!(doc.verify(), Err(Error::SignatureVerificationFailed));
}

#[test]
fn signature_with_a_truncated_value_fails() {
    let pair = KeyPair::new_ed25519().unwrap();
    let mut doc = Document::from_keypair(&pair);
    doc.sign(pair.secret()).unwrap();
    let mut envelope = doc.envelope().unwrap().duplicate();
    envelope.signature.pop();
    assert_eq!(with_envelope(&doc, Some(envelope)).verify(), Err(Error::SignatureVerificationFailed));
}

#[test]
fn envelope_of_unknown_method_is_not_found() {
    let pair = KeyPair::new_ed25519().unwrap();
    let mut doc = Document::from_keypair(&pair);
    doc.sign(pair.secret()).unwrap();
    let mut envelope = doc.envelope().unwrap().duplicate();
    envelope.method = b"did:iota:nobody#authentication".to_vec();
    assert_eq!(with_envelope(&doc, Some(envelope)).verify(), Err(Error::MethodNotFound));
}

#[test]
fn sign_with_wrong_length_secret_is_decode_error() {
    let pair = KeyPair::new_ed25519().unwrap();
    let mut doc = Document::from_keypair(&pair);
    assert_eq!(doc.sign(&[1u8; 31]), Err(Error::DecodeError));
    assert!(doc.envelope().is_none());
}

#[test]
fn sign_with_another_secret_does_not_verify() {
    let pair = KeyPair::new_ed25519().unwrap();
    let other = KeyPair::new_ed25519().unwrap();
    let mut doc = Document::from_keypair(&pair);
    doc.sign(other.secret()).unwrap();
    assert_eq!(doc.verify(), Err(Error::SignatureVerificationFailed));
}

#[test]
fn sign_without_authentication_method_is_not_found() {
    let pair = KeyPair::new_ed25519().unwrap();
    let mut doc = Document::from_keypair(&pair);
    doc.remove_method(b"#authentication").unwrap();
    assert_eq!(doc.methods().len(), 0);
    assert_eq!(doc.sign(pair.secret()), Err(Error::MethodNotFound));
}

#[test]
fn new_document_comes_with_its_key() {
    let made = Document::new(KeyType::Ed25519, Some(b"key-1")).ok().unwrap();
    let pair = made.key();
    let mut doc = made.doc();
    assert_eq!(doc.methods().len(), 1);
    let method = doc.resolve_key(b"#key-1").ok().unwrap();
    assert_eq!(method.fragment(), b"key-1");
    doc.sign(pair.secret()).unwrap();
    assert_eq!(doc.verify(), Ok(()));
}

#[test]
fn insert_method_parses_the_scope() {
    let pair = KeyPair::new_ed25519().unwrap();
    let mut doc = Document::from_keypair(&pair);
    let other = KeyPair::new_ed25519().unwrap();
    let m = || VerificationMethod::from_keypair(&other, Some(b"second"));
    assert_eq!(doc.insert_method(m(), Some(b"AssertionMethod")), Ok(true));
    assert_eq!(doc.insert_method(m(), Some(b"AssertionMethod")), Ok(false));
    assert_eq!(doc.insert_method(m(), Some(b"KeyAgreement")), Ok(true));
    assert_eq!(doc.insert_method(m(), Some(b"assertionMethod")), Err(Error::InvalidScope));
    assert_eq!(doc.insert_method(m(), Some(b"")), Err(Error::InvalidScope));
    assert_eq!(doc.insert_method(m(), None), Err(Error::InvalidScope));
    assert_eq!(doc.methods().len(), 3);
}

#[test]
fn remove_method_fails_when_absent() {
    let pair = KeyPair::new_ed25519().unwrap();
    let mut doc = Document::from_keypair(&pair);
    let before = doc.to_json_vec();
    assert_eq!(doc.remove_method(b"#missing"), Err(Error::MethodNotFound));
    assert_eq!(doc.to_json_vec(), before);
    let mut full = doc.id().to_vec();
    full.extend_from_slice(b"#authentication");
    assert_eq!(doc.remove_method(&full), Ok(()));
    assert_eq!(doc.methods().len(), 0);
}

#[test]
fn sign_data_then_verify_data() {
    let pair = KeyPair::new_ed25519().unwrap();
    let doc = Document::from_keypair(&pair);
    let mut payload = Payload { body: b"{\"name\":\"alice\",\"age\":30}".to_vec(), envelope: None };
    let key = SigningKey::Plain { secret: pair.secret().to_vec() };
    assert_eq!(doc.sign_data(&mut payload, b"#authentication", &key), Ok(()));
    assert_eq!(doc.verify_data(&payload), Ok(()));

    let env = payload.envelope.as_ref().unwrap();
    let mut reference = doc.id().to_vec();
    reference.extend_from_slice(b"#authentication");
    assert_eq!(env.method, reference);

    // The same properties in another order and with other spacing are the same payload.
    let reordered = Payload {
        body: b"{ \"age\": 30, \"name\": \"alice\" }".to_vec(),
        envelope: Some(env.duplicate()),
    };
    assert_eq!(doc.verify_data(&reordered), Ok(()));

    // Another value is another payload.
    let changed = Payload {
        body: b"{\"name\":\"alice\",\"age\":31}".to_vec(),
        envelope: Some(env.duplicate()),
    };
    assert_eq!(doc.verify_data(&changed), Err(Error::SignatureVerificationFailed));
}

#[test]
fn sign_data_replaces_an_earlier_envelope() {
    let pair = KeyPair::new_ed25519().unwrap();
    let doc = Document::from_keypair(&pair);
    let key = SigningKey::Plain { secret: pair.secret().to_vec() };
    let mut payload = Payload { body: b"{}".to_vec(), envelope: None };
    doc.sign_data_at(&mut payload, b"authentication", &key, 1).unwrap();
    assert_eq!(payload.envelope.as_ref().unwrap().created, 1);
    doc.sign_data_at(&mut payload, b"authentication", &key, 2).unwrap();
    assert_eq!(payload.envelope.as_ref().unwrap().created, 2);
    assert_eq!(doc.verify_data(&payload), Ok(()));
}

#[test]
fn sign_data_errors() {
    let pair = KeyPair::new_ed25519().unwrap();
    let doc = Document::from_keypair(&pair);
    let key = SigningKey::Plain { secret: pair.secret().to_vec() };

    let mut payload = Payload { body: b"{}".to_vec(), envelope: None };
    assert_eq!(doc.sign_data(&mut payload, b"#nobody", &key), Err(Error::MethodNotFound));
    assert!(payload.envelope.is_none());

    let mut broken = Payload { body: b"{\"open\":".to_vec(), envelope: None };
    assert_eq!(doc.sign_data(&mut broken, b"#authentication", &key), Err(Error::EncodeError));
    assert!(broken.envelope.is_none());

    let short = SigningKey::Plain { secret: vec![7u8; 5] };
    assert_eq!(doc.sign_data(&mut payload, b"#authentication", &short), Err(Error::DecodeError));
}

#[test]
fn verify_data_of_body_that_is_no_json_is_encode_error() {
    let pair = KeyPair::new_ed25519().unwrap();
    let doc = Document::from_keypair(&pair);
    let key = SigningKey::Plain { secret: pair.secret().to_vec() };
    let mut payload = Payload { body: b"{}".to_vec(), envelope: None };
    doc.sign_data(&mut payload, b"#authentication", &key).unwrap();
    payload.body = b"not json".to_vec();
    assert_eq!(doc.verify_data(&payload), Err(Error::EncodeError));
}

#[test]
fn verify_data_without_envelope_fails() {
    let pair = KeyPair::new_ed25519().unwrap();
    let doc = Document::from_keypair(&pair);
    let payload = Payload { body: b"{}".to_vec(), envelope: None };
    assert_eq!(doc.verify_data(&payload), Err(Error::SignatureVerificationFailed));
}

#[test]
fn clone_is_equal_in_text() {
    let pair = KeyPair::new_ed25519().unwrap();
    let mut doc = Document::from_keypair(&pair);
    doc.sign(pair.secret()).unwrap();
    let copy = doc.clone();
    assert_eq!(copy.to_json_vec(), doc.to_json_vec());
    assert_eq!(copy.verify(), Ok(()));
}

#[test]
fn error_messages() {
    assert_eq!(Error::MethodNotFound.message(), "verification method not found");
    assert_eq!(Error::RevokedKey.message(), "key revoked");
    assert_eq!(Error::InvalidMerkleDigest.message(), "invalid Merkle key digest");
    assert_eq!(Error::InvalidInclusionProof.message(), "invalid public key proof");
    assert_eq!(Error::StrongholdProcedureFailure.message(), "stronghold procedure failure");
}

#[test]
fn signature_verifies_when_another_scope_shares_the_fragment() {
    let owner = KeyPair::new_ed25519().unwrap();
    let other = KeyPair::new_ed25519().unwrap();
    let signer = KeyPair::new_ed25519().unwrap();
    let mut doc = Document::from_keypair(&owner);
    assert!(doc.insert_scoped(
        MethodScope::VerificationMethod,
        VerificationMethod::from_keypair(&other, Some(b"k1"))
    ));
    assert!(doc.insert_scoped(MethodScope::Authentication, VerificationMethod::from_keypair(&signer, Some(b"k1"))));
    doc.remove_method(b"#authentication").unwrap();
    assert_eq!(doc.methods().len(), 2);
    assert_eq!(doc.methods().get(0).unwrap().scope, MethodScope::VerificationMethod);

    // The document is signed by the method under authentication, and its
    // reference is read as that method although an earlier entry shares it.
    doc.sign(signer.secret()).unwrap();
    assert_eq!(doc.verify(), Ok(()));
    let found = doc.resolve_key(&doc.envelope().unwrap().method).ok().unwrap();
    assert!(found.same(&VerificationMethod::from_keypair(&signer, Some(b"k1"))));

    let mut unsigned = doc.clone();
    unsigned.sign(other.secret()).unwrap();
    assert_eq!(unsigned.verify(), Err(Error::SignatureVerificationFailed));

    let target = Document::from_keypair(&owner);
    let diff = doc.diff(&target, b"back", signer.secret()).ok().unwrap();
    let mut merged = doc.clone();
    assert_eq!(merged.merge(&diff), Ok(()));
    assert_eq!(merged.methods().len(), 1);
}

#[test]
fn single_key_method_has_no_leaf_to_revoke() {
        let method = VerificationMethod::from_parts(
        b"k".to_vec(),
        KeyData::PublicKey { key: vec![1u8; 32] },
        Revocation::from_marks(vec![false, false]),
    );
    let mut alone = method.clone();
    assert_eq!(alone.revoke_merkle_key(0), Err(Error::InvalidKeyIndex));
    assert!(alone.same(&method));

    let mut doc = Document::from_authentication_at(method, 3);
    let before = doc.to_json_vec();
    assert_eq!(doc.revoke_merkle_key(b"#k", 0), Err(Error::InvalidKeyIndex));
    assert_eq!(doc.revoke_merkle_key(b"#k", 1), Err(Error::InvalidKeyIndex));
    assert_eq!(doc.to_json_vec(), before);
    assert!(!doc.resolve_key(b"#k").ok().unwrap().revocation().is_revoked(0));
}
