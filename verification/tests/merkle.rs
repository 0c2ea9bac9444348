use identity::collection::{MerkleKeyCollection, Revocation};
use identity::document::{Document, Payload};
use identity::ed25519::KeyPair;
use identity::error::Error;
use identity::inclusion::{InclusionProof, DIGEST_SHA256};
use identity::merkle::{climb_from_key, leaf_index, tree_shape, verify_inclusion, ProofNode};
use identity::method::{KeyData, MethodScope, VerificationMethod};
use identity::signature::{check_evidence, MerkleEvidence, SigningKey};

fn hex(bytes: &[u8]) -> String {
    bytes.iter().map(|b| format!("{:02x}", b)).collect()
}

fn sha256(data: &[u8]) -> Vec<u8> {
    let mut out = [0u8; 32];
    crypto::hashes::sha::SHA256(data, &mut out);
    out.to_vec()
}

fn leaf(key: &[u8]) -> Vec<u8> {
    let mut input = vec![0u8];
    input.extend_from_slice(key);
    sha256(&input)
}

fn node(left: &[u8], right: &[u8]) -> Vec<u8> {
    let mut input = vec![1u8];
    input.extend_from_slice(left);
    input.extend_from_slice(right);
    sha256(&input)
}

fn pairs(n: usize) -> Vec<KeyPair> {
    (0..n).map(|i| KeyPair::from_secret(&[i as u8 + 1; 32]).unwrap()).collect()
}

fn collection_of(pairs: &[KeyPair]) -> MerkleKeyCollection {
    MerkleKeyCollection::build(pairs.iter().map(|p| p.public().to_vec()).collect())
}

struct Setup {
    owner: KeyPair,
    leaves: Vec<KeyPair>,
    collection: MerkleKeyCollection,
    doc: Document,
    query: Vec<u8>,
}

fn setup(n: usize) -> Setup {
    let owner = KeyPair::new_ed25519().unwrap();
    let leaves = pairs(n);
    let collection = collection_of(&leaves);
    let mut doc = Document::from_keypair(&owner);
    let method = VerificationMethod::from_collection(b"keys", &collection);
    assert!(doc.insert_scoped(MethodScope::VerificationMethod, method));
    let mut query = doc.id().to_vec();
    query.extend_from_slice(b"#keys");
    Setup { owner, leaves, collection, doc, query }
}

fn leaf_key(s: &Setup, index: usize) -> SigningKey {
    SigningKey::Merkle {
        public: s.leaves[index].public().to_vec(),
        secret: s.leaves[index].secret().to_vec(),
        inclusion: s.collection.prove(index).ok().unwrap().encode().unwrap(),
    }
}

fn signed_by_leaf(s: &Setup, index: usize) -> Payload {
    let mut payload = Payload { body: b"{\"claim\":true}".to_vec(), envelope: None };
    s.doc.sign_data(&mut payload, &s.query, &leaf_key(s, index)).unwrap();
    payload
}

#[test]
fn tree_shapes() {
    assert_eq!(tree_shape(0), (0, 1));
    assert_eq!(tree_shape(1), (0, 1));
    assert_eq!(tree_shape(2), (1, 2));
    assert_eq!(tree_shape(3), (2, 4));
    assert_eq!(tree_shape(4), (2, 4));
    assert_eq!(tree_shape(5), (3, 8));
    assert_eq!(tree_shape(1025), (11, 2048));
}

#[test]
fn root_of_one_empty_key_is_its_leaf_digest() {
    let c = MerkleKeyCollection::build(vec![Vec::new()]);
    assert_eq!(hex(c.root()), "6e340b9cffb37a989ca544e6bb780a2c78901d3fb33738768511a30617afa01d");
    let p = c.prove(0).ok().unwrap();
    assert!(p.nodes.is_empty());
    assert!(verify_inclusion(c.root(), b"", &p.nodes));
}

#[test]
fn root_of_three_keys_pads_with_the_filler() {
    let keys: Vec<Vec<u8>> = vec![b"a".to_vec(), b"b".to_vec(), b"c".to_vec()];
    let c = MerkleKeyCollection::build(keys);
    let left = node(&leaf(b"a"), &leaf(b"b"));
    let right = node(&leaf(b"c"), &[0u8; 32]);
    assert_eq!(c.root(), &node(&left, &right)[..]);
    assert_eq!(c.len(), 3);
    assert_eq!(c.key(2), Some(&b"c"[..]));
    assert_eq!(c.key(3), None);
}

#[test]
fn proof_of_leaf_two_of_four_has_exact_nodes() {
    let keys: Vec<Vec<u8>> = vec![b"a".to_vec(), b"b".to_vec(), b"c".to_vec(), b"d".to_vec()];
    let c = MerkleKeyCollection::build(keys);
    let p = c.prove(2).ok().unwrap();
    assert_eq!(p.digest_tag, DIGEST_SHA256);
    assert_eq!(p.nodes.len(), 2);
    assert!(!p.nodes[0].left);
    assert_eq!(p.nodes[0].digest, leaf(b"d"));
    assert!(p.nodes[1].left);
    assert_eq!(p.nodes[1].digest, node(&leaf(b"a"), &leaf(b"b")));
    assert_eq!(leaf_index(&p.nodes, 4), Some(2));
    assert_eq!(leaf_index(&p.nodes, 3), Some(2));
    assert_eq!(leaf_index(&p.nodes, 2), None);
    assert_eq!(leaf_index(&p.nodes, 5), None);
    assert_eq!(climb_from_key(b"c", &p.nodes), c.root().to_vec());
}

#[test]
fn every_leaf_is_proved_by_its_proof() {
    for n in 1..=9usize {
        let keys: Vec<Vec<u8>> = (0..n).map(|i| vec![i as u8; 32]).collect();
        let c = MerkleKeyCollection::build(keys.clone());
        for i in 0..n {
            let p = c.prove(i).ok().unwrap();
            assert!(verify_inclusion(c.root(), &keys[i], &p.nodes), "n={} i={}", n, i);
            assert_eq!(leaf_index(&p.nodes, n), Some(i));
        }
        assert!(matches!(c.prove(n), Err(Error::InvalidKeyIndex)));
    }
}

#[test]
fn foreign_key_or_tampered_proof_is_not_included() {
    let keys: Vec<Vec<u8>> = (0..5u8).map(|i| vec![i; 32]).collect();
    let c = MerkleKeyCollection::build(keys.clone());
    let p = c.prove(3).ok().unwrap();
    assert!(verify_inclusion(c.root(), &keys[3], &p.nodes));
    assert!(!verify_inclusion(c.root(), &[9u8; 32], &p.nodes));
    assert!(!verify_inclusion(c.root(), &keys[2], &p.nodes));

    let mut flipped = p.duplicate();
    flipped.nodes[0].left = !flipped.nodes[0].left;
    assert!(!verify_inclusion(c.root(), &keys[3], &flipped.nodes));

    let mut other = p.duplicate();
    other.nodes[1].digest[0] ^= 1;
    assert!(!verify_inclusion(c.root(), &keys[3], &other.nodes));

    let mut shorter = p.duplicate();
    shorter.nodes.pop();
    assert!(!verify_inclusion(c.root(), &keys[3], &shorter.nodes));

    let mut root = c.root().to_vec();
    root[31] ^= 0x80;
    assert!(!verify_inclusion(&root, &keys[3], &p.nodes));
}

#[test]
fn proof_bytes_have_exact_layout() {
    let keys: Vec<Vec<u8>> = vec![b"a".to_vec(), b"b".to_vec(), b"c".to_vec(), b"d".to_vec()];
    let c = MerkleKeyCollection::build(keys);
    let bytes = c.prove(2).ok().unwrap().encode().unwrap();
    assert_eq!(bytes.len(), 3 + 2 * 33);
    assert_eq!(&bytes[..3], &[0u8, 0, 2]);
    assert_eq!(bytes[3], 0);
    assert_eq!(&bytes[4..36], &leaf(b"d")[..]);
    assert_eq!(bytes[36], 1);
    assert_eq!(&bytes[37..69], &node(&leaf(b"a"), &leaf(b"b"))[..]);
}

#[test]
fn proof_bytes_round_trip() {
    let keys: Vec<Vec<u8>> = (0..7u8).map(|i| vec![i; 4]).collect();
    let c = MerkleKeyCollection::build(keys);
    for i in 0..7 {
        let p = c.prove(i).ok().unwrap();
        let back = InclusionProof::decode(&p.encode().unwrap()).unwrap();
        assert_eq!(back.digest_tag, p.digest_tag);
        assert_eq!(back.nodes.len(), p.nodes.len());
        for (a, b) in back.nodes.iter().zip(p.nodes.iter()) {
            assert_eq!(a.left, b.left);
            assert_eq!(a.digest, b.digest);
        }
        assert_eq!(back.encode(), p.encode());
    }
    let empty = InclusionProof { digest_tag: 7, nodes: Vec::new() };
    assert_eq!(empty.encode().unwrap(), vec![7u8, 0, 0]);
}

#[test]
fn malformed_proof_bytes_do_not_decode() {
    assert!(InclusionProof::decode(&[]).is_none());
    assert!(InclusionProof::decode(&[0, 0]).is_none());
    assert!(InclusionProof::decode(&[0, 0, 1]).is_none());
    assert!(InclusionProof::decode(&[0, 0, 0, 0]).is_none());
    let mut one = vec![0u8, 0, 1];
    one.push(2);
    one.extend_from_slice(&[0u8; 32]);
    assert!(InclusionProof::decode(&one).is_none());
    one[3] = 1;
    let p = InclusionProof::decode(&one).unwrap();
    assert!(p.nodes[0].left);
    assert_eq!(p.nodes[0].digest, vec![0u8; 32]);
    let with_tag = InclusionProof::decode(&[9, 0, 0]).unwrap();
    assert_eq!(with_tag.digest_tag, 9);
}

#[test]
fn revocation_marks() {
    let mut r = Revocation::new(3);
    assert_eq!(r.len(), 3);
    assert!(!r.is_revoked(1));
    assert_eq!(r.revoke(1), Ok(true));
    assert_eq!(r.revoke(1), Ok(false));
    assert!(r.is_revoked(1));
    assert!(!r.is_revoked(0));
    assert!(!r.is_revoked(3));
    assert_eq!(r.revoke(3), Err(Error::InvalidKeyIndex));
    let copy = r.duplicate();
    assert!(copy.same(&r));
    assert!(!copy.same(&Revocation::new(3)));
}

#[test]
fn revoking_a_leaf_keeps_the_root() {
    let leaves = pairs(4);
    let mut c = collection_of(&leaves);
    let root = c.root().to_vec();
    assert_eq!(c.revoke(2), Ok(true));
    assert_eq!(c.revoke(2), Ok(false));
    assert_eq!(c.revoke(4), Err(Error::InvalidKeyIndex));
    assert!(c.is_revoked(2));
    assert!(!c.is_revoked(1));
    assert_eq!(c.root(), &root[..]);
    let p = c.prove(1).ok().unwrap();
    assert!(verify_inclusion(c.root(), leaves[1].public(), &p.nodes));
}

#[test]
fn collection_method_holds_root_and_tag() {
    let s = setup(4);
    let method = s.doc.resolve_key(&s.query).ok().unwrap();
    match method.key_data() {
        KeyData::Collection { digest_tag, root } => {
            assert_eq!(*digest_tag, DIGEST_SHA256);
            assert_eq!(&root[..], s.collection.root());
        },
        KeyData::PublicKey { .. } => panic!("a collection was expected"),
    }
    assert_eq!(method.revocation().len(), 4);
}

#[test]
fn sign_with_leaf_two_then_revoke_it() {
    let mut s = setup(4);
    let by_two = signed_by_leaf(&s, 2);
    let by_one = signed_by_leaf(&s, 1);
    assert_eq!(s.doc.verify_data(&by_two), Ok(()));
    assert_eq!(s.doc.verify_data(&by_one), Ok(()));

    let env = by_two.envelope.as_ref().unwrap();
    let evidence = env.evidence.as_ref().unwrap();
    assert_eq!(evidence.public_key, s.leaves[2].public().to_vec());
    assert_eq!(evidence.inclusion, s.collection.prove(2).ok().unwrap().encode().unwrap());

    assert_eq!(s.doc.revoke_merkle_key(&s.query, 2), Ok(true));
    assert_eq!(s.doc.verify_data(&by_two), Err(Error::RevokedKey));
    assert_eq!(s.doc.verify_data(&by_one), Ok(()));
    assert_eq!(s.doc.revoke_merkle_key(&s.query, 2), Ok(false));
    assert_eq!(s.doc.revoke_merkle_key(&s.query, 4), Err(Error::InvalidKeyIndex));
    assert_eq!(s.doc.revoke_merkle_key(b"#nothing", 0), Err(Error::MethodNotFound));
    assert_eq!(s.doc.revoke_merkle_key(b"#authentication", 0), Err(Error::InvalidKeyIndex));
    let _ = &s.owner;
}

#[test]
fn revoked_leaf_fails_before_the_signature_is_looked_at() {
    let mut s = setup(4);
    let mut payload = signed_by_leaf(&s, 3);
    payload.envelope.as_mut().unwrap().signature[0] ^= 1;
    assert_eq!(s.doc.verify_data(&payload), Err(Error::SignatureVerificationFailed));
    s.doc.revoke_merkle_key(&s.query, 3).unwrap();
    assert_eq!(s.doc.verify_data(&payload), Err(Error::RevokedKey));
}

#[test]
fn leaf_signature_with_foreign_key_is_no_inclusion() {
    let s = setup(4);
    let stranger = KeyPair::new_ed25519().unwrap();
    let key = SigningKey::Merkle {
        public: stranger.public().to_vec(),
        secret: stranger.secret().to_vec(),
        inclusion: s.collection.prove(0).ok().unwrap().encode().unwrap(),
    };
    let mut payload = Payload { body: b"{}".to_vec(), envelope: None };
    s.doc.sign_data(&mut payload, &s.query, &key).unwrap();
    assert_eq!(s.doc.verify_data(&payload), Err(Error::InvalidInclusionProof));
}

#[test]
fn leaf_signature_errors() {
    let s = setup(4);
    let mut payload = Payload { body: b"{}".to_vec(), envelope: None };

    let plain = SigningKey::Plain { secret: s.leaves[0].secret().to_vec() };
    assert_eq!(s.doc.sign_data(&mut payload, &s.query, &plain), Err(Error::InvalidInclusionProof));

    let garbage = SigningKey::Merkle {
        public: s.leaves[0].public().to_vec(),
        secret: s.leaves[0].secret().to_vec(),
        inclusion: vec![0, 0, 5, 1, 2, 3],
    };
    assert_eq!(s.doc.sign_data(&mut payload, &s.query, &garbage), Err(Error::InvalidInclusionProof));

    let mut other_digest = s.collection.prove(0).ok().unwrap().encode().unwrap();
    other_digest[0] = 1;
    let mismatch = SigningKey::Merkle {
        public: s.leaves[0].public().to_vec(),
        secret: s.leaves[0].secret().to_vec(),
        inclusion: other_digest,
    };
    assert_eq!(s.doc.sign_data(&mut payload, &s.query, &mismatch), Err(Error::InvalidMerkleDigest));
    assert!(payload.envelope.is_none());

    let method = s.doc.resolve_key(&s.query).ok().unwrap();
    let ok = check_evidence(&method, &leaf_key(&s, 1)).ok().unwrap().unwrap();
    assert_eq!(ok.public_key, s.leaves[1].public().to_vec());
}

#[test]
fn envelope_evidence_errors_on_verify() {
    let s = setup(4);
    let good = signed_by_leaf(&s, 0);

    let mut none = Payload { body: good.body.clone(), envelope: Some(good.envelope.as_ref().unwrap().duplicate()) };
    none.envelope.as_mut().unwrap().evidence = None;
    assert_eq!(s.doc.verify_data(&none), Err(Error::InvalidInclusionProof));

    let mut tag = Payload { body: good.body.clone(), envelope: Some(good.envelope.as_ref().unwrap().duplicate()) };
    tag.envelope.as_mut().unwrap().evidence.as_mut().unwrap().inclusion[0] = 3;
    assert_eq!(s.doc.verify_data(&tag), Err(Error::InvalidMerkleDigest));

    let mut cut = Payload { body: good.body.clone(), envelope: Some(good.envelope.as_ref().unwrap().duplicate()) };
    cut.envelope.as_mut().unwrap().evidence = Some(MerkleEvidence {
        public_key: s.leaves[0].public().to_vec(),
        inclusion: vec![0, 0, 0],
    });
    assert_eq!(s.doc.verify_data(&cut), Err(Error::InvalidInclusionProof));

    let mut swapped = Payload { body: good.body.clone(), envelope: Some(good.envelope.as_ref().unwrap().duplicate()) };
    swapped.envelope.as_mut().unwrap().evidence.as_mut().unwrap().inclusion =
        s.collection.prove(1).ok().unwrap().encode().unwrap();
    assert_eq!(s.doc.verify_data(&swapped), Err(Error::InvalidInclusionProof));
}

#[test]
fn proof_that_cannot_be_written_is_not_encoded() {
    let short = InclusionProof { digest_tag: 0, nodes: vec![ProofNode { left: false, digest: vec![1; 31] }] };
    assert!(!short.is_writable());
    assert_eq!(short.encode(), None);
    let fine = InclusionProof { digest_tag: 0, nodes: vec![ProofNode { left: false, digest: vec![1; 32] }] };
    assert!(fine.is_writable());
    assert_eq!(fine.encode().unwrap().len(), 36);
}

#[test]
fn proof_node_values() {
    let n = ProofNode { left: true, digest: vec![1, 2, 3] };
    assert!(n.left);
    assert_eq!(n.digest, vec![1, 2, 3]);
}
