use identity::codec::ToJson;
use identity::diff::{compute_patch, DiffRecord};
use identity::document::Document;
use identity::ed25519::KeyPair;
use identity::error::Error;
use identity::method::{MethodScope, VerificationMethod};
use identity::patch::{apply_op, apply_ops, PatchOp};
use identity::registry::{Entry, VerificationMethodRegistry};
use identity::signature::{sign_body, SigningKey};

fn method(fragment: &[u8], fill: u8) -> VerificationMethod {
    VerificationMethod::from_public_key(fragment, &[fill; 32])
}

fn registry(entries: &[(MethodScope, &[u8], u8)]) -> VerificationMethodRegistry {
    let mut r = VerificationMethodRegistry::new();
    for (scope, fragment, fill) in entries {
        assert!(r.insert(*scope, method(fragment, *fill)));
    }
    r
}

fn text(r: &VerificationMethodRegistry) -> String {
    let mut out = Vec::new();
    r.write_json(&mut out);
    String::from_utf8(out).unwrap()
}

fn describe(ops: &[PatchOp]) -> Vec<String> {
    ops.iter()
        .map(|op| match op {
            PatchOp::Add { entry } => format!("add {}", String::from_utf8_lossy(entry.method.fragment())),
            PatchOp::Replace { entry } => {
                format!("replace {}", String::from_utf8_lossy(entry.method.fragment()))
            },
            PatchOp::Remove { fragment, .. } => format!("remove {}", String::from_utf8_lossy(fragment)),
        })
        .collect()
}

const A: MethodScope = MethodScope::Authentication;
const K: MethodScope = MethodScope::KeyAgreement;

#[test]
fn patch_has_exact_operations() {
    let base = registry(&[(A, b"a", 1), (A, b"b", 2), (K, b"c", 3), (K, b"d", 4)]);
    let target = registry(&[(A, b"a", 1), (A, b"b", 9), (K, b"x", 5), (K, b"d", 4)]);
    let ops = compute_patch(&base, &target);
    assert_eq!(describe(&ops), vec!["replace b", "remove c", "remove d", "add x", "add d"]);

    let same = compute_patch(&base, &base);
    assert!(same.is_empty());

    let grow = compute_patch(&registry(&[]), &base);
    assert_eq!(describe(&grow), vec!["add a", "add b", "add c", "add d"]);

    let shrink = compute_patch(&base, &registry(&[]));
    assert_eq!(describe(&shrink), vec!["remove a", "remove b", "remove c", "remove d"]);
}

#[test]
fn patch_leads_from_base_to_target() {
    let cases: Vec<(VerificationMethodRegistry, VerificationMethodRegistry)> = vec![
        (registry(&[(A, b"a", 1)]), registry(&[(A, b"a", 1), (K, b"b", 2)])),
        (registry(&[(A, b"a", 1), (K, b"b", 2)]), registry(&[(K, b"b", 2), (A, b"a", 1)])),
        (registry(&[(A, b"a", 1), (A, b"b", 2)]), registry(&[(A, b"a", 7), (A, b"b", 8)])),
        (registry(&[(A, b"a", 1), (K, b"a", 2)]), registry(&[(K, b"a", 2)])),
        (registry(&[]), registry(&[])),
    ];
    for (base, target) in cases {
        let ops = compute_patch(&base, &target);
        let out = apply_ops(base.to_entries(), &ops).ok().unwrap();
        let merged = VerificationMethodRegistry::from_entries(out);
        assert_eq!(text(&merged), text(&target));
    }
}

#[test]
fn operations_conflict_when_the_registry_does_not_fit() {
    let entries = || registry(&[(A, b"a", 1)]).to_entries();
    let add_again = PatchOp::Add { entry: Entry { scope: A, method: method(b"a", 2) } };
    assert!(matches!(apply_op(entries(), &add_again), Err(Error::DiffApplyConflict)));
    let replace_absent = PatchOp::Replace { entry: Entry { scope: K, method: method(b"a", 2) } };
    assert!(matches!(apply_op(entries(), &replace_absent), Err(Error::DiffApplyConflict)));
    let remove_absent = PatchOp::Remove { scope: A, fragment: b"b".to_vec() };
    assert!(matches!(apply_op(entries(), &remove_absent), Err(Error::DiffApplyConflict)));

    let replace = PatchOp::Replace { entry: Entry { scope: A, method: method(b"a", 2) } };
    let out = apply_op(entries(), &replace).ok().unwrap();
    assert_eq!(out.len(), 1);
    assert!(out[0].method.same(&method(b"a", 2)));
    let remove = PatchOp::Remove { scope: A, fragment: b"a".to_vec() };
    assert!(apply_op(entries(), &remove).ok().unwrap().is_empty());

    let ops = vec![remove.duplicate(), remove];
    assert!(matches!(apply_ops(entries(), &ops), Err(Error::DiffApplyConflict)));
}

#[test]
fn diff_then_merge_gives_the_target() {
    let pair = KeyPair::new_ed25519().unwrap();
    let a = Document::from_keypair(&pair);
    let mut b = a.clone();
    let extra = KeyPair::new_ed25519().unwrap();
    assert!(b.insert_scoped(MethodScope::AssertionMethod, VerificationMethod::from_keypair(&extra, Some(b"key-2"))));

    let diff = a.diff(&b, b"add key", pair.secret()).ok().unwrap();
    assert_eq!(diff.message, b"add key".to_vec());
    assert_eq!(describe(&diff.ops), vec!["add key-2"]);

    let mut merged = a.clone();
    assert_eq!(merged.merge(&diff), Ok(()));
    assert_eq!(merged.to_json_vec(), b.to_json_vec());
    assert_eq!(merged.id(), a.id());
    assert_eq!(merged.created(), a.created());

    // One corrupted byte of the signature: the merge fails and nothing changes.
    let mut corrupted = DiffRecord {
        message: diff.message.clone(),
        ops: diff.ops.iter().map(|op| op.duplicate()).collect(),
        envelope: Some(diff.envelope.as_ref().unwrap().duplicate()),
    };
    corrupted.envelope.as_mut().unwrap().signature[5] ^= 0x10;
    let mut clone = a.clone();
    assert_eq!(clone.merge(&corrupted), Err(Error::SignatureVerificationFailed));
    assert_eq!(clone.to_json_vec(), a.to_json_vec());
}

#[test]
fn diff_record_json_has_exact_text() {
    let pair = KeyPair::from_secret(&[5u8; 32]).unwrap();
    let a = Document::from_authentication_at(VerificationMethod::from_keypair(&pair, None), 1);
    let mut b = a.clone();
    b.insert_scoped(K, VerificationMethod::from_public_key(b"n", &[0x01]));
    b.remove_method(b"#authentication").unwrap();
    let diff = a.diff_at(&b, b"swap \"keys\"", pair.secret(), 9).ok().unwrap();
    let body = String::from_utf8(DiffRecord::signing_body(&diff.message, &diff.ops)).unwrap();
    assert_eq!(
        body,
        "{\"message\":\"swap \\\"keys\\\"\",\"diff\":[{\"op\":\"remove\",\"scope\":\"Authentication\",\"fragment\":\"authentication\"},{\"op\":\"add\",\"scope\":\"KeyAgreement\",\"method\":{\"fragment\":\"n\",\"type\":\"Ed25519VerificationKey2018\",\"publicKeyHex\":\"01\"}}]}"
    );
    let full = String::from_utf8(diff.to_json_vec()).unwrap();
    assert!(full.starts_with(&body[..body.len() - 1]));
    assert!(full.contains(",\"proof\":{\"verificationMethod\":\"did:iota:"));
    assert!(full.contains("\"created\":9,"));
}

#[test]
fn merged_document_that_lost_its_signer_rejects_the_next_diff() {
    let pair = KeyPair::new_ed25519().unwrap();
    let a = Document::from_keypair(&pair);
    let other = KeyPair::new_ed25519().unwrap();
    let b = Document::from_authentication_at(VerificationMethod::from_keypair(&other, Some(b"new")), a.created());
    let diff = a.diff(&b, b"rotate", pair.secret()).ok().unwrap();
    let mut merged = a.clone();
    assert_eq!(merged.merge(&diff), Ok(()));
    assert_eq!(text(merged.methods()), text(b.methods()));
    // The record was signed by a method that the merged document no longer holds.
    assert_eq!(merged.merge(&diff), Err(Error::MethodNotFound));
}

#[test]
fn diff_signed_by_a_method_that_base_does_not_hold_is_rejected() {
    let pair = KeyPair::new_ed25519().unwrap();
    let base = Document::from_keypair(&pair);
    let stranger_pair = KeyPair::new_ed25519().unwrap();
    let stranger = Document::from_authentication_at(
        VerificationMethod::from_keypair(&stranger_pair, Some(b"mine")),
        base.created(),
    );
    let mut target = stranger.clone();
    target.insert_scoped(K, method(b"more", 4));
    let diff = stranger.diff(&target, b"not yours", stranger_pair.secret()).ok().unwrap();

    let mut copy = base.clone();
    assert_eq!(copy.merge(&diff), Err(Error::MethodNotFound));
    assert_eq!(copy.to_json_vec(), base.to_json_vec());
}

#[test]
fn unsigned_diff_is_rejected() {
    let pair = KeyPair::new_ed25519().unwrap();
    let mut base = Document::from_keypair(&pair);
    let before = base.to_json_vec();
    let diff = DiffRecord { message: b"m".to_vec(), ops: Vec::new(), envelope: None };
    assert_eq!(base.merge(&diff), Err(Error::SignatureVerificationFailed));
    assert_eq!(base.to_json_vec(), before);
}

#[test]
fn signed_diff_that_does_not_fit_is_a_conflict() {
    let pair = KeyPair::new_ed25519().unwrap();
    let mut base = Document::from_keypair(&pair);
    let before = base.to_json_vec();
    let ops = vec![
        PatchOp::Add { entry: Entry { scope: K, method: method(b"fine", 1) } },
        PatchOp::Remove { scope: K, fragment: b"absent".to_vec() },
    ];
    let message = b"will not fit".to_vec();
    let body = DiffRecord::signing_body(&message, &ops);
    let key = SigningKey::Plain { secret: pair.secret().to_vec() };
    let envelope = sign_body(base.methods(), base.id(), b"#authentication", &key, &body, 3).ok().unwrap();
    let diff = DiffRecord { message, ops, envelope: Some(envelope) };
    assert_eq!(base.merge(&diff), Err(Error::DiffApplyConflict));
    assert_eq!(base.to_json_vec(), before);
}

#[test]
fn changing_the_message_breaks_the_signature() {
    let pair = KeyPair::new_ed25519().unwrap();
    let a = Document::from_keypair(&pair);
    let mut b = a.clone();
    b.insert_scoped(K, method(b"k", 1));
    let mut diff = a.diff(&b, b"add", pair.secret()).ok().unwrap();
    diff.message = b"adD".to_vec();
    let mut copy = a.clone();
    assert_eq!(copy.merge(&diff), Err(Error::SignatureVerificationFailed));
}

#[test]
fn diff_needs_an_authentication_method_and_a_secret_of_32_bytes() {
    let pair = KeyPair::new_ed25519().unwrap();
    let a = Document::from_keypair(&pair);
    let mut empty = a.clone();
    empty.remove_method(b"#authentication").unwrap();
    assert!(matches!(empty.diff(&a, b"m", pair.secret()), Err(Error::MethodNotFound)));
    assert!(matches!(a.diff(&empty, b"m", &[0u8; 3]), Err(Error::DecodeError)));
}
