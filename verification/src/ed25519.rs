//! Ed25519 keys and signatures, made and checked by the `crypto` crate.

use vstd::prelude::*;
use crate::bytes::copy_bytes;
use crate::error::Error;

verus! {

/// Length of a secret key and of a public key, in bytes.
pub const KEY_LENGTH: usize = 32;

/// Length of a signature, in bytes.
pub const SIGNATURE_LENGTH: usize = 64;

/// The public key that belongs to a 32-byte secret key.
pub uninterp spec fn ed25519_public(secret: Seq<u8>) -> Seq<u8>;

/// The signature that a 32-byte secret key makes over a message.
pub uninterp spec fn ed25519_signature(secret: Seq<u8>, message: Seq<u8>) -> Seq<u8>;

/// Whether a 32-byte public key accepts a 64-byte signature over a message.
pub uninterp spec fn ed25519_accepts(public: Seq<u8>, message: Seq<u8>, signature: Seq<u8>) -> bool;

/// Calls `SecretKey::generate` of the `crypto` crate, which draws 32 bytes
/// from the system's random source. Claimed without proof: a key that is
/// returned is 32 bytes long. `None` where the random source fails.
#[verifier::external_body]
fn generate_secret() -> (secret: Option<Vec<u8>>)
    ensures
        secret matches Some(s) ==> s@.len() == 32,
{
    match crypto::signatures::ed25519::SecretKey::generate() {
        Ok(key) => Some(key.to_bytes().to_vec()),
        Err(_) => None,
    }
}

/// Calls `SecretKey::from_bytes` and `SecretKey::public_key` of the `crypto`
/// crate. Claimed without proof: the result depends on the secret alone and
/// is 32 bytes long.
#[verifier::external_body]
pub(crate) fn public_of(secret: &[u8]) -> (public: Vec<u8>)
    requires
        secret@.len() == 32,
    ensures
        public@ == ed25519_public(secret@),
        public@.len() == 32,
{
    let mut raw: [u8; 32] = [0u8; 32];
    raw.copy_from_slice(secret);
    crypto::signatures::ed25519::SecretKey::from_bytes(&raw).public_key().to_bytes().to_vec()
}

/// Calls `SecretKey::sign` of the `crypto` crate. Claimed without proof: the
/// signature depends on the secret and the message alone (Ed25519 signs
/// without randomness), is 64 bytes long, and is accepted by the public key
/// that belongs to the secret, which is the correctness of Ed25519.
#[verifier::external_body]
pub(crate) fn sign_message(secret: &[u8], message: &[u8]) -> (signature: Vec<u8>)
    requires
        secret@.len() == 32,
    ensures
        signature@ == ed25519_signature(secret@, message@),
        signature@.len() == 64,
        ed25519_accepts(ed25519_public(secret@), message@, signature@),
{
    let mut raw: [u8; 32] = [0u8; 32];
    raw.copy_from_slice(secret);
    crypto::signatures::ed25519::SecretKey::from_bytes(&raw).sign(message).to_bytes().to_vec()
}

/// Calls `PublicKey::try_from_bytes` and `PublicKey::verify` of the `crypto`
/// crate; bytes that are no public key accept nothing. Claimed without proof:
/// the answer depends on the three byte strings alone.
#[verifier::external_body]
pub(crate) fn accepts(public: &[u8], message: &[u8], signature: &[u8]) -> (ok: bool)
    requires
        public@.len() == 32,
        signature@.len() == 64,
    ensures
        ok == ed25519_accepts(public@, message@, signature@),
{
    let mut key: [u8; 32] = [0u8; 32];
    key.copy_from_slice(public);
    let mut sig: [u8; 64] = [0u8; 64];
    sig.copy_from_slice(signature);
    match crypto::signatures::ed25519::PublicKey::try_from_bytes(key) {
        Ok(k) => k.verify(&crypto::signatures::ed25519::Signature::from_bytes(sig), message),
        Err(_) => false,
    }
}

/// The kinds of key that a pair can hold.
#[derive(Clone, Copy, Debug, PartialEq, Eq, Structural)]
pub enum KeyType {
    Ed25519,
}

/// A secret key with its public key.
#[derive(Debug)]
pub struct KeyPair {
    key_type: KeyType,
    public: Vec<u8>,
    secret: Vec<u8>,
}

impl KeyPair {
    /// The public key's bytes.
    pub closed spec fn public_bytes(&self) -> Seq<u8> {
        self.public@
    }

    /// The secret key's bytes.
    pub closed spec fn secret_bytes(&self) -> Seq<u8> {
        self.secret@
    }

    /// A pair is well formed when the secret has 32 bytes and the public key
    /// is the one that belongs to it, of 32 bytes too.
    pub open spec fn wf(&self) -> bool {
        &&& self.secret_bytes().len() == 32
        &&& self.public_bytes() == ed25519_public(self.secret_bytes())
        &&& self.public_bytes().len() == 32
    }

    /// What `from_secret` answers.
    pub open spec fn from_secret_ok(secret: Seq<u8>) -> bool {
        secret.len() == 32
    }

    /// The pair of a given secret key: `DecodeError` unless it has 32 bytes.
    pub fn from_secret(secret: &[u8]) -> (pair: Result<KeyPair, Error>)
        ensures
            pair is Ok == Self::from_secret_ok(secret@),
            pair matches Ok(p) ==> p.wf() && p.secret_bytes() == secret@ && p.public_bytes()
                == ed25519_public(secret@),
            pair matches Err(e) ==> e == Error::DecodeError,
    {
        if secret.len() != KEY_LENGTH {
            return Err(Error::DecodeError);
        }
        let public: Vec<u8> = public_of(secret);
        Ok(KeyPair { key_type: KeyType::Ed25519, public, secret: copy_bytes(secret) })
    }

    /// A pair of the given kind with a fresh random secret. `EncodeError`
    /// where the system's random source fails.
    pub fn new(key_type: KeyType) -> (pair: Result<KeyPair, Error>)
        ensures
            pair matches Ok(p) ==> p.wf(),
            pair matches Err(e) ==> e == Error::EncodeError,
    {
        match generate_secret() {
            Some(secret) => {
                let public: Vec<u8> = public_of(secret.as_slice());
                Ok(KeyPair { key_type, public, secret })
            },
            None => Err(Error::EncodeError),
        }
    }

    /// A fresh Ed25519 pair.
    pub fn new_ed25519() -> (pair: Result<KeyPair, Error>)
        ensures
            pair matches Ok(p) ==> p.wf(),
            pair matches Err(e) ==> e == Error::EncodeError,
    {
        Self::new(KeyType::Ed25519)
    }

    /// The kind of key.
    pub fn key_type(&self) -> (t: KeyType)
        ensures
            t == KeyType::Ed25519,
    {
        KeyType::Ed25519
    }

    /// The public key.
    pub fn public(&self) -> (bytes: &[u8])
        ensures
            bytes@ == self.public_bytes(),
    {
        self.public.as_slice()
    }

    /// The secret key.
    pub fn secret(&self) -> (bytes: &[u8])
        ensures
            bytes@ == self.secret_bytes(),
    {
        self.secret.as_slice()
    }

    /// A copy of the pair.
    pub fn duplicate(&self) -> (pair: KeyPair)
        ensures
            pair.public_bytes() == self.public_bytes(),
            pair.secret_bytes() == self.secret_bytes(),
            pair.wf() == self.wf(),
    {
        KeyPair {
            key_type: self.key_type,
            public: copy_bytes(self.public.as_slice()),
            secret: copy_bytes(self.secret.as_slice()),
        }
    }
}

} // verus!
