//! The error kinds of the library.

use vstd::prelude::*;

verus! {

/// Why an operation failed.
#[derive(Clone, Copy, Debug, PartialEq, Eq, Structural)]
pub enum Error {
    /// A value could not be written in canonical form.
    EncodeError,
    /// Bytes did not hold a value of the expected shape.
    DecodeError,
    /// A method scope's name is not one of the known names.
    InvalidScope,
    /// No verification method answers the query.
    MethodNotFound,
    /// The digest algorithm of a key collection and of a proof disagree, or is unknown.
    InvalidMerkleDigest,
    /// An inclusion proof is missing, malformed, or does not lead to the collection's root.
    InvalidInclusionProof,
    /// The leaf that signed has been revoked.
    RevokedKey,
    /// A leaf index lies outside the collection.
    InvalidKeyIndex,
    /// The signature is missing or does not verify.
    SignatureVerificationFailed,
    /// A patch operation met a registry that its precondition does not fit.
    DiffApplyConflict,
    /// The vault's lock could not be taken.
    VaultLockUnavailable,
    /// The vault answered a procedure with a failure or with the wrong kind of result.
    StrongholdProcedureFailure,
    /// The vault holds no record at the location.
    RecordNotFound,
}

impl Error {
    /// The text that `message` returns.
    pub open spec fn text(self) -> Seq<char> {
        match self {
            Error::EncodeError => "failed to encode canonical JSON"@,
            Error::DecodeError => "failed to decode"@,
            Error::InvalidScope => "unknown method scope"@,
            Error::MethodNotFound => "verification method not found"@,
            Error::InvalidMerkleDigest => "invalid Merkle key digest"@,
            Error::InvalidInclusionProof => "invalid public key proof"@,
            Error::RevokedKey => "key revoked"@,
            Error::InvalidKeyIndex => "key index out of range"@,
            Error::SignatureVerificationFailed => "signature verification failed"@,
            Error::DiffApplyConflict => "diff does not apply"@,
            Error::VaultLockUnavailable => "vault lock unavailable"@,
            Error::StrongholdProcedureFailure => "stronghold procedure failure"@,
            Error::RecordNotFound => "record not found"@,
        }
    }

    /// A short description, for display at a boundary.
    pub fn message(&self) -> (s: String)
        ensures
            s@ == self.text(),
    {
        match self {
            Error::EncodeError => "failed to encode canonical JSON".to_owned(),
            Error::DecodeError => "failed to decode".to_owned(),
            Error::InvalidScope => "unknown method scope".to_owned(),
            Error::MethodNotFound => "verification method not found".to_owned(),
            Error::InvalidMerkleDigest => "invalid Merkle key digest".to_owned(),
            Error::InvalidInclusionProof => "invalid public key proof".to_owned(),
            Error::RevokedKey => "key revoked".to_owned(),
            Error::InvalidKeyIndex => "key index out of range".to_owned(),
            Error::SignatureVerificationFailed => "signature verification failed".to_owned(),
            Error::DiffApplyConflict => "diff does not apply".to_owned(),
            Error::VaultLockUnavailable => "vault lock unavailable".to_owned(),
            Error::StrongholdProcedureFailure => "stronghold procedure failure".to_owned(),
            Error::RecordNotFound => "record not found".to_owned(),
        }
    }
}

} // verus!
