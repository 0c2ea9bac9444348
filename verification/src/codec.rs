//! Canonical serialization and the digest over it. Every signature in this
//! library is made over the bytes that `canonicalize` returns.

use vstd::prelude::*;
use crate::error::Error;

verus! {

/// The canonical form (RFC 8785) of a JSON text, as `serde_jcs` writes the
/// value that `serde_json` reads from the text; `None` where either refuses.
pub uninterp spec fn canonical_json(json: Seq<u8>) -> Option<Seq<u8>>;

/// The SHA-256 digest of a byte string.
pub uninterp spec fn sha256(data: Seq<u8>) -> Seq<u8>;

/// Reads `json` with `serde_json::from_slice` into a `serde_json::Value` and
/// writes that value with `serde_jcs::to_vec`. Claimed without proof: the
/// outcome depends on the text alone, so it is `canonical_json` of the text.
#[verifier::external_body]
fn jcs_of_json(json: &[u8]) -> (out: Option<Vec<u8>>)
    ensures
        match out {
            Some(bytes) => canonical_json(json@) == Some(bytes@),
            None => canonical_json(json@) is None,
        },
{
    match serde_json::from_slice::<serde_json::Value>(json) {
        Ok(value) => serde_jcs::to_vec(&value).ok(),
        Err(_) => None,
    }
}

/// Calls `Sha256::digest` of the `crypto` crate. Claimed without proof: the
/// result is the digest of the input, 32 bytes long.
#[verifier::external_body]
pub(crate) fn sha256_digest(data: &[u8]) -> (digest: Vec<u8>)
    ensures
        digest@ == sha256(data@),
        digest@.len() == 32,
{
    <crypto::hashes::sha::Sha256 as crypto::hashes::Digest>::digest(data).to_vec()
}

/// What `canonicalize` answers for each outcome of the canonical writer.
pub open spec fn jcs_outcome(canonical: Option<Seq<u8>>) -> Result<Seq<u8>, Error> {
    match canonical {
        Some(bytes) => Ok(bytes),
        None => Err(Error::EncodeError),
    }
}

/// The view of a byte-string result.
pub open spec fn bytes_result_view(r: Result<Vec<u8>, Error>) -> Result<Seq<u8>, Error> {
    match r {
        Ok(bytes) => Ok(bytes@),
        Err(e) => Err(e),
    }
}

/// The canonical form of a JSON text: `Ok` with the canonical bytes where the
/// text is JSON that can be written canonically, `EncodeError` otherwise.
pub fn canonicalize(json: &[u8]) -> (out: Result<Vec<u8>, Error>)
    ensures
        bytes_result_view(out) == jcs_outcome(canonical_json(json@)),
{
    match jcs_of_json(json) {
        Some(bytes) => Ok(bytes),
        None => Err(Error::EncodeError),
    }
}

/// What `canonical_digest` answers for each outcome of the canonical writer.
pub open spec fn jcs_sha256_outcome(canonical: Option<Seq<u8>>) -> Result<Seq<u8>, Error> {
    match canonical {
        Some(bytes) => Ok(sha256(bytes)),
        None => Err(Error::EncodeError),
    }
}

/// The SHA-256 digest of the canonical form of a JSON text.
pub fn canonical_digest(json: &[u8]) -> (out: Result<Vec<u8>, Error>)
    ensures
        bytes_result_view(out) == jcs_sha256_outcome(canonical_json(json@)),
        out matches Ok(digest) ==> digest@.len() == 32,
{
    match canonicalize(json) {
        Ok(bytes) => Ok(sha256_digest(bytes.as_slice())),
        Err(e) => Err(e),
    }
}

/// A value with a JSON text of its own. The text is what is canonicalized
/// and signed.
pub trait ToJson {
    /// The JSON text of the value.
    spec fn json(&self) -> Seq<u8>;

    /// Writes the value as JSON text.
    fn to_json_vec(&self) -> (out: Vec<u8>)
        ensures
            out@ == self.json(),
    ;

    /// The canonical form of the value's JSON text.
    fn to_jcs(&self) -> (out: Result<Vec<u8>, Error>)
        ensures
            bytes_result_view(out) == jcs_outcome(canonical_json(self.json())),
    {
        let text: Vec<u8> = self.to_json_vec();
        canonicalize(text.as_slice())
    }

    /// The SHA-256 digest of the canonical form of the value's JSON text.
    fn to_jcs_sha256(&self) -> (out: Result<Vec<u8>, Error>)
        ensures
            bytes_result_view(out) == jcs_sha256_outcome(canonical_json(self.json())),
            out matches Ok(digest) ==> digest@.len() == 32,
    {
        let text: Vec<u8> = self.to_json_vec();
        canonical_digest(text.as_slice())
    }
}

} // verus!
