//! The procedures that a vault runs on its records, and what it answers.
//! A request and its answer carry the same tag; an answer of another kind
//! is a failure of the procedure.

use vstd::prelude::*;
use crate::bytes::copy_bytes;
use crate::error::Error;

verus! {

/// The length of a record hint, in bytes.
pub const HINT_LENGTH: usize = 24;

/// The place of a record: a vault and a record inside it.
pub struct Location {
    pub vault_path: Vec<u8>,
    pub record_path: Vec<u8>,
}

impl Location {
    /// The location of record `record_path` in vault `vault_path`.
    pub fn generic(vault_path: &[u8], record_path: &[u8]) -> (l: Location)
        ensures
            l.vault_path@ == vault_path@,
            l.record_path@ == record_path@,
    {
        Location { vault_path: copy_bytes(vault_path), record_path: copy_bytes(record_path) }
    }
}

/// A note of 24 bytes that is stored beside a record.
pub struct RecordHint {
    bytes: Vec<u8>,
}

impl View for RecordHint {
    type V = Seq<u8>;

    closed spec fn view(&self) -> Seq<u8> {
        self.bytes@
    }
}

/// `data`, filled up with zero bytes to the length of a hint.
pub open spec fn padded(data: Seq<u8>) -> Seq<u8> {
    Seq::new(
        24,
        |i: int|
            if i < data.len() {
                data[i]
            } else {
                0u8
            },
    )
}

impl RecordHint {
    /// The hint that begins with `data`: `None` where `data` is longer than
    /// a hint.
    pub fn new(data: &[u8]) -> (hint: Option<RecordHint>)
        ensures
            match hint {
                Some(h) => data@.len() <= 24 && h@ == padded(data@),
                None => data@.len() > 24,
            },
    {
        if data.len() > HINT_LENGTH {
            return None;
        }
        let mut bytes: Vec<u8> = Vec::new();
        let mut i: usize = 0;
        while i < HINT_LENGTH
            invariant
                i <= 24,
                data@.len() <= 24,
                bytes@.len() == i,
                forall|k: int| 0 <= k < i ==> bytes@[k] == padded(data@)[k],
            decreases 24 - i,
        {
            bytes.push(if i < data.len() {
                data[i]
            } else {
                0
            });
            i += 1;
        }
        assert(bytes@ =~= padded(data@));
        Some(RecordHint { bytes })
    }

    /// The hint's 24 bytes.
    pub fn as_bytes(&self) -> (bytes: &[u8])
        ensures
            bytes@ == self@,
    {
        self.bytes.as_slice()
    }
}

/// What a derivation starts from: a seed, or a key derived before.
pub enum DeriveInput {
    Seed(Location),
    Key(Location),
}

/// The kinds of procedure.
#[derive(Clone, Copy, Debug, PartialEq, Eq, Structural)]
pub enum ProcedureKind {
    SLIP10Generate,
    SLIP10Derive,
    BIP39Recover,
    BIP39Generate,
    BIP39MnemonicSentence,
    Ed25519PublicKey,
    Ed25519Sign,
}

/// A procedure, with the locations it reads and writes.
pub enum Procedure {
    /// Writes fresh seed entropy of the given size to `output`.
    SLIP10Generate { output: Location, hint: RecordHint, size_bytes: Option<usize> },
    /// Derives a child key along `chain` and writes it to `output`.
    SLIP10Derive { chain: Vec<u32>, input: DeriveInput, output: Location, hint: RecordHint },
    /// Restores a seed from a mnemonic sentence and writes it to `output`.
    BIP39Recover { mnemonic: String, passphrase: Option<String>, output: Location, hint: RecordHint },
    /// Makes a seed with a fresh mnemonic sentence and writes it to `output`.
    BIP39Generate { passphrase: Option<String>, output: Location, hint: RecordHint },
    /// Reads the mnemonic sentence of the seed at `seed`.
    BIP39MnemonicSentence { seed: Location },
    /// Reads the public key of the private key at `private_key`.
    Ed25519PublicKey { private_key: Location },
    /// Signs `msg` with the private key at `private_key`.
    Ed25519Sign { private_key: Location, msg: Vec<u8> },
}

/// What a vault answers to a procedure.
pub enum ProcedureResult {
    SLIP10Generate,
    /// The chain code of the derived key.
    SLIP10Derive([u8; 32]),
    BIP39Recover,
    BIP39Generate,
    /// The mnemonic sentence.
    BIP39MnemonicSentence(String),
    /// The public key.
    Ed25519PublicKey([u8; 32]),
    /// The signature.
    Ed25519Sign([u8; 64]),
}

impl Procedure {
    /// The kind of the procedure.
    pub open spec fn kind_of(self) -> ProcedureKind {
        match self {
            Procedure::SLIP10Generate { .. } => ProcedureKind::SLIP10Generate,
            Procedure::SLIP10Derive { .. } => ProcedureKind::SLIP10Derive,
            Procedure::BIP39Recover { .. } => ProcedureKind::BIP39Recover,
            Procedure::BIP39Generate { .. } => ProcedureKind::BIP39Generate,
            Procedure::BIP39MnemonicSentence { .. } => ProcedureKind::BIP39MnemonicSentence,
            Procedure::Ed25519PublicKey { .. } => ProcedureKind::Ed25519PublicKey,
            Procedure::Ed25519Sign { .. } => ProcedureKind::Ed25519Sign,
        }
    }

    /// The kind of the procedure.
    pub fn kind(&self) -> (kind: ProcedureKind)
        ensures
            kind == self.kind_of(),
    {
        match self {
            Procedure::SLIP10Generate { .. } => ProcedureKind::SLIP10Generate,
            Procedure::SLIP10Derive { .. } => ProcedureKind::SLIP10Derive,
            Procedure::BIP39Recover { .. } => ProcedureKind::BIP39Recover,
            Procedure::BIP39Generate { .. } => ProcedureKind::BIP39Generate,
            Procedure::BIP39MnemonicSentence { .. } => ProcedureKind::BIP39MnemonicSentence,
            Procedure::Ed25519PublicKey { .. } => ProcedureKind::Ed25519PublicKey,
            Procedure::Ed25519Sign { .. } => ProcedureKind::Ed25519Sign,
        }
    }
}

/// What a call gives back for an answer to a procedure of kind `kind`: the
/// answer where it is of that kind, `StrongholdProcedureFailure` otherwise.
pub open spec fn matched(kind: ProcedureKind, result: ProcedureResult) -> Result<
    ProcedureResult,
    Error,
> {
    if result.kind_of() == kind {
        Ok(result)
    } else {
        Err(Error::StrongholdProcedureFailure)
    }
}

impl ProcedureResult {
    /// The kind of procedure that the answer belongs to.
    pub open spec fn kind_of(self) -> ProcedureKind {
        match self {
            ProcedureResult::SLIP10Generate => ProcedureKind::SLIP10Generate,
            ProcedureResult::SLIP10Derive(_) => ProcedureKind::SLIP10Derive,
            ProcedureResult::BIP39Recover => ProcedureKind::BIP39Recover,
            ProcedureResult::BIP39Generate => ProcedureKind::BIP39Generate,
            ProcedureResult::BIP39MnemonicSentence(_) => ProcedureKind::BIP39MnemonicSentence,
            ProcedureResult::Ed25519PublicKey(_) => ProcedureKind::Ed25519PublicKey,
            ProcedureResult::Ed25519Sign(_) => ProcedureKind::Ed25519Sign,
        }
    }

    /// The kind of procedure that the answer belongs to.
    pub fn kind(&self) -> (kind: ProcedureKind)
        ensures
            kind == self.kind_of(),
    {
        match self {
            ProcedureResult::SLIP10Generate => ProcedureKind::SLIP10Generate,
            ProcedureResult::SLIP10Derive(_) => ProcedureKind::SLIP10Derive,
            ProcedureResult::BIP39Recover => ProcedureKind::BIP39Recover,
            ProcedureResult::BIP39Generate => ProcedureKind::BIP39Generate,
            ProcedureResult::BIP39MnemonicSentence(_) => ProcedureKind::BIP39MnemonicSentence,
            ProcedureResult::Ed25519PublicKey(_) => ProcedureKind::Ed25519PublicKey,
            ProcedureResult::Ed25519Sign(_) => ProcedureKind::Ed25519Sign,
        }
    }

    /// Holds the answer to the kind of procedure that was asked; see `matched`.
    pub fn expect(self, kind: ProcedureKind) -> (r: Result<ProcedureResult, Error>)
        ensures
            r == matched(kind, self),
    {
        if self.kind() == kind {
            Ok(self)
        } else {
            Err(Error::StrongholdProcedureFailure)
        }
    }
}

} // verus!
