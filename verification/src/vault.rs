//! A vault of secrets and the discipline of its calls. The storage behind a
//! vault serves one request at a time, so every call walks the same path:
//! take the lock, bind the snapshot, attach the vault, do one thing, give
//! the lock back. This module decides each next step; the caller carries
//! the steps out and reports what happened.

use vstd::prelude::*;
use crate::bytes::copy_bytes;
use crate::error::Error;
use crate::gate::{Gate, GateStep};
use crate::procedure::{
    matched, DeriveInput, Location, Procedure, ProcedureKind, ProcedureResult, RecordHint,
};

verus! {

/// A policy of the whole store.
#[derive(Clone, Copy, Debug, PartialEq, Eq, Structural)]
pub enum StrongholdFlags {
    IsReadable(bool),
}

/// A record as the vault lists it: its place in the list, the identifier
/// that the storage gave it, and its hint.
pub struct Record {
    pub index: usize,
    pub id: Vec<u8>,
    pub hint: RecordHint,
}

/// A vault: its name, the path of the snapshot that holds it, and the
/// policies it is opened with.
pub struct Vault {
    flags: Vec<StrongholdFlags>,
    name: Vec<u8>,
    path: String,
}

/// What a call does once it holds the lock.
pub enum Operation {
    /// Write the snapshot to its path.
    Flush,
    /// Write a record.
    Insert { location: Location, payload: Vec<u8>, hint: RecordHint },
    /// Delete a record, and collect what it leaves where `gc` says so.
    Delete { location: Location, gc: bool },
    /// Run a procedure.
    Execute { procedure: Procedure },
    /// List the records of a vault.
    Records { vault: Vec<u8> },
}

/// The kinds of operation.
#[derive(Clone, Copy, Debug, PartialEq, Eq, Structural)]
pub enum OperationKind {
    Flush,
    Insert,
    Delete,
    Execute(ProcedureKind),
    Records,
}

/// What the storage answered to an operation.
pub enum Reply {
    /// A status alone.
    Status { ok: bool },
    /// A status and the list of records.
    Records { ok: bool, records: Vec<Record> },
    /// The answer to a procedure, or none where the storage failed.
    Procedure { result: Option<ProcedureResult> },
}

/// What a call that succeeded gives back.
pub enum Outcome {
    Unit,
    Records(Vec<Record>),
    Procedure(ProcedureResult),
}

/// Where a call stands.
#[derive(Clone, Copy, Debug, PartialEq, Eq, Structural)]
pub enum Phase {
    /// No call is under way.
    Idle,
    /// The call has a ticket and waits for its turn.
    Queued,
    /// The call was cancelled while it waited. It passes the lock on when
    /// its turn comes.
    Withdrawn,
    /// The call holds the lock.
    LockAcquired,
    /// The snapshot is bound.
    SnapshotBound,
    /// The vault is attached and the operation has been handed out.
    ActorAttached,
    /// The storage works on the operation.
    OperationExecuting,
}

/// What the caller reports.
pub enum Event {
    /// A call begins.
    Start { operation: Operation },
    /// The call may try for the lock.
    Turn,
    /// The caller gives the call up.
    Cancel,
    /// The snapshot was bound or written, or could not be.
    Snapshot { ok: bool },
    /// The vault was attached, or could not be.
    Actor { ok: bool },
    /// The storage has begun to work on the operation.
    Started,
    /// The storage has answered.
    Completed { reply: Reply },
}

/// What the caller does next.
pub enum Action {
    /// Wait, then report `Turn`.
    Wait,
    /// Bind the snapshot at the vault's path, then report `Snapshot`.
    BindSnapshot,
    /// Write the snapshot to the vault's path, then report `Snapshot`.
    WriteSnapshot,
    /// Attach the vault with its name and policies, then report `Actor`.
    AttachActor,
    /// Hand the operation to the storage, then report `Started`.
    Perform { operation: Operation },
    /// Wait for the storage's answer, then report `Completed`.
    AwaitReply,
    /// The call is over, with this result.
    Finish { result: Result<Outcome, Error> },
}

/// One call on a vault.
pub struct Call {
    pub phase: Phase,
    pub ticket: u64,
    pub kind: OperationKind,
    pub operation: Option<Operation>,
}

impl Operation {
    /// The kind of the operation.
    pub open spec fn kind_of(self) -> OperationKind {
        match self {
            Operation::Flush => OperationKind::Flush,
            Operation::Insert { .. } => OperationKind::Insert,
            Operation::Delete { .. } => OperationKind::Delete,
            Operation::Execute { procedure } => OperationKind::Execute(procedure.kind_of()),
            Operation::Records { .. } => OperationKind::Records,
        }
    }

    /// The kind of the operation.
    pub fn kind(&self) -> (kind: OperationKind)
        ensures
            kind == self.kind_of(),
    {
        match self {
            Operation::Flush => OperationKind::Flush,
            Operation::Insert { .. } => OperationKind::Insert,
            Operation::Delete { .. } => OperationKind::Delete,
            Operation::Execute { procedure } => OperationKind::Execute(procedure.kind()),
            Operation::Records { .. } => OperationKind::Records,
        }
    }
}

/// What a call gives back for the storage's answer to an operation of the
/// given kind. A status that is not ok fails the call: deleting and listing
/// with `RecordNotFound`, the others with `StrongholdProcedureFailure`. So
/// does an answer of a shape that does not belong to the operation, and an
/// answer to a procedure of another kind than the one that was run.
pub open spec fn interpreted(kind: OperationKind, reply: Reply) -> Result<Outcome, Error> {
    match (kind, reply) {
        (OperationKind::Flush, Reply::Status { ok }) => if ok {
            Ok(Outcome::Unit)
        } else {
            Err(Error::StrongholdProcedureFailure)
        },
        (OperationKind::Insert, Reply::Status { ok }) => if ok {
            Ok(Outcome::Unit)
        } else {
            Err(Error::StrongholdProcedureFailure)
        },
        (OperationKind::Delete, Reply::Status { ok }) => if ok {
            Ok(Outcome::Unit)
        } else {
            Err(Error::RecordNotFound)
        },
        (OperationKind::Records, Reply::Records { ok, records }) => if ok {
            Ok(Outcome::Records(records))
        } else {
            Err(Error::RecordNotFound)
        },
        (OperationKind::Execute(asked), Reply::Procedure { result: Some(result) }) => match matched(
            asked,
            result,
        ) {
            Ok(r) => Ok(Outcome::Procedure(r)),
            Err(e) => Err(e),
        },
        _ => Err(Error::StrongholdProcedureFailure),
    }
}

/// Reads the storage's answer; see `interpreted`.
pub fn interpret(kind: OperationKind, reply: Reply) -> (r: Result<Outcome, Error>)
    ensures
        r == interpreted(kind, reply),
{
    match (kind, reply) {
        (OperationKind::Flush, Reply::Status { ok }) => if ok {
            Ok(Outcome::Unit)
        } else {
            Err(Error::StrongholdProcedureFailure)
        },
        (OperationKind::Insert, Reply::Status { ok }) => if ok {
            Ok(Outcome::Unit)
        } else {
            Err(Error::StrongholdProcedureFailure)
        },
        (OperationKind::Delete, Reply::Status { ok }) => if ok {
            Ok(Outcome::Unit)
        } else {
            Err(Error::RecordNotFound)
        },
        (OperationKind::Records, Reply::Records { ok, records }) => if ok {
            Ok(Outcome::Records(records))
        } else {
            Err(Error::RecordNotFound)
        },
        (OperationKind::Execute(asked), Reply::Procedure { result: Some(result) }) => {
            match result.expect(asked) {
                Ok(r) => Ok(Outcome::Procedure(r)),
                Err(e) => Err(e),
            }
        },
        _ => Err(Error::StrongholdProcedureFailure),
    }
}

/// The call after an event, the lock after it, and what the caller does
/// next. An event that does not belong to the phase ends the call with
/// `StrongholdProcedureFailure`; whenever a call ends, it gives the lock
/// back if it held it. A call that is cancelled while it waits does nothing
/// to the storage: it keeps its place, and when its turn comes it takes the
/// lock, gives it back at once, and ends with `VaultLockUnavailable`. A call
/// that holds the lock cannot be cancelled.
pub open spec fn stepped(call: Call, gate: Gate, event: Event) -> (Call, Gate, Action) {
    let idle = Call { phase: Phase::Idle, operation: None, ..call };
    let released = if call.holds() {
        gate.after(GateStep::Leave(call.ticket))
    } else {
        gate
    };
    let failed = (
        idle,
        released,
        Action::Finish { result: Err(Error::StrongholdProcedureFailure) },
    );
    match (call.phase, event) {
        (Phase::Idle, Event::Start { operation }) => if gate.succeeds(GateStep::Enqueue) {
            (
                Call {
                    phase: Phase::Queued,
                    ticket: gate.issued,
                    kind: operation.kind_of(),
                    operation: Some(operation),
                },
                gate.after(GateStep::Enqueue),
                Action::Wait,
            )
        } else {
            (idle, gate, Action::Finish { result: Err(Error::VaultLockUnavailable) })
        },
        (Phase::Queued, Event::Turn) => if gate.lets_in(call.ticket) {
            (
                Call { phase: Phase::LockAcquired, ..call },
                gate.after(GateStep::Enter(call.ticket)),
                if call.kind == OperationKind::Flush {
                    Action::WriteSnapshot
                } else {
                    Action::BindSnapshot
                },
            )
        } else {
            (call, gate, Action::Wait)
        },
        (Phase::Queued, Event::Cancel) => (
            Call { phase: Phase::Withdrawn, operation: None, ..call },
            gate,
            Action::Wait,
        ),
        (Phase::Withdrawn, Event::Turn) => if gate.lets_in(call.ticket) {
            (
                idle,
                gate.after(GateStep::Enter(call.ticket)).after(GateStep::Leave(call.ticket)),
                Action::Finish { result: Err(Error::VaultLockUnavailable) },
            )
        } else {
            (call, gate, Action::Wait)
        },
        (Phase::Withdrawn, _) => (call, gate, Action::Wait),
        (Phase::LockAcquired, Event::Snapshot { ok }) => if call.kind == OperationKind::Flush {
            (idle, released, Action::Finish { result: interpreted(call.kind, Reply::Status { ok }) })
        } else if ok {
            (Call { phase: Phase::SnapshotBound, ..call }, gate, Action::AttachActor)
        } else {
            failed
        },
        (Phase::SnapshotBound, Event::Actor { ok }) => if ok && call.operation is Some {
            (
                Call { phase: Phase::ActorAttached, operation: None, ..call },
                gate,
                Action::Perform { operation: call.operation.unwrap() },
            )
        } else {
            failed
        },
        (Phase::ActorAttached, Event::Started) => (
            Call { phase: Phase::OperationExecuting, ..call },
            gate,
            Action::AwaitReply,
        ),
        (Phase::OperationExecuting, Event::Completed { reply }) => (
            idle,
            released,
            Action::Finish { result: interpreted(call.kind, reply) },
        ),
        _ => failed,
    }
}

impl Call {
    /// Whether the call is in a phase in which it holds the lock.
    pub open spec fn holds(self) -> bool {
        self.phase == Phase::LockAcquired || self.phase == Phase::SnapshotBound || self.phase
            == Phase::ActorAttached || self.phase == Phase::OperationExecuting
    }

    /// The call agrees with the lock: a call that waits has a ticket that is
    /// still to be served, and a call in a phase that holds the lock is the
    /// one whose ticket the lock is held by.
    pub open spec fn wf(self, gate: Gate) -> bool {
        &&& gate.wf()
        &&& (self.phase == Phase::Queued || self.phase == Phase::Withdrawn) ==> gate.serving
            <= self.ticket < gate.issued
        &&& self.holds() ==> gate.held_by(self.ticket)
    }

    /// A call that has not begun.
    pub fn new() -> (call: Call)
        ensures
            call == (Call {
                phase: Phase::Idle,
                ticket: 0,
                kind: OperationKind::Flush,
                operation: None,
            }),
            forall|gate: Gate| gate.wf() ==> call.wf(gate),
    {
        Call { phase: Phase::Idle, ticket: 0, kind: OperationKind::Flush, operation: None }
    }

    /// Whether the call agrees with the lock; see `wf`.
    pub fn agrees_with(&self, gate: &Gate) -> (ok: bool)
        ensures
            ok == self.wf(*gate),
    {
        let gate_ok: bool = gate.serving <= gate.issued && (!gate.busy || gate.serving < gate.issued);
        let waiting: bool = self.phase == Phase::Queued || self.phase == Phase::Withdrawn;
        gate_ok && (!waiting || (gate.serving <= self.ticket && self.ticket < gate.issued)) && (
        !self.holds_lock() || (gate.busy && self.ticket == gate.serving))
    }

    /// Whether the call holds the lock; see `holds`.
    pub fn holds_lock(&self) -> (holds: bool)
        ensures
            holds == self.holds(),
    {
        match self.phase {
            Phase::LockAcquired | Phase::SnapshotBound | Phase::ActorAttached
            | Phase::OperationExecuting => true,
            _ => false,
        }
    }

    fn fail(&mut self, gate: &mut Gate) -> (action: Action)
        requires
            old(self).wf(*old(gate)),
        ensures
            *final(self) == (Call { phase: Phase::Idle, operation: None, ..*old(self) }),
            *final(gate) == if old(self).holds() {
                old(gate).after(GateStep::Leave(old(self).ticket))
            } else {
                *old(gate)
            },
            action == (Action::Finish { result: Err(Error::StrongholdProcedureFailure) }),
            final(self).wf(*final(gate)),
    {
        if self.holds_lock() {
            gate.leave(self.ticket);
        }
        self.phase = Phase::Idle;
        self.operation = None;
        Action::Finish { result: Err(Error::StrongholdProcedureFailure) }
    }

    /// Takes one event and decides what comes next; see `stepped`.
    pub fn step(&mut self, gate: &mut Gate, event: Event) -> (action: Action)
        requires
            old(self).wf(*old(gate)),
        ensures
            (*final(self), *final(gate), action) == stepped(*old(self), *old(gate), event),
            final(self).wf(*final(gate)),
            action is Finish ==> final(self).phase == Phase::Idle && (old(self).holds()
                ==> !final(gate).busy && final(gate).serving == old(self).ticket + 1),
    {
        match (self.phase, event) {
            (Phase::Idle, Event::Start { operation }) => {
                match gate.enqueue() {
                    Ok(ticket) => {
                        self.phase = Phase::Queued;
                        self.ticket = ticket;
                        self.kind = operation.kind();
                        self.operation = Some(operation);
                        Action::Wait
                    },
                    Err(e) => {
                        self.operation = None;
                        Action::Finish { result: Err(e) }
                    },
                }
            },
            (Phase::Queued, Event::Turn) => {
                if gate.enter(self.ticket) {
                    self.phase = Phase::LockAcquired;
                    if self.kind == OperationKind::Flush {
                        Action::WriteSnapshot
                    } else {
                        Action::BindSnapshot
                    }
                } else {
                    Action::Wait
                }
            },
            (Phase::Queued, Event::Cancel) => {
                self.phase = Phase::Withdrawn;
                self.operation = None;
                Action::Wait
            },
            (Phase::Withdrawn, Event::Turn) => {
                if gate.enter(self.ticket) {
                    gate.leave(self.ticket);
                    self.phase = Phase::Idle;
                    self.operation = None;
                    Action::Finish { result: Err(Error::VaultLockUnavailable) }
                } else {
                    Action::Wait
                }
            },
            (Phase::Withdrawn, _) => Action::Wait,
            (Phase::LockAcquired, Event::Snapshot { ok }) => {
                if self.kind == OperationKind::Flush {
                    gate.leave(self.ticket);
                    self.phase = Phase::Idle;
                    self.operation = None;
                    Action::Finish { result: interpret(self.kind, Reply::Status { ok }) }
                } else if ok {
                    self.phase = Phase::SnapshotBound;
                    Action::AttachActor
                } else {
                    self.fail(gate)
                }
            },
            (Phase::SnapshotBound, Event::Actor { ok }) => {
                if !ok {
                    return self.fail(gate);
                }
                match self.operation.take() {
                    Some(operation) => {
                        self.phase = Phase::ActorAttached;
                        Action::Perform { operation }
                    },
                    None => self.fail(gate),
                }
            },
            (Phase::ActorAttached, Event::Started) => {
                self.phase = Phase::OperationExecuting;
                Action::AwaitReply
            },
            (Phase::OperationExecuting, Event::Completed { reply }) => {
                gate.leave(self.ticket);
                self.phase = Phase::Idle;
                self.operation = None;
                Action::Finish { result: interpret(self.kind, reply) }
            },
            _ => self.fail(gate),
        }
    }
}

/// Two calls that hold the same lock are one call: they have the same ticket.
pub proof fn lemma_one_call_holds(gate: Gate, a: Call, b: Call)
    requires
        a.wf(gate),
        b.wf(gate),
        a.holds(),
        b.holds(),
    ensures
        a.ticket == b.ticket,
{
}

/// While one call holds the lock, no other call's event lets that call in:
/// a step of a call with another ticket leaves the holder's phase and hold
/// as they are.
pub proof fn lemma_holder_undisturbed(gate: Gate, holder: Call, other: Call, event: Event)
    requires
        holder.wf(gate),
        other.wf(gate),
        holder.holds(),
        !other.holds(),
    ensures
        !stepped(other, gate, event).0.holds(),
        holder.wf(stepped(other, gate, event).1),
{
}

impl Vault {
    /// The vault's name.
    pub closed spec fn name_bytes(&self) -> Seq<u8> {
        self.name@
    }

    /// The snapshot's path.
    pub closed spec fn path_text(&self) -> Seq<char> {
        self.path@
    }

    /// The policies.
    pub closed spec fn flag_list(&self) -> Seq<StrongholdFlags> {
        self.flags@
    }

    /// The vault `name` in the snapshot at `path`, opened with `flags`.
    pub fn new(path: &str, name: &[u8], flags: &[StrongholdFlags]) -> (vault: Vault)
        ensures
            vault.path_text() == path@,
            vault.name_bytes() == name@,
            vault.flag_list() == flags@,
    {
        let mut copied: Vec<StrongholdFlags> = Vec::new();
        let mut i: usize = 0;
        while i < flags.len()
            invariant
                i <= flags.len(),
                copied@ == flags@.take(i as int),
            decreases flags.len() - i,
        {
            copied.push(flags[i]);
            assert(flags@.take(i + 1) =~= flags@.take(i as int).push(flags@[i as int]));
            i += 1;
        }
        assert(flags@.take(flags@.len() as int) =~= flags@);
        Vault { flags: copied, name: copy_bytes(name), path: path.to_owned() }
    }

    /// The vault's name.
    pub fn name(&self) -> (name: &[u8])
        ensures
            name@ == self.name_bytes(),
    {
        self.name.as_slice()
    }

    /// The snapshot's path.
    pub fn path(&self) -> (path: &str)
        ensures
            path@ == self.path_text(),
    {
        self.path.as_str()
    }

    /// The policies.
    pub fn flags(&self) -> (flags: &[StrongholdFlags])
        ensures
            flags@ == self.flag_list(),
    {
        self.flags.as_slice()
    }

    /// The operation that writes the snapshot.
    pub fn flush(&self) -> (operation: Operation)
        ensures
            operation == Operation::Flush,
    {
        Operation::Flush
    }

    /// The operation that writes a record.
    pub fn insert(&self, location: Location, payload: Vec<u8>, hint: RecordHint) -> (operation:
        Operation)
        ensures
            operation == (Operation::Insert { location, payload, hint }),
    {
        Operation::Insert { location, payload, hint }
    }

    /// The operation that deletes a record.
    pub fn delete(&self, location: Location, gc: bool) -> (operation: Operation)
        ensures
            operation == (Operation::Delete { location, gc }),
    {
        Operation::Delete { location, gc }
    }

    /// The operation that runs a procedure.
    pub fn execute(&self, procedure: Procedure) -> (operation: Operation)
        ensures
            operation == (Operation::Execute { procedure }),
    {
        Operation::Execute { procedure }
    }

    /// The operation that lists the records of `vault`.
    pub fn records(&self, vault: &[u8]) -> (operation: Operation)
        ensures
            operation matches Operation::Records { vault: v } && v@ == vault@,
    {
        Operation::Records { vault: copy_bytes(vault) }
    }

    /// The procedure that writes fresh seed entropy to `output`.
    pub fn slip10_generate(&self, output: Location, hint: RecordHint, bytes: Option<usize>) -> (p:
        Procedure)
        ensures
            p == (Procedure::SLIP10Generate { output, hint, size_bytes: bytes }),
    {
        Procedure::SLIP10Generate { output, hint, size_bytes: bytes }
    }

    /// The procedure that derives a child key along `chain`.
    pub fn slip10_derive(
        &self,
        chain: Vec<u32>,
        input: DeriveInput,
        output: Location,
        hint: RecordHint,
    ) -> (p: Procedure)
        ensures
            p == (Procedure::SLIP10Derive { chain, input, output, hint }),
    {
        Procedure::SLIP10Derive { chain, input, output, hint }
    }

    /// The procedure that restores a seed from a mnemonic sentence.
    pub fn bip39_recover(
        &self,
        mnemonic: String,
        output: Location,
        passphrase: Option<String>,
        hint: RecordHint,
    ) -> (p: Procedure)
        ensures
            p == (Procedure::BIP39Recover { mnemonic, passphrase, output, hint }),
    {
        Procedure::BIP39Recover { mnemonic, passphrase, output, hint }
    }

    /// The procedure that makes a seed with a fresh mnemonic sentence.
    pub fn bip39_generate(&self, output: Location, passphrase: Option<String>, hint: RecordHint)
        -> (p: Procedure)
        ensures
            p == (Procedure::BIP39Generate { passphrase, output, hint }),
    {
        Procedure::BIP39Generate { passphrase, output, hint }
    }

    /// The procedure that reads the mnemonic sentence of a seed.
    pub fn bip39_mnemonic_sentence(&self, seed: Location) -> (p: Procedure)
        ensures
            p == (Procedure::BIP39MnemonicSentence { seed }),
    {
        Procedure::BIP39MnemonicSentence { seed }
    }

    /// The procedure that reads the public key of a private key.
    pub fn ed25519_public_key(&self, private_key: Location) -> (p: Procedure)
        ensures
            p == (Procedure::Ed25519PublicKey { private_key }),
    {
        Procedure::Ed25519PublicKey { private_key }
    }

    /// The procedure that signs `msg` with a private key.
    pub fn ed25519_sign(&self, msg: Vec<u8>, private_key: Location) -> (p: Procedure)
        ensures
            p == (Procedure::Ed25519Sign { private_key, msg }),
    {
        Procedure::Ed25519Sign { private_key, msg }
    }
}

/// What a call that ran a procedure gives back, read as the answer to a
/// procedure of kind `kind`.
pub open spec fn answered(kind: ProcedureKind, result: Result<Outcome, Error>) -> Result<
    ProcedureResult,
    Error,
> {
    match result {
        Ok(Outcome::Procedure(r)) => matched(kind, r),
        Ok(_) => Err(Error::StrongholdProcedureFailure),
        Err(e) => Err(e),
    }
}

/// Reads the result of a call as the answer to a procedure; see `answered`.
pub fn answer(kind: ProcedureKind, result: Result<Outcome, Error>) -> (r: Result<
    ProcedureResult,
    Error,
>)
    ensures
        r == answered(kind, result),
{
    match result {
        Ok(Outcome::Procedure(r)) => r.expect(kind),
        Ok(_) => Err(Error::StrongholdProcedureFailure),
        Err(e) => Err(e),
    }
}

/// The result of generating a seed: nothing, once the vault has answered
/// to that procedure; `StrongholdProcedureFailure` for any other answer.
pub fn slip10_generated(result: Result<Outcome, Error>) -> (r: Result<(), Error>)
    ensures
        match answered(ProcedureKind::SLIP10Generate, result) {
            Ok(_) => r is Ok,
            Err(e) => r == Err::<(), Error>(e),
        },
{
    match answer(ProcedureKind::SLIP10Generate, result) {
        Ok(_) => Ok(()),
        Err(e) => Err(e),
    }
}

/// The result of deriving a key: the chain code.
pub fn slip10_derived(result: Result<Outcome, Error>) -> (r: Result<[u8; 32], Error>)
    ensures
        match answered(ProcedureKind::SLIP10Derive, result) {
            Ok(a) => a matches ProcedureResult::SLIP10Derive(code) && r == Ok::<[u8; 32], Error>(
                code,
            ),
            Err(e) => r == Err::<[u8; 32], Error>(e),
        },
{
    match answer(ProcedureKind::SLIP10Derive, result) {
        Ok(ProcedureResult::SLIP10Derive(code)) => Ok(code),
        Ok(_) => Err(Error::StrongholdProcedureFailure),
        Err(e) => Err(e),
    }
}

/// The result of restoring a seed: nothing.
pub fn bip39_recovered(result: Result<Outcome, Error>) -> (r: Result<(), Error>)
    ensures
        match answered(ProcedureKind::BIP39Recover, result) {
            Ok(_) => r is Ok,
            Err(e) => r == Err::<(), Error>(e),
        },
{
    match answer(ProcedureKind::BIP39Recover, result) {
        Ok(_) => Ok(()),
        Err(e) => Err(e),
    }
}

/// The result of making a seed with a mnemonic sentence: nothing.
pub fn bip39_generated(result: Result<Outcome, Error>) -> (r: Result<(), Error>)
    ensures
        match answered(ProcedureKind::BIP39Generate, result) {
            Ok(_) => r is Ok,
            Err(e) => r == Err::<(), Error>(e),
        },
{
    match answer(ProcedureKind::BIP39Generate, result) {
        Ok(_) => Ok(()),
        Err(e) => Err(e),
    }
}

/// The result of reading a mnemonic sentence: the sentence.
pub fn bip39_mnemonic_sentence_read(result: Result<Outcome, Error>) -> (r: Result<String, Error>)
    ensures
        match answered(ProcedureKind::BIP39MnemonicSentence, result) {
            Ok(a) => a matches ProcedureResult::BIP39MnemonicSentence(sentence) && r == Ok::<
                String,
                Error,
            >(sentence),
            Err(e) => r == Err::<String, Error>(e),
        },
{
    match answer(ProcedureKind::BIP39MnemonicSentence, result) {
        Ok(ProcedureResult::BIP39MnemonicSentence(sentence)) => Ok(sentence),
        Ok(_) => Err(Error::StrongholdProcedureFailure),
        Err(e) => Err(e),
    }
}

/// The result of reading a public key: its 32 bytes.
pub fn ed25519_public_key_read(result: Result<Outcome, Error>) -> (r: Result<[u8; 32], Error>)
    ensures
        match answered(ProcedureKind::Ed25519PublicKey, result) {
            Ok(a) => a matches ProcedureResult::Ed25519PublicKey(key) && r == Ok::<[u8; 32], Error>(
                key,
            ),
            Err(e) => r == Err::<[u8; 32], Error>(e),
        },
{
    match answer(ProcedureKind::Ed25519PublicKey, result) {
        Ok(ProcedureResult::Ed25519PublicKey(key)) => Ok(key),
        Ok(_) => Err(Error::StrongholdProcedureFailure),
        Err(e) => Err(e),
    }
}

/// The result of signing: the signature's 64 bytes.
pub fn ed25519_signed(result: Result<Outcome, Error>) -> (r: Result<[u8; 64], Error>)
    ensures
        match answered(ProcedureKind::Ed25519Sign, result) {
            Ok(a) => a matches ProcedureResult::Ed25519Sign(signature) && r == Ok::<
                [u8; 64],
                Error,
            >(signature),
            Err(e) => r == Err::<[u8; 64], Error>(e),
        },
{
    match answer(ProcedureKind::Ed25519Sign, result) {
        Ok(ProcedureResult::Ed25519Sign(signature)) => Ok(signature),
        Ok(_) => Err(Error::StrongholdProcedureFailure),
        Err(e) => Err(e),
    }
}

} // verus!
