use identity::error::Error;
use identity::gate::Gate;
use identity::procedure::{DeriveInput, Location, Procedure, ProcedureKind, ProcedureResult, RecordHint};
use identity::vault::{
    answer, bip39_generated, bip39_mnemonic_sentence_read, bip39_recovered, ed25519_public_key_read,
    ed25519_signed, interpret, slip10_derived, slip10_generated, Action, Call, Event, Operation,
    OperationKind, Outcome, Phase, Record, Reply, StrongholdFlags, Vault,
};

fn vault() -> Vault {
    Vault::new("/tmp/snapshot.stronghold", b"vault-1", &[StrongholdFlags::IsReadable(true)])
}

fn hint() -> RecordHint {
    RecordHint::new(b"hint").unwrap()
}

fn location(record: &[u8]) -> Location {
    Location::generic(b"vault", record)
}

fn drive_to_executing(call: &mut Call, gate: &mut Gate) {
    assert!(matches!(call.step(gate, Event::Turn), Action::BindSnapshot));
    assert_eq!(call.phase, Phase::LockAcquired);
    assert!(matches!(call.step(gate, Event::Snapshot { ok: true }), Action::AttachActor));
    assert_eq!(call.phase, Phase::SnapshotBound);
    assert!(matches!(call.step(gate, Event::Actor { ok: true }), Action::Perform { .. }));
    assert_eq!(call.phase, Phase::ActorAttached);
    assert!(matches!(call.step(gate, Event::Started), Action::AwaitReply));
    assert_eq!(call.phase, Phase::OperationExecuting);
}

#[test]
fn vault_keeps_what_it_was_made_with() {
    let v = vault();
    assert_eq!(v.name(), b"vault-1");
    assert_eq!(v.path(), "/tmp/snapshot.stronghold");
    assert_eq!(v.flags(), &[StrongholdFlags::IsReadable(true)]);
}

#[test]
fn record_hint_is_padded_to_24_bytes() {
    let h = RecordHint::new(b"abc").unwrap();
    let mut expected = b"abc".to_vec();
    expected.resize(24, 0);
    assert_eq!(h.as_bytes(), &expected[..]);
    assert_eq!(RecordHint::new(&[7u8; 24]).unwrap().as_bytes(), &[7u8; 24][..]);
    assert!(RecordHint::new(&[7u8; 25]).is_none());
    assert_eq!(RecordHint::new(b"").unwrap().as_bytes(), &[0u8; 24][..]);
}

#[test]
fn procedures_carry_their_arguments() {
    let v = vault();
    match v.slip10_generate(location(b"seed"), hint(), Some(32)) {
        Procedure::SLIP10Generate { output, size_bytes, .. } => {
            assert_eq!(output.record_path, b"seed".to_vec());
            assert_eq!(output.vault_path, b"vault".to_vec());
            assert_eq!(size_bytes, Some(32));
        },
        _ => panic!("another procedure"),
    }
    match v.slip10_derive(vec![44, 0, 0], DeriveInput::Seed(location(b"seed")), location(b"key"), hint()) {
        Procedure::SLIP10Derive { chain, input, output, .. } => {
            assert_eq!(chain, vec![44, 0, 0]);
            assert!(matches!(input, DeriveInput::Seed(l) if l.record_path == b"seed".to_vec()));
            assert_eq!(output.record_path, b"key".to_vec());
        },
        _ => panic!("another procedure"),
    }
    match v.bip39_recover("some words".to_string(), location(b"seed"), Some("pass".to_string()), hint()) {
        Procedure::BIP39Recover { mnemonic, passphrase, .. } => {
            assert_eq!(mnemonic, "some words");
            assert_eq!(passphrase.as_deref(), Some("pass"));
        },
        _ => panic!("another procedure"),
    }
    assert_eq!(v.bip39_generate(location(b"s"), None, hint()).kind(), ProcedureKind::BIP39Generate);
    assert_eq!(v.bip39_mnemonic_sentence(location(b"s")).kind(), ProcedureKind::BIP39MnemonicSentence);
    assert_eq!(v.ed25519_public_key(location(b"k")).kind(), ProcedureKind::Ed25519PublicKey);
    match v.ed25519_sign(b"hello".to_vec(), location(b"k")) {
        Procedure::Ed25519Sign { private_key, msg } => {
            assert_eq!(msg, b"hello".to_vec());
            assert_eq!(private_key.record_path, b"k".to_vec());
        },
        _ => panic!("another procedure"),
    }
}

#[test]
fn operations_have_kinds() {
    let v = vault();
    assert_eq!(v.flush().kind(), OperationKind::Flush);
    assert_eq!(v.insert(location(b"r"), b"data".to_vec(), hint()).kind(), OperationKind::Insert);
    assert_eq!(v.delete(location(b"r"), true).kind(), OperationKind::Delete);
    assert_eq!(v.records(b"vault").kind(), OperationKind::Records);
    assert_eq!(
        v.execute(v.ed25519_public_key(location(b"k"))).kind(),
        OperationKind::Execute(ProcedureKind::Ed25519PublicKey)
    );
}

#[test]
fn answer_must_match_the_procedure() {
    assert!(matches!(
        ProcedureResult::SLIP10Generate.expect(ProcedureKind::SLIP10Generate),
        Ok(ProcedureResult::SLIP10Generate)
    ));
    assert!(matches!(
        ProcedureResult::BIP39Generate.expect(ProcedureKind::SLIP10Generate),
        Err(Error::StrongholdProcedureFailure)
    ));
    assert!(matches!(
        ProcedureResult::Ed25519PublicKey([1; 32]).expect(ProcedureKind::Ed25519Sign),
        Err(Error::StrongholdProcedureFailure)
    ));
    assert_eq!(ProcedureResult::SLIP10Derive([0; 32]).kind(), ProcedureKind::SLIP10Derive);
}

#[test]
fn typed_results() {
    let ok = |r: ProcedureResult| -> Result<Outcome, Error> { Ok(Outcome::Procedure(r)) };
    assert_eq!(slip10_generated(ok(ProcedureResult::SLIP10Generate)), Ok(()));
    assert_eq!(
        slip10_generated(ok(ProcedureResult::BIP39Recover)),
        Err(Error::StrongholdProcedureFailure)
    );
    assert_eq!(slip10_generated(Ok(Outcome::Unit)), Err(Error::StrongholdProcedureFailure));
    assert_eq!(slip10_generated(Err(Error::VaultLockUnavailable)), Err(Error::VaultLockUnavailable));
    assert_eq!(slip10_derived(ok(ProcedureResult::SLIP10Derive([9; 32]))), Ok([9; 32]));
    assert_eq!(slip10_derived(ok(ProcedureResult::SLIP10Generate)), Err(Error::StrongholdProcedureFailure));
    assert_eq!(bip39_recovered(ok(ProcedureResult::BIP39Recover)), Ok(()));
    assert_eq!(bip39_recovered(ok(ProcedureResult::BIP39Generate)), Err(Error::StrongholdProcedureFailure));
    assert_eq!(bip39_generated(ok(ProcedureResult::BIP39Generate)), Ok(()));
    assert_eq!(
        bip39_mnemonic_sentence_read(ok(ProcedureResult::BIP39MnemonicSentence("a b c".to_string()))),
        Ok("a b c".to_string())
    );
    assert_eq!(ed25519_public_key_read(ok(ProcedureResult::Ed25519PublicKey([4; 32]))), Ok([4; 32]));
    assert_eq!(
        ed25519_public_key_read(ok(ProcedureResult::SLIP10Derive([4; 32]))),
        Err(Error::StrongholdProcedureFailure)
    );
    assert_eq!(ed25519_signed(ok(ProcedureResult::Ed25519Sign([6; 64]))), Ok([6; 64]));
    assert!(matches!(
        answer(ProcedureKind::Ed25519Sign, Err(Error::RecordNotFound)),
        Err(Error::RecordNotFound)
    ));
}

#[test]
fn replies_are_read_by_the_kind_of_operation() {
    assert!(matches!(interpret(OperationKind::Insert, Reply::Status { ok: true }), Ok(Outcome::Unit)));
    assert!(matches!(
        interpret(OperationKind::Insert, Reply::Status { ok: false }),
        Err(Error::StrongholdProcedureFailure)
    ));
    assert!(matches!(interpret(OperationKind::Delete, Reply::Status { ok: true }), Ok(Outcome::Unit)));
    assert!(matches!(
        interpret(OperationKind::Delete, Reply::Status { ok: false }),
        Err(Error::RecordNotFound)
    ));
    assert!(matches!(interpret(OperationKind::Flush, Reply::Status { ok: true }), Ok(Outcome::Unit)));
    let listed = vec![Record { index: 3, id: b"abc".to_vec(), hint: hint() }];
    match interpret(OperationKind::Records, Reply::Records { ok: true, records: listed }) {
        Ok(Outcome::Records(records)) => {
            assert_eq!(records.len(), 1);
            assert_eq!(records[0].index, 3);
            assert_eq!(records[0].id, b"abc".to_vec());
        },
        _ => panic!("records were expected"),
    }
    assert!(matches!(
        interpret(OperationKind::Records, Reply::Records { ok: false, records: Vec::new() }),
        Err(Error::RecordNotFound)
    ));
    assert!(matches!(
        interpret(OperationKind::Records, Reply::Status { ok: true }),
        Err(Error::StrongholdProcedureFailure)
    ));
    assert!(matches!(
        interpret(
            OperationKind::Execute(ProcedureKind::Ed25519Sign),
            Reply::Procedure { result: Some(ProcedureResult::Ed25519Sign([1; 64])) }
        ),
        Ok(Outcome::Procedure(ProcedureResult::Ed25519Sign(_)))
    ));
    assert!(matches!(
        interpret(
            OperationKind::Execute(ProcedureKind::Ed25519Sign),
            Reply::Procedure { result: Some(ProcedureResult::Ed25519PublicKey([1; 32])) }
        ),
        Err(Error::StrongholdProcedureFailure)
    ));
    assert!(matches!(
        interpret(OperationKind::Execute(ProcedureKind::Ed25519Sign), Reply::Procedure { result: None }),
        Err(Error::StrongholdProcedureFailure)
    ));
}

#[test]
fn gate_serves_tickets_in_order() {
    let mut gate = Gate::new();
    assert_eq!(gate.enqueue(), Ok(0));
    assert_eq!(gate.enqueue(), Ok(1));
    assert_eq!(gate.enqueue(), Ok(2));
    assert!(!gate.enter(1));
    assert!(!gate.enter(2));
    assert!(!gate.enter(3));
    assert!(gate.enter(0));
    assert!(!gate.enter(0));
    assert!(!gate.enter(1));
    assert!(!gate.leave(1));
    assert!(gate.leave(0));
    assert!(!gate.leave(0));
    assert!(!gate.enter(2));
    assert!(gate.enter(1));
    assert!(gate.leave(1));
    assert!(gate.enter(2));
    assert_eq!(gate, Gate { serving: 2, issued: 3, busy: true });
}

#[test]
fn gate_without_tickets_is_unavailable() {
    let mut gate = Gate { serving: u64::MAX, issued: u64::MAX, busy: false };
    assert_eq!(gate.enqueue(), Err(Error::VaultLockUnavailable));
    assert_eq!(gate, Gate { serving: u64::MAX, issued: u64::MAX, busy: false });
    let mut call = Call::new();
    let action = call.step(&mut gate, Event::Start { operation: Operation::Flush });
    assert!(matches!(action, Action::Finish { result: Err(Error::VaultLockUnavailable) }));
    assert_eq!(call.phase, Phase::Idle);
}

#[test]
fn a_call_walks_through_its_phases() {
    let v = vault();
    let mut gate = Gate::new();
    let mut call = Call::new();
    assert_eq!(call.phase, Phase::Idle);
    assert!(!call.holds_lock());
    let op = v.execute(v.ed25519_public_key(location(b"key")));
    assert!(matches!(call.step(&mut gate, Event::Start { operation: op }), Action::Wait));
    assert_eq!(call.phase, Phase::Queued);
    assert_eq!(call.ticket, 0);
    assert_eq!(call.kind, OperationKind::Execute(ProcedureKind::Ed25519PublicKey));

    assert!(matches!(call.step(&mut gate, Event::Turn), Action::BindSnapshot));
    assert!(call.holds_lock());
    assert!(gate.busy);
    assert!(matches!(call.step(&mut gate, Event::Snapshot { ok: true }), Action::AttachActor));
    match call.step(&mut gate, Event::Actor { ok: true }) {
        Action::Perform { operation: Operation::Execute { procedure } } => {
            assert_eq!(procedure.kind(), ProcedureKind::Ed25519PublicKey);
        },
        _ => panic!("the operation was expected"),
    }
    assert!(matches!(call.step(&mut gate, Event::Started), Action::AwaitReply));
    assert_eq!(call.phase, Phase::OperationExecuting);
    let reply = Reply::Procedure { result: Some(ProcedureResult::Ed25519PublicKey([8; 32])) };
    match call.step(&mut gate, Event::Completed { reply }) {
        Action::Finish { result } => assert_eq!(ed25519_public_key_read(result), Ok([8; 32])),
        _ => panic!("the call should be over"),
    }
    assert_eq!(call.phase, Phase::Idle);
    assert!(!gate.busy);
    assert_eq!(gate.serving, 1);
}

#[test]
fn flush_writes_the_snapshot_and_is_done() {
    let mut gate = Gate::new();
    let mut call = Call::new();
    assert!(matches!(call.step(&mut gate, Event::Start { operation: vault().flush() }), Action::Wait));
    assert!(matches!(call.step(&mut gate, Event::Turn), Action::WriteSnapshot));
    assert!(matches!(
        call.step(&mut gate, Event::Snapshot { ok: true }),
        Action::Finish { result: Ok(Outcome::Unit) }
    ));
    assert!(!gate.busy);

    assert!(matches!(call.step(&mut gate, Event::Start { operation: vault().flush() }), Action::Wait));
    assert!(matches!(call.step(&mut gate, Event::Turn), Action::WriteSnapshot));
    assert!(matches!(
        call.step(&mut gate, Event::Snapshot { ok: false }),
        Action::Finish { result: Err(Error::StrongholdProcedureFailure) }
    ));
    assert!(!gate.busy);
    assert_eq!(gate.serving, 2);
}

#[test]
fn two_calls_never_execute_at_once() {
    let v = vault();
    let mut gate = Gate::new();
    let mut a = Call::new();
    let mut b = Call::new();
    let mut entered: Vec<&str> = Vec::new();

    a.step(&mut gate, Event::Start { operation: v.delete(location(b"x"), false) });
    b.step(&mut gate, Event::Start { operation: v.records(b"vault") });
    assert_eq!((a.ticket, b.ticket), (0, 1));

    // B asks first, but it is A's turn.
    assert!(matches!(b.step(&mut gate, Event::Turn), Action::Wait));
    assert_eq!(b.phase, Phase::Queued);
    drive_to_executing(&mut a, &mut gate);
    entered.push("a");

    // While A executes, B cannot get past the lock.
    for _ in 0..3 {
        assert!(matches!(b.step(&mut gate, Event::Turn), Action::Wait));
        assert!(!b.holds_lock());
    }
    assert!(matches!(
        a.step(&mut gate, Event::Completed { reply: Reply::Status { ok: false } }),
        Action::Finish { result: Err(Error::RecordNotFound) }
    ));
    assert!(!a.holds_lock());

    drive_to_executing(&mut b, &mut gate);
    entered.push("b");
    assert!(matches!(
        b.step(&mut gate, Event::Completed { reply: Reply::Records { ok: true, records: Vec::new() } }),
        Action::Finish { result: Ok(Outcome::Records(_)) }
    ));
    assert_eq!(entered, vec!["a", "b"]);
    assert_eq!(gate, Gate { serving: 2, issued: 2, busy: false });
}

#[test]
fn failures_give_the_lock_back() {
    let v = vault();
    let mut gate = Gate::new();

    let mut call = Call::new();
    call.step(&mut gate, Event::Start { operation: v.records(b"vault") });
    call.step(&mut gate, Event::Turn);
    assert!(matches!(
        call.step(&mut gate, Event::Snapshot { ok: false }),
        Action::Finish { result: Err(Error::StrongholdProcedureFailure) }
    ));
    assert_eq!((call.phase, gate.busy, gate.serving), (Phase::Idle, false, 1));

    call.step(&mut gate, Event::Start { operation: v.records(b"vault") });
    call.step(&mut gate, Event::Turn);
    call.step(&mut gate, Event::Snapshot { ok: true });
    assert!(matches!(
        call.step(&mut gate, Event::Actor { ok: false }),
        Action::Finish { result: Err(Error::StrongholdProcedureFailure) }
    ));
    assert_eq!((call.phase, gate.busy, gate.serving), (Phase::Idle, false, 2));

    // An event that does not belong to the phase ends the call.
    call.step(&mut gate, Event::Start { operation: v.records(b"vault") });
    call.step(&mut gate, Event::Turn);
    assert!(matches!(
        call.step(&mut gate, Event::Started),
        Action::Finish { result: Err(Error::StrongholdProcedureFailure) }
    ));
    assert_eq!((call.phase, gate.busy, gate.serving), (Phase::Idle, false, 3));

    // An idle call that is told of a turn holds nothing and changes nothing.
    assert!(matches!(
        call.step(&mut gate, Event::Turn),
        Action::Finish { result: Err(Error::StrongholdProcedureFailure) }
    ));
    assert_eq!((gate.busy, gate.serving, gate.issued), (false, 3, 3));
}

#[test]
fn a_cancelled_call_passes_the_lock_on_when_its_turn_comes() {
    let v = vault();
    let mut gate = Gate::new();
    let mut a = Call::new();
    let mut b = Call::new();
    let mut c = Call::new();
    a.step(&mut gate, Event::Start { operation: v.flush() });
    b.step(&mut gate, Event::Start { operation: v.insert(location(b"r"), b"secret".to_vec(), hint()) });
    c.step(&mut gate, Event::Start { operation: v.flush() });

    assert!(matches!(b.step(&mut gate, Event::Cancel), Action::Wait));
    assert_eq!(b.phase, Phase::Withdrawn);
    assert!(b.operation.is_none());
    assert!(matches!(b.step(&mut gate, Event::Turn), Action::Wait));
    assert!(matches!(c.step(&mut gate, Event::Turn), Action::Wait));

    assert!(matches!(a.step(&mut gate, Event::Turn), Action::WriteSnapshot));
    assert!(matches!(b.step(&mut gate, Event::Turn), Action::Wait));
    a.step(&mut gate, Event::Snapshot { ok: true });

    // It is B's turn: it takes the lock and gives it back without doing anything.
    assert!(matches!(c.step(&mut gate, Event::Turn), Action::Wait));
    assert!(matches!(
        b.step(&mut gate, Event::Turn),
        Action::Finish { result: Err(Error::VaultLockUnavailable) }
    ));
    assert_eq!((b.phase, gate.busy, gate.serving), (Phase::Idle, false, 2));
    assert!(matches!(c.step(&mut gate, Event::Turn), Action::WriteSnapshot));

    // A call that holds the lock cannot be cancelled: the event ends it as a failure.
    assert!(matches!(
        c.step(&mut gate, Event::Cancel),
        Action::Finish { result: Err(Error::StrongholdProcedureFailure) }
    ));
    assert_eq!((c.phase, gate.busy, gate.serving), (Phase::Idle, false, 3));
}

#[test]
fn a_call_knows_whether_it_agrees_with_a_lock() {
    let mut gate = Gate::new();
    let mut call = Call::new();
    assert!(call.agrees_with(&gate));
    call.step(&mut gate, Event::Start { operation: Operation::Flush });
    assert!(call.agrees_with(&gate));
    assert!(!call.agrees_with(&Gate::new()));
    call.step(&mut gate, Event::Turn);
    assert!(call.agrees_with(&gate));
    assert!(!call.agrees_with(&Gate { serving: 0, issued: 1, busy: false }));
    assert!(!Call::new().agrees_with(&Gate { serving: 2, issued: 1, busy: false }));
}
