//! Signed incremental updates: the record of what leads from one document
//! to another, signed by the earlier document's authentication method, and
//! its merge into a document that checks the signature first.

use vstd::prelude::*;
use vstd::string::*;
use crate::bytes::{copy_bytes, json_string, push_json_string, push_text};
use crate::codec::ToJson;
use crate::document::{authentication_method, Document, DocumentView};
use crate::error::Error;
use crate::method::default_scope;
use crate::patch::{
    applied, apply_ops, entries_result_view, find_entry, lemma_applied,
    lemma_applied_concat, lemma_find_entry, ops_json, ops_view, same_place, write_ops_json,
    PatchOp, PatchOpView,
};
use crate::registry::{distinct, entries_view, resolved, Entry, EntryView, VerificationMethodRegistry};
use crate::signature::{
    envelope_json, envelope_option_view, holds_key_of, sign_with_method, signed_by, unix_seconds,
    verified, verify_body, EnvelopeView, SignatureEnvelope, SigningKey, SigningKeyView,
};

verus! {

/// How many leading entries of `base` and `target`, counted from `from`,
/// stand pairwise in the same place.
pub open spec fn shared(base: Seq<EntryView>, target: Seq<EntryView>, from: int) -> int
    decreases base.len() - from,
{
    if from < 0 || from >= base.len() || from >= target.len() || !same_place(
        base[from],
        target[from],
    ) {
        from
    } else {
        shared(base, target, from + 1)
    }
}

/// A replacement for each of the first `upto` entries that differs between
/// `base` and `target`.
pub open spec fn replacements(base: Seq<EntryView>, target: Seq<EntryView>, upto: int) -> Seq<
    PatchOpView,
>
    decreases upto,
{
    if upto <= 0 {
        Seq::empty()
    } else if base[upto - 1] == target[upto - 1] {
        replacements(base, target, upto - 1)
    } else {
        replacements(base, target, upto - 1).push(PatchOpView::Replace { entry: target[upto - 1] })
    }
}

/// A removal for each entry of `base` from `from` up to `upto`.
pub open spec fn removals(base: Seq<EntryView>, from: int, upto: int) -> Seq<PatchOpView> {
    Seq::new(
        (upto - from) as nat,
        |k: int|
            PatchOpView::Remove {
                scope: base[from + k].scope,
                fragment: base[from + k].method.fragment,
            },
    )
}

/// An addition for each entry of `target` from `from` up to `upto`.
pub open spec fn additions(target: Seq<EntryView>, from: int, upto: int) -> Seq<PatchOpView> {
    Seq::new((upto - from) as nat, |k: int| PatchOpView::Add { entry: target[from + k] })
}

/// The patch from `base` to `target`. The entries that lead both lists in
/// the same places are replaced where they differ; what follows in `base`
/// is removed, and what follows in `target` is added.
pub open spec fn patch(base: Seq<EntryView>, target: Seq<EntryView>) -> Seq<PatchOpView> {
    let p = shared(base, target, 0);
    replacements(base, target, p) + removals(base, p, base.len() as int) + additions(
        target,
        p,
        target.len() as int,
    )
}

proof fn lemma_shared(base: Seq<EntryView>, target: Seq<EntryView>, from: int)
    requires
        0 <= from <= base.len(),
        from <= target.len(),
    ensures
        from <= shared(base, target, from) <= base.len(),
        shared(base, target, from) <= target.len(),
        forall|k: int|
            from <= k < shared(base, target, from) ==> same_place(
                #[trigger] base[k],
                target[k],
            ),
    decreases base.len() - from,
{
    if from < base.len() && from < target.len() && same_place(base[from], target[from]) {
        lemma_shared(base, target, from + 1);
    }
}

proof fn lemma_replacements(base: Seq<EntryView>, target: Seq<EntryView>, upto: int)
    requires
        distinct(base),
        0 <= upto <= base.len(),
        upto <= target.len(),
        forall|k: int| 0 <= k < upto ==> same_place(#[trigger] base[k], target[k]),
    ensures
        applied(base, replacements(base, target, upto)) == Ok::<Seq<EntryView>, Error>(
            target.take(upto) + base.skip(upto),
        ),
    decreases upto,
{
    if upto <= 0 {
        assert(target.take(0) + base.skip(0) =~= base);
    } else {
        let u = upto - 1;
        lemma_replacements(base, target, u);
        let state = target.take(u) + base.skip(u);
        let goal = target.take(upto) + base.skip(upto);
        if base[u] == target[u] {
            assert(state =~= goal);
        } else {
            let op = PatchOpView::Replace { entry: target[u] };
            let ops = replacements(base, target, upto);
            assert(ops.drop_last() =~= replacements(base, target, u));
            assert(ops.last() == op);
            lemma_find_entry(state, target[u].scope, target[u].method.fragment, 0);
            let f = find_entry(state, target[u].scope, target[u].method.fragment, 0);
            assert(state[u] == base[u]);
            assert(same_place(base[u], target[u]));
            if f < u {
                assert(same_place(state[f], base[f])) by {
                    assert(state[f] == target[f]);
                }
                assert(same_place(base[f], base[u]));
            }
            assert(f == u);
            assert(state.update(u, target[u]) =~= goal);
        }
    }
}

proof fn lemma_removals(base: Seq<EntryView>, target: Seq<EntryView>, p: int, upto: int)
    requires
        distinct(base),
        0 <= p <= upto <= base.len(),
        p <= target.len(),
        forall|k: int| 0 <= k < p ==> same_place(#[trigger] base[k], target[k]),
    ensures
        applied(target.take(p) + base.skip(p), removals(base, p, upto)) == Ok::<
            Seq<EntryView>,
            Error,
        >(target.take(p) + base.skip(upto)),
    decreases upto - p,
{
    if upto == p {
        assert(removals(base, p, upto) =~= Seq::<PatchOpView>::empty());
    } else {
        let u = upto - 1;
        lemma_removals(base, target, p, u);
        let ops = removals(base, p, upto);
        assert(ops.drop_last() =~= removals(base, p, u));
        let state = target.take(p) + base.skip(u);
        lemma_find_entry(state, base[u].scope, base[u].method.fragment, 0);
        let f = find_entry(state, base[u].scope, base[u].method.fragment, 0);
        assert(state[p] == base[u]);
        if f < p {
            assert(state[f] == target[f]);
            assert(same_place(base[f], target[f]));
            assert(same_place(base[f], base[u]));
        }
        assert(f == p);
        assert(state.remove(p) =~= target.take(p) + base.skip(upto));
    }
}

proof fn lemma_additions(target: Seq<EntryView>, p: int, upto: int)
    requires
        distinct(target),
        0 <= p <= upto <= target.len(),
    ensures
        applied(target.take(p), additions(target, p, upto)) == Ok::<Seq<EntryView>, Error>(
            target.take(upto),
        ),
    decreases upto - p,
{
    if upto == p {
        assert(additions(target, p, upto) =~= Seq::<PatchOpView>::empty());
    } else {
        let u = upto - 1;
        lemma_additions(target, p, u);
        let ops = additions(target, p, upto);
        assert(ops.drop_last() =~= additions(target, p, u));
        let state = target.take(u);
        lemma_find_entry(state, target[u].scope, target[u].method.fragment, 0);
        let f = find_entry(state, target[u].scope, target[u].method.fragment, 0);
        if f < u {
            assert(state[f] == target[f]);
            assert(same_place(target[f], target[u]));
        }
        assert(state.push(target[u]) =~= target.take(upto));
    }
}

/// The patch from one list of distinct entries to another applies to the
/// first and gives the second.
pub proof fn lemma_patch_applies(base: Seq<EntryView>, target: Seq<EntryView>)
    requires
        distinct(base),
        distinct(target),
    ensures
        applied(base, patch(base, target)) == Ok::<Seq<EntryView>, Error>(target),
{
    let p = shared(base, target, 0);
    lemma_shared(base, target, 0);
    let a = replacements(base, target, p);
    let b = removals(base, p, base.len() as int);
    let c = additions(target, p, target.len() as int);
    lemma_replacements(base, target, p);
    lemma_removals(base, target, p, base.len() as int);
    lemma_additions(target, p, target.len() as int);
    assert(target.take(p) + base.skip(base.len() as int) =~= target.take(p));
    assert(target.take(target.len() as int) =~= target);
    lemma_applied_concat(base, a, b);
    lemma_applied_concat(base, a + b, c);
}

/// Whether two entries stand in the same place.
fn in_same_place(a: &Entry, b: &Entry) -> (same: bool)
    ensures
        same == same_place(a@, b@),
{
    a.scope == b.scope && crate::bytes::bytes_eq(a.method.fragment(), b.method.fragment())
}

/// Computes the patch from `base` to `target`; see `patch`.
pub fn compute_patch(base: &VerificationMethodRegistry, target: &VerificationMethodRegistry) -> (ops:
    Vec<PatchOp>)
    ensures
        ops_view(ops@) == patch(base@, target@),
{
    let from: Vec<Entry> = base.to_entries();
    let to: Vec<Entry> = target.to_entries();
    let ghost b = base@;
    let ghost t = target@;
    let mut ops: Vec<PatchOp> = Vec::new();
    let mut k: usize = 0;
    assert(ops_view(ops@) =~= replacements(b, t, 0));
    while k < from.len() && k < to.len() && in_same_place(&from[k], &to[k])
        invariant
            k <= from.len(),
            k <= to.len(),
            b == entries_view(from@),
            t == entries_view(to@),
            shared(b, t, 0) == shared(b, t, k as int),
            ops_view(ops@) == replacements(b, t, k as int),
        decreases from.len() - k,
    {
        if !from[k].same(&to[k]) {
            let ghost before = ops_view(ops@);
            ops.push(PatchOp::Replace { entry: to[k].duplicate() });
            assert(ops_view(ops@) =~= before.push(PatchOpView::Replace { entry: t[k as int] }));
        }
        k += 1;
    }
    let p: usize = k;
    assert(p == shared(b, t, 0));
    let ghost head = ops_view(ops@);
    let mut i: usize = p;
    assert(ops_view(ops@) =~= head + removals(b, p as int, i as int));
    while i < from.len()
        invariant
            p <= i <= from.len(),
            b == entries_view(from@),
            ops_view(ops@) == head + removals(b, p as int, i as int),
        decreases from.len() - i,
    {
        let ghost before = ops_view(ops@);
        let op = PatchOp::Remove {
            scope: from[i].scope,
            fragment: copy_bytes(from[i].method.fragment()),
        };
        assert(op@ == (PatchOpView::Remove {
            scope: b[i as int].scope,
            fragment: b[i as int].method.fragment,
        }));
        ops.push(op);
        assert(ops_view(ops@) =~= before.push(op@));
        assert(removals(b, p as int, i + 1) =~= removals(b, p as int, i as int).push(op@));
        i += 1;
    }
    let ghost middle = ops_view(ops@);
    let mut j: usize = p;
    assert(ops_view(ops@) =~= middle + additions(t, p as int, j as int));
    while j < to.len()
        invariant
            p <= j <= to.len(),
            t == entries_view(to@),
            ops_view(ops@) == middle + additions(t, p as int, j as int),
        decreases to.len() - j,
    {
        let ghost before = ops_view(ops@);
        let op = PatchOp::Add { entry: to[j].duplicate() };
        assert(op@ == (PatchOpView::Add { entry: t[j as int] }));
        ops.push(op);
        assert(ops_view(ops@) =~= before.push(op@));
        assert(additions(t, p as int, j + 1) =~= additions(t, p as int, j as int).push(op@));
        j += 1;
    }
    ops
}

/// A signed update of a document.
pub struct DiffRecord {
    /// What the update is for, in the author's words.
    pub message: Vec<u8>,
    /// The operations on the registry.
    pub ops: Vec<PatchOp>,
    /// The envelope over message and operations.
    pub envelope: Option<SignatureEnvelope>,
}

/// The mathematical value of a `DiffRecord`.
pub struct DiffView {
    pub message: Seq<u8>,
    pub ops: Seq<PatchOpView>,
    pub envelope: Option<EnvelopeView>,
}

impl View for DiffRecord {
    type V = DiffView;

    open spec fn view(&self) -> DiffView {
        DiffView {
            message: self.message@,
            ops: ops_view(self.ops@),
            envelope: envelope_option_view(self.envelope),
        }
    }
}

/// The members of a record's JSON object that stand before the envelope.
pub open spec fn diff_members(message: Seq<u8>, ops: Seq<PatchOpView>) -> Seq<u8> {
    "\"message\":".spec_bytes() + json_string(message) + ",\"diff\":".spec_bytes() + ops_json(ops)
}

/// The JSON text of a record without its envelope: what its signature is
/// made over, once canonical.
pub open spec fn diff_body(message: Seq<u8>, ops: Seq<PatchOpView>) -> Seq<u8> {
    "{".spec_bytes() + diff_members(message, ops) + "}".spec_bytes()
}

/// The JSON text of a record, envelope included.
pub open spec fn diff_json(d: DiffView) -> Seq<u8> {
    match d.envelope {
        Some(env) => "{".spec_bytes() + diff_members(d.message, d.ops) + ",\"proof\":".spec_bytes()
            + envelope_json(env) + "}".spec_bytes(),
        None => diff_body(d.message, d.ops),
    }
}

/// The record that `diff` makes: the patch from `base` to `target` under
/// `message`, signed by the first authentication method of `base`.
/// `MethodNotFound` where `base` has none, else the errors of `signed_by`.
pub open spec fn diffed(
    base: DocumentView,
    target: DocumentView,
    message: Seq<u8>,
    secret: Seq<u8>,
    created: u64,
) -> Result<DiffView, Error> {
    let ops = patch(base.methods, target.methods);
    match authentication_method(base.methods) {
        None => Err(Error::MethodNotFound),
        Some(m) => match signed_by(
            base.id,
            m,
            SigningKeyView::Plain { secret },
            diff_body(message, ops),
            created,
        ) {
            Ok(env) => Ok(DiffView { message, ops, envelope: Some(env) }),
            Err(e) => Err(e),
        },
    }
}

/// The document after `merge`: the record's envelope is checked against the
/// document's methods first, then the operations are applied in order.
pub open spec fn merged(v: DocumentView, d: DiffView) -> Result<DocumentView, Error> {
    match verified(v.methods, v.id, diff_body(d.message, d.ops), d.envelope) {
        Err(e) => Err(e),
        Ok(_) => match applied(v.methods, d.ops) {
            Err(e) => Err(e),
            Ok(next) => Ok(DocumentView { methods: next, ..v }),
        },
    }
}

/// The view of the outcome of `diff`.
pub open spec fn diff_result_view(r: Result<DiffRecord, Error>) -> Result<DiffView, Error> {
    match r {
        Ok(d) => Ok(d@),
        Err(e) => Err(e),
    }
}

/// A record that holds the patch from `base` to `target` and whose envelope
/// verifies against `base` merges into `base` and gives it the methods of
/// `target`.
pub proof fn lemma_diff_merges(base: DocumentView, target: DocumentView, d: DiffView)
    requires
        distinct(base.methods),
        distinct(target.methods),
        d.ops == patch(base.methods, target.methods),
        verified(base.methods, base.id, diff_body(d.message, d.ops), d.envelope) is Ok,
    ensures
        merged(base, d) == Ok::<DocumentView, Error>(
            DocumentView { methods: target.methods, ..base },
        ),
{
    lemma_patch_applies(base.methods, target.methods);
}

/// A record whose envelope names a method that the document does not hold
/// is not merged: the answer is `MethodNotFound`.
pub proof fn lemma_unknown_signer_rejected(v: DocumentView, d: DiffView)
    requires
        d.envelope matches Some(env) && resolved(v.methods, v.id, default_scope(), env.method)
            is None,
    ensures
        merged(v, d) == Err::<DocumentView, Error>(Error::MethodNotFound),
{
}

/// A record that merges changes the methods only, and to what its
/// operations give.
pub proof fn lemma_merge_keeps_identity(v: DocumentView, d: DiffView)
    ensures
        merged(v, d) matches Ok(w) ==> w.id == v.id && w.created == v.created && w.envelope
            == v.envelope && applied(v.methods, d.ops) == Ok::<Seq<EntryView>, Error>(w.methods),
{
}

impl DiffRecord {
    /// The JSON text of the record without its envelope.
    pub fn signing_body(message: &[u8], ops: &Vec<PatchOp>) -> (out: Vec<u8>)
        ensures
            out@ == diff_body(message@, ops_view(ops@)),
    {
        let mut out: Vec<u8> = Vec::new();
        push_text(&mut out, "{");
        push_text(&mut out, "\"message\":");
        push_json_string(&mut out, message);
        push_text(&mut out, ",\"diff\":");
        write_ops_json(ops, &mut out);
        push_text(&mut out, "}");
        assert(out@ =~= diff_body(message@, ops_view(ops@)));
        out
    }
}

impl ToJson for DiffRecord {
    open spec fn json(&self) -> Seq<u8> {
        diff_json(self@)
    }

    fn to_json_vec(&self) -> (out: Vec<u8>) {
        match &self.envelope {
            Some(env) => {
                let mut out: Vec<u8> = Vec::new();
                push_text(&mut out, "{");
                push_text(&mut out, "\"message\":");
                push_json_string(&mut out, self.message.as_slice());
                push_text(&mut out, ",\"diff\":");
                write_ops_json(&self.ops, &mut out);
                push_text(&mut out, ",\"proof\":");
                env.write_json(&mut out);
                push_text(&mut out, "}");
                assert(out@ =~= diff_json(self@));
                out
            },
            None => Self::signing_body(self.message.as_slice(), &self.ops),
        }
    }
}

impl Document {
    /// The signed record of what leads from this document's methods to
    /// those of `target`, made at the given time; see `diffed`.
    ///
    /// Where this document's first authentication method holds the public
    /// key of the secret, merging the record into this document gives it
    /// the methods of `target`.
    pub fn diff_at(&self, target: &Document, message: &[u8], secret: &[u8], created: u64) -> (r:
        Result<DiffRecord, Error>)
        requires
            self.wf(),
            target.wf(),
        ensures
            diff_result_view(r) == diffed(self@, target@, message@, secret@, created),
            r matches Ok(d) ==> holds_key_of(authentication_method(self@.methods), secret@)
                ==> merged(self@, d@) == Ok::<DocumentView, Error>(
                DocumentView { methods: target@.methods, ..self@ },
            ),
    {
        proof {
            if authentication_method(self@.methods) is Some {
                crate::document::lemma_authentication_reference(self@.methods, self@.id);
            }
        }
        let ops: Vec<PatchOp> = compute_patch(self.methods(), target.methods());
        let body: Vec<u8> = DiffRecord::signing_body(message, &ops);
        let made: Result<SignatureEnvelope, Error> = match self.first_authentication() {
            Some(method) => sign_with_method(
                self.methods(),
                self.id(),
                method,
                &SigningKey::Plain { secret: copy_bytes(secret) },
                body.as_slice(),
                created,
            ),
            None => Err(Error::MethodNotFound),
        };
        match made {
            Ok(env) => {
                let d = DiffRecord { message: copy_bytes(message), ops, envelope: Some(env) };
                proof {
                    if verified(self@.methods, self@.id, body@, d@.envelope) is Ok {
                        lemma_diff_merges(self@, target@, d@);
                    }
                }
                Ok(d)
            },
            Err(e) => Err(e),
        }
    }

    /// The signed record of what leads from this document's methods to
    /// those of `target`, made now; see `diff_at`.
    pub fn diff(&self, target: &Document, message: &[u8], secret: &[u8]) -> (r: Result<
        DiffRecord,
        Error,
    >)
        requires
            self.wf(),
            target.wf(),
        ensures
            match r {
                Ok(d) => d@.envelope is Some && diffed(
                    self@,
                    target@,
                    message@,
                    secret@,
                    d@.envelope.unwrap().created,
                ) == Ok::<DiffView, Error>(d@),
                Err(e) => diffed(self@, target@, message@, secret@, 0) == Err::<DiffView, Error>(e),
            },
            r matches Ok(d) ==> holds_key_of(authentication_method(self@.methods), secret@)
                ==> merged(self@, d@) == Ok::<DocumentView, Error>(
                DocumentView { methods: target@.methods, ..self@ },
            ),
    {
        self.diff_at(target, message, secret, unix_seconds())
    }

    /// Checks the record's envelope against this document's methods and,
    /// where it verifies, applies the operations in order; see `merged`. On
    /// any error the document stays as it was.
    pub fn merge(&mut self, diff: &DiffRecord) -> (r: Result<(), Error>)
        requires
            old(self).wf(),
        ensures
            match merged(old(self)@, diff@) {
                Ok(v) => r is Ok && final(self)@ == v,
                Err(e) => r == Err::<(), Error>(e) && *final(self) == *old(self),
            },
            final(self).wf(),
    {
        let body: Vec<u8> = DiffRecord::signing_body(diff.message.as_slice(), &diff.ops);
        let checked: Result<(), Error> = verify_body(
            self.methods(),
            self.id(),
            body.as_slice(),
            diff.envelope.as_ref(),
        );
        assert(checked == verified(
            self@.methods,
            self@.id,
            diff_body(diff@.message, diff@.ops),
            diff@.envelope,
        ));
        if let Err(e) = checked {
            return Err(e);
        }
        let patched: Result<Vec<Entry>, Error> = apply_ops(self.methods().to_entries(), &diff.ops);
        proof {
            lemma_applied(self@.methods, diff@.ops);
            assert(entries_result_view(patched) == applied(self@.methods, diff@.ops));
        }
        match patched {
            Ok(entries) => {
                self.replace_methods(VerificationMethodRegistry::from_entries(entries));
                Ok(())
            },
            Err(e) => Err(e),
        }
    }
}

} // verus!
