//! Patches over a registry: the operations that lead from one list of
//! entries to another, and their application in order.

use vstd::prelude::*;
use vstd::string::*;
use crate::bytes::{bytes_eq, copy_bytes, json_string, lemma_take_all, lemma_take_step, push_json_string, push_text};
use crate::error::Error;
use crate::method::{method_json, scope_text, MethodScope};
use crate::registry::{distinct, entries_view, Entry, EntryView};

verus! {

/// One operation of a patch.
pub enum PatchOp {
    /// Enter a method at the end. Its scope must not hold the fragment yet.
    Add { entry: Entry },
    /// Put a method in the place of the one that its scope holds under the
    /// same fragment. There must be one.
    Replace { entry: Entry },
    /// Take out the method that the scope holds under the fragment. There
    /// must be one.
    Remove { scope: MethodScope, fragment: Vec<u8> },
}

/// The mathematical value of a `PatchOp`.
pub enum PatchOpView {
    Add { entry: EntryView },
    Replace { entry: EntryView },
    Remove { scope: MethodScope, fragment: Seq<u8> },
}

impl View for PatchOp {
    type V = PatchOpView;

    open spec fn view(&self) -> PatchOpView {
        match self {
            PatchOp::Add { entry } => PatchOpView::Add { entry: entry@ },
            PatchOp::Replace { entry } => PatchOpView::Replace { entry: entry@ },
            PatchOp::Remove { scope, fragment } => PatchOpView::Remove {
                scope: *scope,
                fragment: fragment@,
            },
        }
    }
}

/// The values of a list of operations.
pub open spec fn ops_view(ops: Seq<PatchOp>) -> Seq<PatchOpView> {
    Seq::new(ops.len(), |i: int| ops[i]@)
}

/// Whether two entries stand under the same scope with the same fragment.
pub open spec fn same_place(a: EntryView, b: EntryView) -> bool {
    a.scope == b.scope && a.method.fragment == b.method.fragment
}

/// The index of the first entry at or after `from` that stands under `scope`
/// with `fragment`; the number of entries where there is none.
pub open spec fn find_entry(
    entries: Seq<EntryView>,
    scope: MethodScope,
    fragment: Seq<u8>,
    from: int,
) -> int
    decreases entries.len() - from,
{
    if from < 0 || from >= entries.len() {
        entries.len() as int
    } else if entries[from].scope == scope && entries[from].method.fragment == fragment {
        from
    } else {
        find_entry(entries, scope, fragment, from + 1)
    }
}

/// A search finds the first index in range that matches, or the length.
pub proof fn lemma_find_entry(
    entries: Seq<EntryView>,
    scope: MethodScope,
    fragment: Seq<u8>,
    from: int,
)
    requires
        0 <= from <= entries.len(),
    ensures
        from <= find_entry(entries, scope, fragment, from) <= entries.len(),
        find_entry(entries, scope, fragment, from) < entries.len() ==> {
            let e = entries[find_entry(entries, scope, fragment, from)];
            e.scope == scope && e.method.fragment == fragment
        },
        forall|k: int|
            from <= k < find_entry(entries, scope, fragment, from) ==> !((
            #[trigger] entries[k]).scope == scope && entries[k].method.fragment == fragment),
    decreases entries.len() - from,
{
    if from < entries.len() && !(entries[from].scope == scope && entries[from].method.fragment
        == fragment) {
        lemma_find_entry(entries, scope, fragment, from + 1);
    }
}

/// The entries after one operation; `DiffApplyConflict` where the entries
/// do not fit the operation.
pub open spec fn applied_op(entries: Seq<EntryView>, op: PatchOpView) -> Result<
    Seq<EntryView>,
    Error,
> {
    match op {
        PatchOpView::Add { entry } => if find_entry(
            entries,
            entry.scope,
            entry.method.fragment,
            0,
        ) < entries.len() {
            Err(Error::DiffApplyConflict)
        } else {
            Ok(entries.push(entry))
        },
        PatchOpView::Replace { entry } => if find_entry(
            entries,
            entry.scope,
            entry.method.fragment,
            0,
        ) < entries.len() {
            Ok(entries.update(find_entry(entries, entry.scope, entry.method.fragment, 0), entry))
        } else {
            Err(Error::DiffApplyConflict)
        },
        PatchOpView::Remove { scope, fragment } => if find_entry(entries, scope, fragment, 0)
            < entries.len() {
            Ok(entries.remove(find_entry(entries, scope, fragment, 0)))
        } else {
            Err(Error::DiffApplyConflict)
        },
    }
}

/// The entries after the operations, applied in order; the first conflict
/// where there is one.
pub open spec fn applied(entries: Seq<EntryView>, ops: Seq<PatchOpView>) -> Result<
    Seq<EntryView>,
    Error,
>
    decreases ops.len(),
{
    if ops.len() == 0 {
        Ok(entries)
    } else {
        match applied(entries, ops.drop_last()) {
            Ok(mid) => applied_op(mid, ops.last()),
            Err(e) => Err(e),
        }
    }
}

/// An operation that applies keeps the entries distinct, and a conflict is
/// the only error.
pub proof fn lemma_applied_op(entries: Seq<EntryView>, op: PatchOpView)
    requires
        distinct(entries),
    ensures
        applied_op(entries, op) matches Ok(next) ==> distinct(next),
        applied_op(entries, op) matches Err(e) ==> e == Error::DiffApplyConflict,
{
    match op {
        PatchOpView::Add { entry } => {
            lemma_find_entry(entries, entry.scope, entry.method.fragment, 0);
            if applied_op(entries, op) is Ok {
                let next = entries.push(entry);
                assert forall|i: int, j: int| 0 <= i < j < next.len() implies !same_place(
                    #[trigger] next[i],
                    #[trigger] next[j],
                ) by {
                    assert(next[i] == entries[i]);
                    if j < entries.len() {
                        assert(next[j] == entries[j]);
                    }
                }
            }
        },
        PatchOpView::Replace { entry } => {
            lemma_find_entry(entries, entry.scope, entry.method.fragment, 0);
            if applied_op(entries, op) is Ok {
                let k = find_entry(entries, entry.scope, entry.method.fragment, 0);
                let next = entries.update(k, entry);
                assert forall|i: int, j: int| 0 <= i < j < next.len() implies !same_place(
                    #[trigger] next[i],
                    #[trigger] next[j],
                ) by {
                    assert(same_place(next[i], entries[i]));
                    assert(same_place(next[j], entries[j]));
                }
            }
        },
        PatchOpView::Remove { scope, fragment } => {
            lemma_find_entry(entries, scope, fragment, 0);
            if applied_op(entries, op) is Ok {
                let k = find_entry(entries, scope, fragment, 0);
                let next = entries.remove(k);
                assert forall|i: int, j: int| 0 <= i < j < next.len() implies !same_place(
                    #[trigger] next[i],
                    #[trigger] next[j],
                ) by {
                    let a = if i < k {
                        i
                    } else {
                        i + 1
                    };
                    let b = if j < k {
                        j
                    } else {
                        j + 1
                    };
                    assert(next[i] == entries[a] && next[j] == entries[b]);
                }
            }
        },
    }
}

/// A patch that applies keeps the entries distinct, and a conflict is the
/// only error.
pub proof fn lemma_applied(entries: Seq<EntryView>, ops: Seq<PatchOpView>)
    requires
        distinct(entries),
    ensures
        applied(entries, ops) matches Ok(next) ==> distinct(next),
        applied(entries, ops) matches Err(e) ==> e == Error::DiffApplyConflict,
    decreases ops.len(),
{
    if ops.len() > 0 {
        lemma_applied(entries, ops.drop_last());
        if let Ok(mid) = applied(entries, ops.drop_last()) {
            lemma_applied_op(mid, ops.last());
        }
    }
}

/// Applying two patches one after the other is applying them joined.
pub proof fn lemma_applied_concat(entries: Seq<EntryView>, a: Seq<PatchOpView>, b: Seq<PatchOpView>)
    ensures
        applied(entries, a + b) == match applied(entries, a) {
            Ok(mid) => applied(mid, b),
            Err(e) => Err(e),
        },
    decreases b.len(),
{
    if b.len() == 0 {
        assert(a + b =~= a);
    } else {
        lemma_applied_concat(entries, a, b.drop_last());
        assert((a + b).drop_last() =~= a + b.drop_last());
        assert((a + b).last() == b.last());
    }
}

/// The JSON text of an operation.
pub open spec fn op_json(op: PatchOpView) -> Seq<u8> {
    match op {
        PatchOpView::Add { entry } => "{\"op\":\"add\",\"scope\":\"".spec_bytes() + scope_text(
            entry.scope,
        ) + "\",\"method\":".spec_bytes() + method_json(entry.method) + "}".spec_bytes(),
        PatchOpView::Replace { entry } => "{\"op\":\"replace\",\"scope\":\"".spec_bytes()
            + scope_text(entry.scope) + "\",\"method\":".spec_bytes() + method_json(entry.method)
            + "}".spec_bytes(),
        PatchOpView::Remove { scope, fragment } => "{\"op\":\"remove\",\"scope\":\"".spec_bytes()
            + scope_text(scope) + "\",\"fragment\":".spec_bytes() + json_string(fragment)
            + "}".spec_bytes(),
    }
}

/// The JSON texts of the operations, with a comma between two.
pub open spec fn ops_body(ops: Seq<PatchOpView>) -> Seq<u8>
    decreases ops.len(),
{
    if ops.len() == 0 {
        Seq::empty()
    } else if ops.len() == 1 {
        op_json(ops[0])
    } else {
        ops_body(ops.drop_last()) + ",".spec_bytes() + op_json(ops.last())
    }
}

/// The JSON array of the operations.
pub open spec fn ops_json(ops: Seq<PatchOpView>) -> Seq<u8> {
    "[".spec_bytes() + ops_body(ops) + "]".spec_bytes()
}

impl PatchOp {
    /// A copy of the operation.
    pub fn duplicate(&self) -> (op: PatchOp)
        ensures
            op@ == self@,
    {
        match self {
            PatchOp::Add { entry } => PatchOp::Add { entry: entry.duplicate() },
            PatchOp::Replace { entry } => PatchOp::Replace { entry: entry.duplicate() },
            PatchOp::Remove { scope, fragment } => PatchOp::Remove {
                scope: *scope,
                fragment: copy_bytes(fragment.as_slice()),
            },
        }
    }

    /// Appends the operation's JSON text to `out`.
    pub fn write_json(&self, out: &mut Vec<u8>)
        ensures
            final(out)@ == old(out)@ + op_json(self@),
    {
        match self {
            PatchOp::Add { entry } => {
                push_text(out, "{\"op\":\"add\",\"scope\":\"");
                push_text(out, entry.scope.name());
                push_text(out, "\",\"method\":");
                entry.method.write_json(out);
                push_text(out, "}");
                assert(out@ =~= old(out)@ + op_json(self@));
            },
            PatchOp::Replace { entry } => {
                push_text(out, "{\"op\":\"replace\",\"scope\":\"");
                push_text(out, entry.scope.name());
                push_text(out, "\",\"method\":");
                entry.method.write_json(out);
                push_text(out, "}");
                assert(out@ =~= old(out)@ + op_json(self@));
            },
            PatchOp::Remove { scope, fragment } => {
                push_text(out, "{\"op\":\"remove\",\"scope\":\"");
                push_text(out, scope.name());
                push_text(out, "\",\"fragment\":");
                push_json_string(out, fragment.as_slice());
                push_text(out, "}");
                assert(out@ =~= old(out)@ + op_json(self@));
            },
        }
    }
}

/// Appends the JSON array of the operations to `out`.
pub fn write_ops_json(ops: &Vec<PatchOp>, out: &mut Vec<u8>)
    ensures
        final(out)@ == old(out)@ + ops_json(ops_view(ops@)),
{
    push_text(out, "[");
    let ghost start = out@;
    let ghost all = ops_view(ops@);
    let mut i: usize = 0;
    assert(start + ops_body(all.take(0)) =~= start);
    while i < ops.len()
        invariant
            i <= ops.len(),
            all == ops_view(ops@),
            out@ == start + ops_body(all.take(i as int)),
        decreases ops.len() - i,
    {
        if i > 0 {
            push_text(out, ",");
        }
        ops[i].write_json(out);
        proof {
            lemma_take_step(all, i as int);
            let t = all.take(i + 1);
            if i == 0 {
                assert(t.len() == 1);
                assert(ops_body(all.take(0)) =~= Seq::<u8>::empty());
            }
            assert(out@ =~= start + ops_body(t));
        }
        i += 1;
    }
    proof {
        lemma_take_all(all);
    }
    push_text(out, "]");
    assert(out@ =~= old(out)@ + ops_json(ops_view(ops@)));
}

/// The index of the first entry under `scope` with `fragment`; see `find_entry`.
pub fn position_of(entries: &Vec<Entry>, scope: MethodScope, fragment: &[u8]) -> (index: usize)
    ensures
        index == find_entry(entries_view(entries@), scope, fragment@, 0),
        index <= entries@.len(),
{
    let ghost all = entries_view(entries@);
    let mut i: usize = 0;
    while i < entries.len()
        invariant
            i <= entries.len(),
            all == entries_view(entries@),
            find_entry(all, scope, fragment@, 0) == find_entry(all, scope, fragment@, i as int),
        decreases entries.len() - i,
    {
        let entry: &Entry = &entries[i];
        if entry.scope == scope && bytes_eq(entry.method.fragment(), fragment) {
            return i;
        }
        i += 1;
    }
    i
}

/// The view of the outcome of applying.
pub open spec fn entries_result_view(r: Result<Vec<Entry>, Error>) -> Result<Seq<EntryView>, Error> {
    match r {
        Ok(entries) => Ok(entries_view(entries@)),
        Err(e) => Err(e),
    }
}

/// Applies one operation; see `applied_op`.
pub fn apply_op(entries: Vec<Entry>, op: &PatchOp) -> (r: Result<Vec<Entry>, Error>)
    ensures
        entries_result_view(r) == applied_op(entries_view(entries@), op@),
{
    let mut entries = entries;
    let ghost before = entries_view(entries@);
    match op {
        PatchOp::Add { entry } => {
            let at: usize = position_of(&entries, entry.scope, entry.method.fragment());
            if at < entries.len() {
                return Err(Error::DiffApplyConflict);
            }
            entries.push(entry.duplicate());
            assert(entries_view(entries@) =~= before.push(entry@));
            Ok(entries)
        },
        PatchOp::Replace { entry } => {
            let at: usize = position_of(&entries, entry.scope, entry.method.fragment());
            if at >= entries.len() {
                return Err(Error::DiffApplyConflict);
            }
            entries.set(at, entry.duplicate());
            assert(entries_view(entries@) =~= before.update(at as int, entry@));
            Ok(entries)
        },
        PatchOp::Remove { scope, fragment } => {
            let at: usize = position_of(&entries, *scope, fragment.as_slice());
            if at >= entries.len() {
                return Err(Error::DiffApplyConflict);
            }
            let _ = entries.remove(at);
            assert(entries_view(entries@) =~= before.remove(at as int));
            Ok(entries)
        },
    }
}

/// Applies the operations in order; see `applied`.
pub fn apply_ops(entries: Vec<Entry>, ops: &Vec<PatchOp>) -> (r: Result<Vec<Entry>, Error>)
    ensures
        entries_result_view(r) == applied(entries_view(entries@), ops_view(ops@)),
{
    let ghost start = entries_view(entries@);
    let ghost all = ops_view(ops@);
    let mut current: Vec<Entry> = entries;
    let mut i: usize = 0;
    while i < ops.len()
        invariant
            i <= ops.len(),
            all == ops_view(ops@),
            start == entries_view(entries@),
            applied(start, all.take(i as int)) == Ok::<Seq<EntryView>, Error>(
                entries_view(current@),
            ),
        decreases ops.len() - i,
    {
        let ghost mid = entries_view(current@);
        proof {
            lemma_take_step(all, i as int);
            assert(applied(start, all.take(i + 1)) == applied_op(mid, all[i as int]));
        }
        match apply_op(current, &ops[i]) {
            Ok(next) => {
                current = next;
            },
            Err(e) => {
                proof {
                    assert(applied(start, all.take(i + 1)) == Err::<Seq<EntryView>, Error>(e));
                    lemma_applied_stays_failed(start, all, i + 1);
                }
                return Err(e);
            },
        }
        i += 1;
    }
    proof {
        lemma_take_all(all);
    }
    Ok(current)
}

/// Once a prefix of a patch has failed, the whole patch fails the same way.
pub proof fn lemma_applied_stays_failed(entries: Seq<EntryView>, ops: Seq<PatchOpView>, n: int)
    requires
        0 <= n <= ops.len(),
        applied(entries, ops.take(n)) is Err,
    ensures
        applied(entries, ops) == applied(entries, ops.take(n)),
    decreases ops.len() - n,
{
    if n < ops.len() {
        lemma_take_step(ops, n);
        lemma_applied_stays_failed(entries, ops, n + 1);
    } else {
        lemma_take_all(ops);
    }
}

} // verus!
