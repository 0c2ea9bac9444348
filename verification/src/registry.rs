//! The registry of a document's verification methods. A method is entered
//! under a scope; within one scope no two methods share a fragment. The
//! entries keep the order in which they were entered.

use vstd::prelude::*;
use vstd::string::*;
use crate::bytes::{append, bytes_eq, lemma_take_all, lemma_take_step, push_text};
use crate::error::Error;
use crate::method::{method_json, scope_text, MethodScope, MethodView, VerificationMethod};

verus! {

/// One entry of the registry: a method and the scope it is entered under.
pub struct Entry {
    pub scope: MethodScope,
    pub method: VerificationMethod,
}

/// The mathematical value of an entry.
pub struct EntryView {
    pub scope: MethodScope,
    pub method: MethodView,
}

impl View for Entry {
    type V = EntryView;

    open spec fn view(&self) -> EntryView {
        EntryView { scope: self.scope, method: self.method@ }
    }
}

/// The values of a list of entries.
pub open spec fn entries_view(entries: Seq<Entry>) -> Seq<EntryView> {
    Seq::new(entries.len(), |i: int| entries[i]@)
}

/// The full identifier of a method: the document's identifier, `#`, and the
/// method's fragment.
pub open spec fn full_id(did: Seq<u8>, fragment: Seq<u8>) -> Seq<u8> {
    did + "#".spec_bytes() + fragment
}

/// Whether a query names a fragment: the fragment itself, or `#` and the fragment.
pub open spec fn names_fragment(fragment: Seq<u8>, query: Seq<u8>) -> bool {
    query == fragment || query == "#".spec_bytes() + fragment
}

/// Whether an entry answers a query in any of its forms.
pub open spec fn answers(did: Seq<u8>, entry: EntryView, query: Seq<u8>) -> bool {
    query == full_id(did, entry.method.fragment) || names_fragment(entry.method.fragment, query)
}

/// Whether some entry of `entries` stands under `scope` with `fragment`.
pub open spec fn holds(entries: Seq<EntryView>, scope: MethodScope, fragment: Seq<u8>) -> bool {
    exists|i: int|
        0 <= i < entries.len() && (#[trigger] entries[i]).scope == scope && entries[i].method.fragment
            == fragment
}

/// No two entries share scope and fragment.
pub open spec fn distinct(entries: Seq<EntryView>) -> bool {
    forall|i: int, j: int|
        0 <= i < j < entries.len() ==> !((#[trigger] entries[i]).scope == (#[trigger] entries[j]).scope
            && entries[i].method.fragment == entries[j].method.fragment)
}

/// The index of the first entry at or after `from` whose full identifier is
/// the query; the number of entries where there is none.
pub open spec fn find_exact(entries: Seq<EntryView>, did: Seq<u8>, query: Seq<u8>, from: int) -> int
    decreases entries.len() - from,
{
    if from < 0 || from >= entries.len() {
        entries.len() as int
    } else if query == full_id(did, entries[from].method.fragment) {
        from
    } else {
        find_exact(entries, did, query, from + 1)
    }
}

/// The index of the first entry at or after `from` that stands under `scope`
/// and whose fragment the query names; the number of entries where there is none.
pub open spec fn find_fragment(
    entries: Seq<EntryView>,
    scope: MethodScope,
    query: Seq<u8>,
    from: int,
) -> int
    decreases entries.len() - from,
{
    if from < 0 || from >= entries.len() {
        entries.len() as int
    } else if entries[from].scope == scope && names_fragment(entries[from].method.fragment, query) {
        from
    } else {
        find_fragment(entries, scope, query, from + 1)
    }
}

/// The index of the first entry at or after `from` that stands under `scope`
/// and whose full identifier is the query; the number of entries where
/// there is none.
pub open spec fn find_exact_in(
    entries: Seq<EntryView>,
    did: Seq<u8>,
    scope: MethodScope,
    query: Seq<u8>,
    from: int,
) -> int
    decreases entries.len() - from,
{
    if from < 0 || from >= entries.len() {
        entries.len() as int
    } else if entries[from].scope == scope && query == full_id(did, entries[from].method.fragment) {
        from
    } else {
        find_exact_in(entries, did, scope, query, from + 1)
    }
}

/// The index of the entry that a query resolves to. A full identifier
/// names the first entry with it under `scope`, and where `scope` holds
/// none, the first entry with it under any scope. Where the query is no
/// entry's full identifier, it resolves to the first entry under `scope`
/// whose fragment it names; `None` where there is none either.
pub open spec fn resolved_index(
    entries: Seq<EntryView>,
    did: Seq<u8>,
    scope: MethodScope,
    query: Seq<u8>,
) -> Option<int> {
    if find_exact_in(entries, did, scope, query, 0) < entries.len() {
        Some(find_exact_in(entries, did, scope, query, 0))
    } else if find_exact(entries, did, query, 0) < entries.len() {
        Some(find_exact(entries, did, query, 0))
    } else if find_fragment(entries, scope, query, 0) < entries.len() {
        Some(find_fragment(entries, scope, query, 0))
    } else {
        None
    }
}

/// The method that a query resolves to.
pub open spec fn resolved(
    entries: Seq<EntryView>,
    did: Seq<u8>,
    scope: MethodScope,
    query: Seq<u8>,
) -> Option<MethodView> {
    match resolved_index(entries, did, scope, query) {
        Some(i) => Some(entries[i].method),
        None => None,
    }
}

/// The entries that do not answer the query, in order.
pub open spec fn without(entries: Seq<EntryView>, did: Seq<u8>, query: Seq<u8>) -> Seq<EntryView>
    decreases entries.len(),
{
    if entries.len() == 0 {
        Seq::empty()
    } else if answers(did, entries.last(), query) {
        without(entries.drop_last(), did, query)
    } else {
        without(entries.drop_last(), did, query).push(entries.last())
    }
}

/// A search finds an index in range that matches, or the length.
pub proof fn lemma_find_exact(entries: Seq<EntryView>, did: Seq<u8>, query: Seq<u8>, from: int)
    requires
        0 <= from <= entries.len(),
    ensures
        from <= find_exact(entries, did, query, from) <= entries.len(),
        find_exact(entries, did, query, from) < entries.len() ==> query == full_id(
            did,
            entries[find_exact(entries, did, query, from)].method.fragment,
        ),
        forall|k: int|
            from <= k < find_exact(entries, did, query, from) ==> query != full_id(
                did,
                (#[trigger] entries[k]).method.fragment,
            ),
    decreases entries.len() - from,
{
    if from < entries.len() && query != full_id(did, entries[from].method.fragment) {
        lemma_find_exact(entries, did, query, from + 1);
    }
}

/// A search by full identifier under a scope finds the first index in range
/// that matches, or the length.
pub proof fn lemma_find_exact_in(
    entries: Seq<EntryView>,
    did: Seq<u8>,
    scope: MethodScope,
    query: Seq<u8>,
    from: int,
)
    requires
        0 <= from <= entries.len(),
    ensures
        from <= find_exact_in(entries, did, scope, query, from) <= entries.len(),
        find_exact_in(entries, did, scope, query, from) < entries.len() ==> {
            let e = entries[find_exact_in(entries, did, scope, query, from)];
            e.scope == scope && query == full_id(did, e.method.fragment)
        },
        forall|k: int|
            from <= k < find_exact_in(entries, did, scope, query, from) ==> !((
            #[trigger] entries[k]).scope == scope && query == full_id(did, entries[k].method.fragment)),
    decreases entries.len() - from,
{
    if from < entries.len() && !(entries[from].scope == scope && query == full_id(
        did,
        entries[from].method.fragment,
    )) {
        lemma_find_exact_in(entries, did, scope, query, from + 1);
    }
}

/// Two fragments with the same full identifier are the same.
pub proof fn lemma_full_id_injective(did: Seq<u8>, a: Seq<u8>, b: Seq<u8>)
    requires
        full_id(did, a) == full_id(did, b),
    ensures
        a == b,
{
    let prefix = did + "#".spec_bytes();
    assert(full_id(did, a) =~= prefix + a);
    assert(full_id(did, b) =~= prefix + b);
    assert((prefix + a).subrange(prefix.len() as int, (prefix + a).len() as int) =~= a);
    assert((prefix + b).subrange(prefix.len() as int, (prefix + b).len() as int) =~= b);
}

/// The full identifier of the method that a query resolves to resolves to
/// that same method.
pub proof fn lemma_reference_resolves(
    entries: Seq<EntryView>,
    did: Seq<u8>,
    scope: MethodScope,
    query: Seq<u8>,
)
    requires
        distinct(entries),
        resolved_index(entries, did, scope, query) is Some,
    ensures
        ({
            let i = resolved_index(entries, did, scope, query).unwrap();
            &&& 0 <= i < entries.len()
            &&& resolved_index(entries, did, scope, full_id(did, entries[i].method.fragment))
                == Some(i)
        }),
{
    lemma_find_exact_in(entries, did, scope, query, 0);
    lemma_find_exact(entries, did, query, 0);
    lemma_find_fragment(entries, scope, query, 0);
    let i = resolved_index(entries, did, scope, query).unwrap();
    let reference = full_id(did, entries[i].method.fragment);
    if find_exact_in(entries, did, scope, query, 0) >= entries.len() && find_exact(
        entries,
        did,
        query,
        0,
    ) >= entries.len() {
        lemma_find_exact_in(entries, did, scope, reference, 0);
        let j = find_exact_in(entries, did, scope, reference, 0);
        assert(entries[i].scope == scope);
        if j > i {
            assert(!(entries[i].scope == scope && reference == full_id(
                did,
                entries[i].method.fragment,
            )));
        }
        lemma_full_id_injective(did, entries[j].method.fragment, entries[i].method.fragment);
    }
}

/// A search by fragment finds an index in range that matches, or the length.
pub proof fn lemma_find_fragment(
    entries: Seq<EntryView>,
    scope: MethodScope,
    query: Seq<u8>,
    from: int,
)
    requires
        0 <= from <= entries.len(),
    ensures
        from <= find_fragment(entries, scope, query, from) <= entries.len(),
        find_fragment(entries, scope, query, from) < entries.len() ==> {
            let e = entries[find_fragment(entries, scope, query, from)];
            e.scope == scope && names_fragment(e.method.fragment, query)
        },
        forall|k: int|
            from <= k < find_fragment(entries, scope, query, from) ==> !((
            #[trigger] entries[k]).scope == scope && names_fragment(entries[k].method.fragment, query)),
    decreases entries.len() - from,
{
    if from < entries.len() && !(entries[from].scope == scope && names_fragment(
        entries[from].method.fragment,
        query,
    )) {
        lemma_find_fragment(entries, scope, query, from + 1);
    }
}

/// Two lists whose entries stand pairwise under the same scope with the same
/// fragment resolve every query to the same index.
pub proof fn lemma_resolution_by_place(
    a: Seq<EntryView>,
    b: Seq<EntryView>,
    did: Seq<u8>,
    scope: MethodScope,
    query: Seq<u8>,
    from: int,
)
    requires
        a.len() == b.len(),
        forall|i: int|
            0 <= i < a.len() ==> (#[trigger] a[i]).scope == b[i].scope && a[i].method.fragment
                == b[i].method.fragment,
        0 <= from <= a.len(),
    ensures
        find_exact_in(a, did, scope, query, from) == find_exact_in(b, did, scope, query, from),
        find_exact(a, did, query, from) == find_exact(b, did, query, from),
        find_fragment(a, scope, query, from) == find_fragment(b, scope, query, from),
        from == 0 ==> resolved_index(a, did, scope, query) == resolved_index(b, did, scope, query),
    decreases a.len() - from,
{
    if from < a.len() {
        assert(a[from].scope == b[from].scope && a[from].method.fragment == b[from].method.fragment);
        lemma_resolution_by_place(a, b, did, scope, query, from + 1);
    }
}

/// What is left after a removal is no longer than what was there, holds
/// only entries that were there, and holds none that answers the query.
pub proof fn lemma_without_members(entries: Seq<EntryView>, did: Seq<u8>, query: Seq<u8>)
    ensures
        without(entries, did, query).len() <= entries.len(),
        forall|k: int|
            0 <= k < without(entries, did, query).len() ==> exists|j: int|
                0 <= j < entries.len() && entries[j] == #[trigger] without(entries, did, query)[k],
        forall|k: int|
            0 <= k < without(entries, did, query).len() ==> !answers(
                did,
                #[trigger] without(entries, did, query)[k],
                query,
            ),
    decreases entries.len(),
{
    if entries.len() > 0 {
        let init = entries.drop_last();
        let rest = without(init, did, query);
        let out = without(entries, did, query);
        lemma_without_members(init, did, query);
        assert forall|k: int| 0 <= k < out.len() implies exists|j: int|
            0 <= j < entries.len() && entries[j] == #[trigger] out[k] by {
            if k < rest.len() {
                let j = choose|j: int| 0 <= j < init.len() && init[j] == rest[k];
                assert(entries[j] == out[k]);
            } else {
                assert(entries[entries.len() - 1] == out[k]);
            }
        }
    }
}

/// A removal keeps the entries distinct.
pub proof fn lemma_without_distinct(entries: Seq<EntryView>, did: Seq<u8>, query: Seq<u8>)
    requires
        distinct(entries),
    ensures
        distinct(without(entries, did, query)),
    decreases entries.len(),
{
    if entries.len() > 0 {
        let init = entries.drop_last();
        let rest = without(init, did, query);
        let out = without(entries, did, query);
        assert(distinct(init)) by {
            assert forall|i: int, j: int| 0 <= i < j < init.len() implies !((
            #[trigger] init[i]).scope == (#[trigger] init[j]).scope && init[i].method.fragment
                == init[j].method.fragment) by {
                assert(init[i] == entries[i] && init[j] == entries[j]);
            }
        }
        lemma_without_distinct(init, did, query);
        lemma_without_members(init, did, query);
        assert forall|i: int, j: int| 0 <= i < j < out.len() implies !((
        #[trigger] out[i]).scope == (#[trigger] out[j]).scope && out[i].method.fragment
            == out[j].method.fragment) by {
            if j < rest.len() {
                assert(rest[i] == out[i] && rest[j] == out[j]);
            } else {
                let a = choose|a: int| 0 <= a < init.len() && init[a] == rest[i];
                assert(entries[a] == out[i]);
                assert(entries[entries.len() - 1] == out[j]);
            }
        }
    }
}

/// A removal shortens the entries exactly when one of them answers the
/// query, and changes nothing where none does.
pub proof fn lemma_without_length(entries: Seq<EntryView>, did: Seq<u8>, query: Seq<u8>)
    ensures
        without(entries, did, query).len() <= entries.len(),
        (without(entries, did, query).len() == entries.len()) == (forall|j: int|
            0 <= j < entries.len() ==> !answers(did, #[trigger] entries[j], query)),
        without(entries, did, query).len() == entries.len() ==> without(entries, did, query)
            == entries,
    decreases entries.len(),
{
    if entries.len() > 0 {
        let init = entries.drop_last();
        let rest = without(init, did, query);
        let out = without(entries, did, query);
        lemma_without_length(init, did, query);
        if out.len() == entries.len() {
            assert(rest.len() == init.len());
            assert(out =~= entries);
            assert forall|j: int| 0 <= j < entries.len() implies !answers(
                did,
                #[trigger] entries[j],
                query,
            ) by {
                if j < init.len() {
                    assert(init[j] == entries[j]);
                }
            }
        } else {
            if rest.len() == init.len() {
                assert(answers(did, entries[entries.len() - 1], query));
            } else {
                let j = choose|j: int| 0 <= j < init.len() && answers(did, #[trigger] init[j], query);
                assert(init[j] == entries[j]);
            }
        }
    }
}

/// What a removal needs of `without`: it keeps distinctness, does not
/// lengthen, and changes nothing where it does not shorten.
proof fn lemma_without_keeps(entries: Seq<EntryView>, did: Seq<u8>, query: Seq<u8>)
    ensures
        without(entries, did, query).len() <= entries.len(),
        distinct(entries) ==> distinct(without(entries, did, query)),
        without(entries, did, query).len() == entries.len() ==> without(entries, did, query)
            == entries,
{
    lemma_without_length(entries, did, query);
    if distinct(entries) {
        lemma_without_distinct(entries, did, query);
    }
}

/// The JSON text of an entry.
pub open spec fn entry_json(e: EntryView) -> Seq<u8> {
    "{\"scope\":\"".spec_bytes() + scope_text(e.scope) + "\",\"method\":".spec_bytes()
        + method_json(e.method) + "}".spec_bytes()
}

/// The JSON texts of the entries, with a comma between two.
pub open spec fn entries_body(entries: Seq<EntryView>) -> Seq<u8>
    decreases entries.len(),
{
    if entries.len() == 0 {
        Seq::empty()
    } else if entries.len() == 1 {
        entry_json(entries[0])
    } else {
        entries_body(entries.drop_last()) + ",".spec_bytes() + entry_json(entries.last())
    }
}

/// The JSON array of the entries.
pub open spec fn entries_json(entries: Seq<EntryView>) -> Seq<u8> {
    "[".spec_bytes() + entries_body(entries) + "]".spec_bytes()
}

impl Entry {
    /// A copy of the entry.
    pub fn duplicate(&self) -> (e: Entry)
        ensures
            e@ == self@,
    {
        Entry { scope: self.scope, method: self.method.duplicate() }
    }

    /// Whether two entries are the same.
    pub fn same(&self, other: &Entry) -> (same: bool)
        ensures
            same == (self@ == other@),
    {
        self.scope == other.scope && self.method.same(&other.method)
    }

    /// Appends the entry's JSON text to `out`.
    pub fn write_json(&self, out: &mut Vec<u8>)
        ensures
            final(out)@ == old(out)@ + entry_json(self@),
    {
        push_text(out, "{\"scope\":\"");
        push_text(out, self.scope.name());
        push_text(out, "\",\"method\":");
        self.method.write_json(out);
        push_text(out, "}");
        assert(out@ =~= old(out)@ + entry_json(self@));
    }
}

/// Whether `query` is the full identifier of `fragment` under `did`.
pub fn is_full_id(did: &[u8], fragment: &[u8], query: &[u8]) -> (same: bool)
    ensures
        same == (query@ == full_id(did@, fragment@)),
{
    let mut id: Vec<u8> = Vec::new();
    append(&mut id, did);
    push_text(&mut id, "#");
    append(&mut id, fragment);
    assert(id@ =~= full_id(did@, fragment@));
    bytes_eq(query, id.as_slice())
}

/// Whether `query` names `fragment`.
pub fn is_fragment(fragment: &[u8], query: &[u8]) -> (same: bool)
    ensures
        same == names_fragment(fragment@, query@),
{
    if bytes_eq(query, fragment) {
        return true;
    }
    let mut id: Vec<u8> = Vec::new();
    push_text(&mut id, "#");
    append(&mut id, fragment);
    assert(id@ =~= "#".spec_bytes() + fragment@);
    bytes_eq(query, id.as_slice())
}

/// The registry of verification methods.
pub struct VerificationMethodRegistry {
    entries: Vec<Entry>,
}

impl View for VerificationMethodRegistry {
    type V = Seq<EntryView>;

    closed spec fn view(&self) -> Seq<EntryView> {
        entries_view(self.entries@)
    }
}

impl VerificationMethodRegistry {
    /// Within a scope no fragment occurs twice.
    pub open spec fn wf(&self) -> bool {
        distinct(self@)
    }

    /// A registry without entries.
    pub fn new() -> (r: VerificationMethodRegistry)
        ensures
            r@ == Seq::<EntryView>::empty(),
            r.wf(),
    {
        let r = VerificationMethodRegistry { entries: Vec::new() };
        assert(r@ =~= Seq::<EntryView>::empty());
        r
    }

    /// The registry that holds the given entries, in their order.
    pub fn from_entries(entries: Vec<Entry>) -> (r: VerificationMethodRegistry)
        requires
            distinct(entries_view(entries@)),
        ensures
            r@ == entries_view(entries@),
            r.wf(),
    {
        VerificationMethodRegistry { entries }
    }

    /// The registry that holds the given entries, in their order: `None`
    /// where two of them stand under one scope with one fragment.
    pub fn try_from_entries(entries: Vec<Entry>) -> (r: Option<VerificationMethodRegistry>)
        ensures
            match r {
                Some(registry) => distinct(entries_view(entries@)) && registry@ == entries_view(
                    entries@,
                ) && registry.wf(),
                None => !distinct(entries_view(entries@)),
            },
    {
        let ghost all = entries_view(entries@);
        let mut j: usize = 0;
        while j < entries.len()
            invariant
                j <= entries.len(),
                all == entries_view(entries@),
                forall|a: int, b: int|
                    0 <= a < b < j ==> !((#[trigger] all[a]).scope == (#[trigger] all[b]).scope
                        && all[a].method.fragment == all[b].method.fragment),
            decreases entries.len() - j,
        {
            let mut i: usize = 0;
            while i < j
                invariant
                    i <= j < entries.len(),
                    all == entries_view(entries@),
                    forall|a: int|
                        0 <= a < i ==> !((#[trigger] all[a]).scope == all[j as int].scope
                            && all[a].method.fragment == all[j as int].method.fragment),
                decreases j - i,
            {
                if entries[i].scope == entries[j].scope && bytes_eq(
                    entries[i].method.fragment(),
                    entries[j].method.fragment(),
                ) {
                    assert(all[i as int].scope == all[j as int].scope);
                    return None;
                }
                i += 1;
            }
            j += 1;
        }
        Some(VerificationMethodRegistry { entries })
    }

    /// Copies of the entries, in order.
    pub fn to_entries(&self) -> (entries: Vec<Entry>)
        ensures
            entries_view(entries@) == self@,
    {
        self.duplicate().entries
    }

    /// The number of entries.
    pub fn len(&self) -> (n: usize)
        ensures
            n == self@.len(),
    {
        self.entries.len()
    }

    /// The entry at `index`.
    pub fn get(&self, index: usize) -> (e: Option<&Entry>)
        ensures
            match e {
                Some(entry) => index < self@.len() && entry@ == self@[index as int],
                None => index >= self@.len(),
            },
    {
        if index < self.entries.len() {
            Some(&self.entries[index])
        } else {
            None
        }
    }

    /// Whether an entry stands under `scope` with `fragment`.
    pub fn contains(&self, scope: MethodScope, fragment: &[u8]) -> (found: bool)
        ensures
            found == holds(self@, scope, fragment@),
    {
        let mut i: usize = 0;
        while i < self.entries.len()
            invariant
                i <= self.entries.len(),
                forall|k: int|
                    0 <= k < i ==> !((#[trigger] self@[k]).scope == scope && self@[k].method.fragment
                        == fragment@),
            decreases self.entries.len() - i,
        {
            let entry: &Entry = &self.entries[i];
            if entry.scope == scope && bytes_eq(entry.method.fragment(), fragment) {
                assert(self@[i as int].scope == scope);
                return true;
            }
            i += 1;
        }
        false
    }

    /// Enters `method` under `scope` at the end, unless the scope already
    /// holds a method with that fragment: then nothing changes and the
    /// answer is `false`.
    pub fn insert(&mut self, scope: MethodScope, method: VerificationMethod) -> (inserted: bool)
        requires
            old(self).wf(),
        ensures
            inserted == !holds(old(self)@, scope, method@.fragment),
            inserted ==> final(self)@ == old(self)@.push(EntryView { scope, method: method@ }),
            !inserted ==> final(self)@ == old(self)@,
            final(self).wf(),
    {
        if self.contains(scope, method.fragment()) {
            return false;
        }
        let ghost before = self@;
        let ghost added = EntryView { scope, method: method@ };
        self.entries.push(Entry { scope, method });
        proof {
            assert(self@ =~= before.push(added));
            assert forall|i: int, j: int| 0 <= i < j < self@.len() implies !((
            #[trigger] self@[i]).scope == (#[trigger] self@[j]).scope && self@[i].method.fragment
                == self@[j].method.fragment) by {
                assert(before[i] == self@[i]);
                if j < before.len() {
                    assert(before[j] == self@[j]);
                }
            }
        }
        true
    }

    /// Removes every entry that answers `identifier` — by its full
    /// identifier under `did`, by its fragment, or by `#` and its fragment —
    /// and keeps the others in order. `MethodNotFound`, and no change, where
    /// no entry answers.
    pub fn remove(&mut self, did: &[u8], identifier: &[u8]) -> (r: Result<(), Error>)
        requires
            old(self).wf(),
        ensures
            final(self)@ == without(old(self)@, did@, identifier@),
            final(self).wf(),
            match r {
                Ok(_) => final(self)@.len() < old(self)@.len(),
                Err(e) => e == Error::MethodNotFound && final(self)@ == old(self)@,
            },
    {
        let mut kept: Vec<Entry> = Vec::new();
        let mut i: usize = 0;
        let ghost all = self@;
        assert(entries_view(kept@) =~= without(all.take(0), did@, identifier@));
        while i < self.entries.len()
            invariant
                i <= self.entries.len(),
                all == self@,
                entries_view(kept@) == without(all.take(i as int), did@, identifier@),
            decreases self.entries.len() - i,
        {
            let entry: &Entry = &self.entries[i];
            proof {
                lemma_take_step(all, i as int);
            }
            if is_full_id(did, entry.method.fragment(), identifier) || is_fragment(
                entry.method.fragment(),
                identifier,
            ) {
            } else {
                let ghost before = entries_view(kept@);
                kept.push(entry.duplicate());
                assert(entries_view(kept@) =~= before.push(entry@));
            }
            i += 1;
        }
        proof {
            lemma_take_all(all);
            lemma_without_keeps(all, did@, identifier@);
        }
        if kept.len() == self.entries.len() {
            Err(Error::MethodNotFound)
        } else {
            self.entries = kept;
            Ok(())
        }
    }

    /// The index of the entry that `query` resolves to; see `resolved_index`.
    pub fn position(&self, did: &[u8], scope: MethodScope, query: &[u8]) -> (index: Option<usize>)
        ensures
            match index {
                Some(i) => resolved_index(self@, did@, scope, query@) == Some(i as int) && i
                    < self@.len(),
                None => resolved_index(self@, did@, scope, query@) is None,
            },
    {
        let mut h: usize = 0;
        while h < self.entries.len()
            invariant
                h <= self.entries.len(),
                find_exact_in(self@, did@, scope, query@, 0) == find_exact_in(
                    self@,
                    did@,
                    scope,
                    query@,
                    h as int,
                ),
            decreases self.entries.len() - h,
        {
            let entry: &Entry = &self.entries[h];
            if entry.scope == scope && is_full_id(did, entry.method.fragment(), query) {
                return Some(h);
            }
            h += 1;
        }
        let mut i: usize = 0;
        while i < self.entries.len()
            invariant
                i <= self.entries.len(),
                find_exact_in(self@, did@, scope, query@, 0) == self@.len(),
                find_exact(self@, did@, query@, 0) == find_exact(self@, did@, query@, i as int),
            decreases self.entries.len() - i,
        {
            if is_full_id(did, self.entries[i].method.fragment(), query) {
                return Some(i);
            }
            i += 1;
        }
        let mut j: usize = 0;
        while j < self.entries.len()
            invariant
                j <= self.entries.len(),
                find_exact_in(self@, did@, scope, query@, 0) == self@.len(),
                find_exact(self@, did@, query@, 0) == self@.len(),
                find_fragment(self@, scope, query@, 0) == find_fragment(
                    self@,
                    scope,
                    query@,
                    j as int,
                ),
            decreases self.entries.len() - j,
        {
            let entry: &Entry = &self.entries[j];
            if entry.scope == scope && is_fragment(entry.method.fragment(), query) {
                return Some(j);
            }
            j += 1;
        }
        None
    }

    /// The method that `query` resolves to, `MethodNotFound` where it
    /// resolves to none; see `resolved_index`.
    pub fn resolve(&self, did: &[u8], scope: MethodScope, query: &[u8]) -> (r: Result<
        &VerificationMethod,
        Error,
    >)
        ensures
            match r {
                Ok(m) => resolved(self@, did@, scope, query@) == Some(m@),
                Err(e) => e == Error::MethodNotFound && resolved(self@, did@, scope, query@) is None,
            },
    {
        match self.position(did, scope, query) {
            Some(i) => Ok(&self.entries[i].method),
            None => Err(Error::MethodNotFound),
        }
    }

    /// Revokes leaf `leaf` of the method at `index`; see
    /// `VerificationMethod::revoke_merkle_key`. The other entries stay.
    pub fn revoke_at(&mut self, index: usize, leaf: usize) -> (r: Result<bool, Error>)
        requires
            index < old(self)@.len(),
            old(self).wf(),
        ensures
            r == crate::method::leaf_revoked(old(self)@[index as int].method, leaf as int),
            final(self)@ == old(self)@.update(
                index as int,
                EntryView {
                    scope: old(self)@[index as int].scope,
                    method: crate::method::after_revoking(
                        old(self)@[index as int].method,
                        leaf as int,
                    ),
                },
            ),
            final(self).wf(),
    {
        let ghost before = self@;
        let r = self.entries[index].method.revoke_merkle_key(leaf);
        proof {
            assert(self@ =~= before.update(index as int, self@[index as int]));
            assert forall|i: int, j: int| 0 <= i < j < self@.len() implies !((
            #[trigger] self@[i]).scope == (#[trigger] self@[j]).scope && self@[i].method.fragment
                == self@[j].method.fragment) by {
                assert(before[i].scope == self@[i].scope && before[i].method.fragment
                    == self@[i].method.fragment);
                assert(before[j].scope == self@[j].scope && before[j].method.fragment
                    == self@[j].method.fragment);
            }
        }
        r
    }

    /// A copy of the registry.
    pub fn duplicate(&self) -> (r: VerificationMethodRegistry)
        ensures
            r@ == self@,
    {
        let mut entries: Vec<Entry> = Vec::new();
        let mut i: usize = 0;
        while i < self.entries.len()
            invariant
                i <= self.entries.len(),
                entries@.len() == i,
                forall|k: int| 0 <= k < i ==> (#[trigger] entries@[k])@ == self.entries@[k]@,
            decreases self.entries.len() - i,
        {
            entries.push(self.entries[i].duplicate());
            i += 1;
        }
        let r = VerificationMethodRegistry { entries };
        assert(r@ =~= self@);
        r
    }

    /// Appends the JSON array of the entries to `out`.
    pub fn write_json(&self, out: &mut Vec<u8>)
        ensures
            final(out)@ == old(out)@ + entries_json(self@),
    {
        push_text(out, "[");
        let ghost start = out@;
        let ghost all = self@;
        let mut i: usize = 0;
        assert(start + entries_body(all.take(0)) =~= start);
        while i < self.entries.len()
            invariant
                i <= self.entries.len(),
                all == self@,
                out@ == start + entries_body(all.take(i as int)),
            decreases self.entries.len() - i,
        {
            let ghost before = out@;
            if i > 0 {
                push_text(out, ",");
            }
            self.entries[i].write_json(out);
            proof {
                lemma_take_step(all, i as int);
                let t = all.take(i + 1);
                if i == 0 {
                    assert(t.len() == 1);
                    assert(entries_body(all.take(0)) =~= Seq::<u8>::empty());
                    assert(out@ =~= start + entries_body(t));
                } else {
                    assert(out@ =~= start + entries_body(t));
                }
            }
            i += 1;
        }
        proof {
            lemma_take_all(all);
        }
        push_text(out, "]");
        assert(out@ =~= old(out)@ + entries_json(self@));
    }
}

} // verus!
