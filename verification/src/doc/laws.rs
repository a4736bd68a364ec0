//! What holds of the maintenance of indexes, whatever the store and the
//! documents are.

use vstd::prelude::*;
use crate::dbs::Options;
use crate::doc::combinator::{columns, entries};
use crate::doc::index::{
    Added, DispatchView, FullTextCallView, FullTextEvent, FullTextState, Outcome, Pass, Scope,
    added, added_unique, full_text_step, maintained, non_unique_result, one_index_result,
    projected, refusal, removed, scope_of, unique_result,
};
use crate::key::laws::{clean_tuple, law_entry_key_injective, nul_free};
use crate::val::IdView;
use crate::expr::statements::define::DefineIndexStatement;
use crate::idx::builder::{IndexBuilder, QueuedView};
use crate::key::encode::STAR;
use crate::key::index_base;
use crate::kvs::ValView;
use crate::val::{ThingView, ValueView, all_none_or_null};

verus! {

/// What the keys of the entries of an index start with.
pub open spec fn entries_prefix(opt: &Options, ix: &DefineIndexStatement) -> Seq<u8> {
    index_base(opt.ns->0@, opt.db->0@, ix.what@, ix.name@).push(STAR)
}

/// Whether the store holds no key that starts with `prefix`.
pub open spec fn nothing_under(store: Map<Seq<u8>, ValView>, prefix: Seq<u8>) -> bool {
    forall|k: Seq<u8>| #[trigger] store.contains_key(k) ==> !prefix.is_prefix_of(k)
}

/// The removal of entries takes keys away and changes no value; and none of
/// the entries is left for the record.
#[verifier::spinoff_prover]
proof fn lemma_removed(
    store: Map<Seq<u8>, ValView>,
    s: Scope,
    unique: bool,
    es: Seq<Seq<ValueView>>,
    i: int,
)
    requires
        0 <= i <= es.len(),
    ensures
        removed(store, s, unique, es, i).submap_of(store),
        forall|j: int|
            i <= j < es.len() ==> !(removed(store, s, unique, es, i).contains_key(
                #[trigger] s.key(unique, es[j]),
            ) && removed(store, s, unique, es, i)[s.key(unique, es[j])] == s.owner()),
    decreases es.len() - i,
{
    if i < es.len() {
        let k = s.key(unique, es[i]);
        let next = if store.contains_key(k) && store[k] == s.owner() {
            store.remove(k)
        } else {
            store
        };
        lemma_removed(next, s, unique, es, i + 1);
        let r = removed(store, s, unique, es, i);
        assert(r == removed(next, s, unique, es, i + 1));
        assert(next.submap_of(store));
        assert forall|q: Seq<u8>| #[trigger] r.dom().contains(q) implies store.dom().contains(q)
            && r[q] == store[q] by {
            assert(next.dom().contains(q));
        }
        assert forall|j: int| i <= j < es.len() implies !(r.contains_key(
            #[trigger] s.key(unique, es[j]),
        ) && r[s.key(unique, es[j])] == s.owner()) by {
            if j == i {
                if r.contains_key(k) {
                    assert(next.contains_key(k) && next[k] == r[k]);
                }
            }
        }
    }
}

/// Where the addition of entries to a unique index ends well, it changes no
/// value that was there; what it adds belongs to the record and lies under
/// the key of an entry; and every entry that is not skipped is there for the
/// record.
#[verifier::spinoff_prover]
proof fn lemma_added_unique(
    store: Map<Seq<u8>, ValView>,
    s: Scope,
    es: Seq<Seq<ValueView>>,
    i: int,
)
    requires
        0 <= i <= es.len(),
        added_unique(store, s, es, i, None) is Done,
    ensures
        store.submap_of(added_unique(store, s, es, i, None)->Done_0),
        forall|k: Seq<u8>| #[trigger]
            added_unique(store, s, es, i, None)->Done_0.contains_key(k) ==> store.contains_key(k)
                || (added_unique(store, s, es, i, None)->Done_0[k] == s.owner() && exists|j: int|
                i <= j < es.len() && !all_none_or_null(es[j]) && k == #[trigger] s.key(
                    true,
                    es[j],
                )),
        forall|j: int|
            i <= j < es.len() && !all_none_or_null(es[j]) ==> added_unique(
                store,
                s,
                es,
                i,
                None,
            )->Done_0.contains_key(#[trigger] s.key(true, es[j])) && added_unique(
                store,
                s,
                es,
                i,
                None,
            )->Done_0[s.key(true, es[j])] == s.owner(),
    decreases es.len() - i,
{
    if i < es.len() {
        let r = added_unique(store, s, es, i, None)->Done_0;
        if all_none_or_null(es[i]) {
            lemma_added_unique(store, s, es, i + 1);
        } else {
            let k = s.key(true, es[i]);
            let next = store.insert(k, s.owner());
            lemma_added_unique(next, s, es, i + 1);
            assert(r == added_unique(next, s, es, i + 1, None)->Done_0);
            assert(store.submap_of(next));
            assert(next.contains_key(k));
            assert forall|q: Seq<u8>| #[trigger] store.dom().contains(q) implies r.dom().contains(q)
                && store[q] == r[q] by {
                assert(next.dom().contains(q));
            }
            assert forall|q: Seq<u8>| #[trigger] r.contains_key(q) implies store.contains_key(q)
                || (r[q] == s.owner() && exists|j: int|
                i <= j < es.len() && !all_none_or_null(es[j]) && q == #[trigger] s.key(
                    true,
                    es[j],
                )) by {
                if !store.contains_key(q) {
                    if next.contains_key(q) {
                        assert(q == s.key(true, es[i]));
                        assert(r[q] == next[q]);
                    } else {
                        let j = choose|j: int|
                            i + 1 <= j < es.len() && !all_none_or_null(es[j]) && q
                                == #[trigger] s.key(true, es[j]);
                        assert(i <= j < es.len() && q == s.key(true, es[j]));
                    }
                }
            }
        }
    }
}

/// Where the store holds the keys of all entries that are not skipped, and
/// there is such an entry, the addition ends at the first of them and leaves
/// the store as it was.
#[verifier::spinoff_prover]
proof fn lemma_conflict(store: Map<Seq<u8>, ValView>, s: Scope, es: Seq<Seq<ValueView>>, i: int)
    requires
        0 <= i <= es.len(),
        exists|j: int| i <= j < es.len() && !all_none_or_null(#[trigger] es[j]),
        forall|j: int|
            i <= j < es.len() && !all_none_or_null(es[j]) ==> store.contains_key(
                #[trigger] s.key(true, es[j]),
            ),
    ensures
        added_unique(store, s, es, i, None) matches Added::Conflict { at, store: left } && left
            == store && i <= at < es.len() && !all_none_or_null(es[at]),
    decreases es.len() - i,
{
    let w = choose|j: int| i <= j < es.len() && !all_none_or_null(#[trigger] es[j]);
    if all_none_or_null(es[i]) {
        assert(i + 1 <= w < es.len() && !all_none_or_null(es[w]));
        lemma_conflict(store, s, es, i + 1);
    } else {
        assert(store.contains_key(s.key(true, es[i])));
    }
}

/// Where the addition of entries ends well on one store, it ends well on
/// every store that holds no key of an entry that the first does not hold.
#[verifier::spinoff_prover]
proof fn lemma_added_where_free(
    first: Map<Seq<u8>, ValView>,
    second: Map<Seq<u8>, ValView>,
    s: Scope,
    es: Seq<Seq<ValueView>>,
    i: int,
)
    requires
        0 <= i <= es.len(),
        added_unique(first, s, es, i, None) is Done,
        forall|j: int|
            i <= j < es.len() && !all_none_or_null(es[j]) && second.contains_key(
                #[trigger] s.key(true, es[j]),
            ) ==> first.contains_key(s.key(true, es[j])),
    ensures
        added_unique(second, s, es, i, None) is Done,
    decreases es.len() - i,
{
    if i < es.len() {
        if all_none_or_null(es[i]) {
            lemma_added_where_free(first, second, s, es, i + 1);
        } else {
            let k = s.key(true, es[i]);
            assert(!first.contains_key(k));
            assert(!second.contains_key(k));
            let f = first.insert(k, s.owner());
            let g = second.insert(k, s.owner());
            assert forall|j: int|
                i + 1 <= j < es.len() && !all_none_or_null(es[j]) && g.contains_key(
                    #[trigger] s.key(true, es[j]),
                ) implies f.contains_key(s.key(true, es[j])) by {
                if s.key(true, es[j]) != k {
                    assert(second.contains_key(s.key(true, es[j])));
                }
            }
            lemma_added_where_free(f, g, s, es, i + 1);
        }
    }
}

/// A record that is written again with the tuple that it has keeps its
/// entries: its old entries are out of the way before the new ones are
/// added, so that the unique index finds no duplicate; and the store holds
/// nothing that it did not hold before.
#[verifier::spinoff_prover]
pub proof fn law_unique_rewrite(
    store: Map<Seq<u8>, ValView>,
    opt: &Options,
    ix: &DefineIndexStatement,
    n: Seq<ValueView>,
    rid: ThingView,
)
    requires
        opt.has_ns_db(),
        unique_result(store, None, opt, ix, None, Some(n), rid).1 is Done,
    ensures
        ({
            let created = unique_result(store, None, opt, ix, None, Some(n), rid).0;
            let (after, out) = unique_result(created, None, opt, ix, Some(n), Some(n), rid);
            let s = scope_of(opt, ix, rid);
            let es = entries(columns(n, ix));
            &&& out is Done
            &&& after.submap_of(created)
            &&& forall|j: int|
                0 <= j < es.len() && !all_none_or_null(es[j]) ==> after.contains_key(
                    #[trigger] s.key(true, es[j]),
                ) && after[s.key(true, es[j])] == s.owner()
        }),
{
    let s = scope_of(opt, ix, rid);
    let es = entries(columns(n, ix));
    let created = unique_result(store, None, opt, ix, None, Some(n), rid).0;
    assert(added_unique(store, s, es, 0, None) == Added::Done(created));
    lemma_added_unique(store, s, es, 0);
    let cleared = removed(created, s, true, es, 0);
    lemma_removed(created, s, true, es, 0);
    assert forall|j: int|
        0 <= j < es.len() && !all_none_or_null(es[j]) && cleared.contains_key(
            #[trigger] s.key(true, es[j]),
        ) implies store.contains_key(s.key(true, es[j])) by {
        let k = s.key(true, es[j]);
        assert(created.contains_key(k) && created[k] == s.owner());
        assert(cleared[k] == created[k]);
        assert(!(cleared.contains_key(s.key(true, es[j])) && cleared[s.key(true, es[j])]
            == s.owner()));
    }
    lemma_added_where_free(store, cleared, s, es, 0);
    lemma_added_unique(cleared, s, es, 0);
    let after = added_unique(cleared, s, es, 0, None)->Done_0;
    assert forall|k: Seq<u8>| #[trigger] after.dom().contains(k) implies created.dom().contains(k)
        && after[k] == created[k] by {
        if cleared.contains_key(k) {
            assert(cleared.dom().contains(k));
            assert(after[k] == cleared[k]);
        } else {
            assert(after.contains_key(k));
            let j = choose|j: int|
                0 <= j < es.len() && !all_none_or_null(es[j]) && k == #[trigger] s.key(
                    true,
                    es[j],
                );
            assert(created.contains_key(s.key(true, es[j])));
        }
    }
}

/// A record that is added to a unique index and then removed from it leaves
/// nothing behind: the store holds no key and no value that it did not hold
/// before. Where the store held no entry of the index before, it holds none
/// after.
#[verifier::spinoff_prover]
pub proof fn law_unique_round_trip(
    store: Map<Seq<u8>, ValView>,
    opt: &Options,
    ix: &DefineIndexStatement,
    n: Seq<ValueView>,
    rid: ThingView,
)
    requires
        opt.has_ns_db(),
        unique_result(store, None, opt, ix, None, Some(n), rid).1 is Done,
    ensures
        ({
            let created = unique_result(store, None, opt, ix, None, Some(n), rid).0;
            let (after, out) = unique_result(created, None, opt, ix, Some(n), None, rid);
            &&& out is Done
            &&& after.submap_of(store)
            &&& nothing_under(store, entries_prefix(opt, ix)) ==> nothing_under(
                after,
                entries_prefix(opt, ix),
            )
        }),
{
    let s = scope_of(opt, ix, rid);
    let es = entries(columns(n, ix));
    let created = unique_result(store, None, opt, ix, None, Some(n), rid).0;
    assert(added_unique(store, s, es, 0, None) == Added::Done(created));
    let after = removed(created, s, true, es, 0);
    lemma_added_unique(store, s, es, 0);
    lemma_removed(created, s, true, es, 0);
    assert forall|k: Seq<u8>| #[trigger] after.contains_key(k) implies store.contains_key(k)
        && after[k] == store[k] by {
        assert(created.contains_key(k) && created[k] == after[k]);
        if !store.contains_key(k) {
            let j = choose|j: int|
                0 <= j < es.len() && !all_none_or_null(es[j]) && k == #[trigger] s.key(
                    true,
                    es[j],
                );
            assert(!(after.contains_key(s.key(true, es[j])) && after[s.key(true, es[j])]
                == s.owner()));
        }
    }
}

/// What the writing of entries to an index that is not unique leaves in the
/// store: what was there, but that every entry now belongs to the record.
#[verifier::spinoff_prover]
proof fn lemma_added(store: Map<Seq<u8>, ValView>, s: Scope, es: Seq<Seq<ValueView>>, i: int)
    requires
        0 <= i <= es.len(),
    ensures
        forall|k: Seq<u8>| #[trigger]
            added(store, s, es, i).contains_key(k) ==> (store.contains_key(k) && store[k] == added(
                store,
                s,
                es,
                i,
            )[k]) || (added(store, s, es, i)[k] == s.owner() && exists|j: int|
                i <= j < es.len() && k == #[trigger] s.key(false, es[j])),
    decreases es.len() - i,
{
    if i < es.len() {
        let k = s.key(false, es[i]);
        let next = store.insert(k, s.owner());
        lemma_added(next, s, es, i + 1);
        let r = added(store, s, es, i);
        assert forall|q: Seq<u8>| #[trigger] r.contains_key(q) implies (store.contains_key(q)
            && store[q] == r[q]) || (r[q] == s.owner() && exists|j: int|
            i <= j < es.len() && q == #[trigger] s.key(false, es[j])) by {
            if !(next.contains_key(q) && next[q] == r[q]) {
                let j = choose|j: int| i + 1 <= j < es.len() && q == #[trigger] s.key(false, es[j]);
                assert(i <= j < es.len() && q == s.key(false, es[j]));
            } else if q == k {
                assert(q == s.key(false, es[i]));
            }
        }
    }
}

/// A record that is added to an index that is not unique and then removed
/// from it leaves nothing behind: the store holds no key and no value that it
/// did not hold before.
#[verifier::spinoff_prover]
pub proof fn law_plain_round_trip(
    store: Map<Seq<u8>, ValView>,
    opt: &Options,
    ix: &DefineIndexStatement,
    n: Seq<ValueView>,
    rid: ThingView,
)
    requires
        opt.has_ns_db(),
    ensures
        ({
            let (created, first) = non_unique_result(store, None, opt, ix, None, Some(n), rid);
            let (after, out) = non_unique_result(created, None, opt, ix, Some(n), None, rid);
            &&& first is Done
            &&& out is Done
            &&& after.submap_of(store)
            &&& nothing_under(store, entries_prefix(opt, ix)) ==> nothing_under(
                after,
                entries_prefix(opt, ix),
            )
        }),
{
    let s = scope_of(opt, ix, rid);
    let es = entries(columns(n, ix));
    let created = added(store, s, es, 0);
    let after = removed(created, s, false, es, 0);
    lemma_added(store, s, es, 0);
    lemma_removed(created, s, false, es, 0);
    assert forall|k: Seq<u8>| #[trigger] after.contains_key(k) implies store.contains_key(k)
        && after[k] == store[k] by {
        assert(created.contains_key(k) && created[k] == after[k]);
        if !(store.contains_key(k) && store[k] == created[k]) {
            let j = choose|j: int| 0 <= j < es.len() && k == #[trigger] s.key(false, es[j]);
            assert(!(after.contains_key(s.key(false, es[j])) && after[s.key(false, es[j])]
                == s.owner()));
        }
    }
}

/// A unique index refuses a tuple that it holds already: where a record was
/// added with a tuple that has an entry with a value, the addition of another
/// record with the same tuple ends with a duplicate that names the first
/// record, and writes nothing.
#[verifier::spinoff_prover]
pub proof fn law_unique_duplicate(
    store: Map<Seq<u8>, ValView>,
    opt: &Options,
    ix: &DefineIndexStatement,
    n: Seq<ValueView>,
    first: ThingView,
    second: ThingView,
)
    requires
        opt.has_ns_db(),
        exists|j: int|
            0 <= j < entries(columns(n, ix)).len() && !all_none_or_null(
                #[trigger] entries(columns(n, ix))[j],
            ),
        unique_result(store, None, opt, ix, None, Some(n), first).1 is Done,
    ensures
        ({
            let created = unique_result(store, None, opt, ix, None, Some(n), first).0;
            let (after, out) = unique_result(created, None, opt, ix, None, Some(n), second);
            &&& after == created
            &&& out matches Outcome::Duplicate { at, owner }
            &&& owner == first
            &&& 0 <= at < entries(columns(n, ix)).len()
            &&& !all_none_or_null(entries(columns(n, ix))[at])
        }),
{
    let s1 = scope_of(opt, ix, first);
    let s2 = scope_of(opt, ix, second);
    let es = entries(columns(n, ix));
    let created = unique_result(store, None, opt, ix, None, Some(n), first).0;
    assert(added_unique(store, s1, es, 0, None) == Added::Done(created));
    lemma_added_unique(store, s1, es, 0);
    assert forall|j: int| 0 <= j < es.len() && !all_none_or_null(es[j]) implies created.contains_key(
        #[trigger] s2.key(true, es[j]),
    ) by {
        assert(s2.key(true, es[j]) == s1.key(true, es[j]));
    }
    lemma_conflict(created, s2, es, 0);
    let at = added_unique(created, s2, es, 0, None)->at;
    assert(s2.key(true, es[at]) == s1.key(true, es[at]));
}

/// A document that a statement did not change costs no write: where the
/// indexes were not named to be written and the document is what it was, a
/// pass leaves the store and the builder's queue as they are, hands nothing
/// back and does not fail.
#[verifier::spinoff_prover]
pub proof fn law_unchanged_is_no_op(
    store: Map<Seq<u8>, ValView>,
    write_error: Option<crate::err::Error>,
    ib: IndexBuilder,
    queue: Seq<QueuedView>,
    opt: &Options,
    ixs: Seq<DefineIndexStatement>,
    i: int,
    doc: Option<ValueView>,
    rid: ThingView,
    done: Seq<(int, DispatchView)>,
)
    requires
        0 <= i <= ixs.len(),
    ensures
        maintained(store, write_error, ib, queue, opt, ixs, i, doc, doc, rid, false, done) == (Pass {
            store,
            queue,
            dispatches: done,
            failure: None,
        }),
    decreases ixs.len() - i,
{
    if i < ixs.len() {
        law_unchanged_is_no_op(store, write_error, ib, queue, opt, ixs, i + 1, doc, rid, done);
    }
}

/// How far the maintenance of a full-text index is from its end.
pub open spec fn full_text_rank(state: FullTextState) -> nat {
    match state {
        FullTextState::Idle => 4,
        FullTextState::Deleting => 3,
        FullTextState::Inserting => 2,
        FullTextState::RemovingDoc { .. } => 2,
        FullTextState::Compacting => 1,
        FullTextState::Done => 0,
    }
}

/// The maintenance of a full-text index goes forward: every step brings it
/// nearer to its end, a call is to be made unless it is at its end, the old
/// content is removed only at the start, and new content is added only where
/// there is some.
#[verifier::spinoff_prover]
pub proof fn law_full_text_progress(
    state: FullTextState,
    event: FullTextEvent,
    o: Option<Seq<ValueView>>,
    n: Option<Seq<ValueView>>,
)
    requires
        full_text_step(state, event, o, n) is Some,
    ensures
        ({
            let (next, call) = full_text_step(state, event, o, n)->0;
            &&& full_text_rank(next) < full_text_rank(state)
            &&& call is None <==> next is Done
            &&& call matches Some(FullTextCallView::RemoveContent(v)) ==> state is Idle && o == Some(v)
            &&& call matches Some(FullTextCallView::IndexContent { values, .. }) ==> n == Some(values)
            &&& !(state is Done)
        }),
{
}

/// Whether the store holds the entries `es` for the record of the scope:
/// every entry, where the index is not unique; where it is unique, every
/// entry that has a value other than `Nothing` and `Null`.
pub open spec fn holds(store: Map<Seq<u8>, ValView>, s: Scope, unique: bool, es: Seq<Seq<ValueView>>) -> bool {
    forall|j: int|
        0 <= j < es.len() && !(unique && all_none_or_null(es[j])) ==> store.contains_key(
            #[trigger] s.key(unique, es[j]),
        ) && store[s.key(unique, es[j])] == s.owner()
}

/// Whether the store holds for the record `rid` the entries of the tuple `n`
/// in the index `ix`.
pub open spec fn holds_entries(
    store: Map<Seq<u8>, ValView>,
    opt: &Options,
    ix: &DefineIndexStatement,
    n: Seq<ValueView>,
    rid: ThingView,
) -> bool {
    holds(store, scope_of(opt, ix, rid), ix.index is Uniq, entries(columns(n, ix)))
}

/// Whether the names of a scope hold no zero byte.
pub open spec fn apart(s: Scope) -> bool {
    &&& nul_free(s.ns) && nul_free(s.db) && nul_free(s.tb) && nul_free(s.ix)
    &&& s.rid.id matches IdView::String(x) ==> nul_free(x)
}

/// Whether every entry holds only values that a key can hold.
pub open spec fn clean_entries(es: Seq<Seq<ValueView>>) -> bool {
    forall|j: int| 0 <= j < es.len() ==> clean_tuple(#[trigger] es[j])
}

/// The removal of entries leaves alone what is stored under other keys.
#[verifier::spinoff_prover]
proof fn lemma_removed_frame(
    store: Map<Seq<u8>, ValView>,
    s: Scope,
    unique: bool,
    es: Seq<Seq<ValueView>>,
    i: int,
    k: Seq<u8>,
)
    requires
        0 <= i <= es.len(),
        store.contains_key(k),
        forall|j: int| i <= j < es.len() ==> k != #[trigger] s.key(unique, es[j]),
    ensures
        removed(store, s, unique, es, i).contains_key(k),
        removed(store, s, unique, es, i)[k] == store[k],
    decreases es.len() - i,
{
    if i < es.len() {
        let q = s.key(unique, es[i]);
        assert(k != q);
        let next = if store.contains_key(q) && store[q] == s.owner() {
            store.remove(q)
        } else {
            store
        };
        lemma_removed_frame(next, s, unique, es, i + 1, k);
    }
}

/// The addition of entries to an index that is not unique keeps every key of
/// the store, and the store holds every entry for the record afterwards.
#[verifier::spinoff_prover]
proof fn lemma_added_holds(store: Map<Seq<u8>, ValView>, s: Scope, es: Seq<Seq<ValueView>>, i: int)
    requires
        0 <= i <= es.len(),
    ensures
        forall|k: Seq<u8>| #[trigger]
            store.contains_key(k) ==> added(store, s, es, i).contains_key(k) && (added(
                store,
                s,
                es,
                i,
            )[k] == store[k] || added(store, s, es, i)[k] == s.owner()),
        forall|j: int|
            i <= j < es.len() ==> added(store, s, es, i).contains_key(
                #[trigger] s.key(false, es[j]),
            ) && added(store, s, es, i)[s.key(false, es[j])] == s.owner(),
    decreases es.len() - i,
{
    if i < es.len() {
        let q = s.key(false, es[i]);
        let next = store.insert(q, s.owner());
        lemma_added_holds(next, s, es, i + 1);
        let r = added(store, s, es, i);
        assert(r == added(next, s, es, i + 1));
        assert forall|k: Seq<u8>| #[trigger] store.contains_key(k) implies r.contains_key(k) && (r[k]
            == store[k] || r[k] == s.owner()) by {
            assert(next.contains_key(k));
        }
        assert forall|j: int| i <= j < es.len() implies r.contains_key(
            #[trigger] s.key(false, es[j]),
        ) && r[s.key(false, es[j])] == s.owner() by {
            if j == i {
                assert(next.contains_key(q));
            }
        }
    }
}

/// Where nothing can be written, the addition to a unique index comes to its
/// end only if every entry is skipped, and it leaves the store as it was.
#[verifier::spinoff_prover]
proof fn lemma_added_unique_refused(
    store: Map<Seq<u8>, ValView>,
    s: Scope,
    es: Seq<Seq<ValueView>>,
    i: int,
    stop: Option<crate::err::Error>,
)
    requires
        0 <= i <= es.len(),
        stop is Some,
        added_unique(store, s, es, i, stop) is Done,
    ensures
        forall|j: int| i <= j < es.len() ==> all_none_or_null(#[trigger] es[j]),
    decreases es.len() - i,
{
    if i < es.len() {
        lemma_added_unique_refused(store, s, es, i + 1, stop);
    }
}

/// An index that was written for a record holds the entries of the record's
/// tuple: where the maintenance of a unique or plain index that no build
/// claims comes to its end, the store holds the entries of the new tuple for
/// the record, whatever the old tuple was.
#[verifier::spinoff_prover]
pub proof fn law_written_entries_exist(
    store: Map<Seq<u8>, ValView>,
    write_error: Option<crate::err::Error>,
    queue: Seq<QueuedView>,
    opt: &Options,
    ix: &DefineIndexStatement,
    o: Option<Seq<ValueView>>,
    n: Seq<ValueView>,
    rid: ThingView,
)
    requires
        ix.index is Uniq || ix.index is Idx,
        one_index_result(store, write_error, false, queue, opt, ix, o, Some(n), rid).outcome is Done,
    ensures
        holds_entries(
            one_index_result(store, write_error, false, queue, opt, ix, o, Some(n), rid).store,
            opt,
            ix,
            n,
            rid,
        ),
{
    let s = scope_of(opt, ix, rid);
    let es = entries(columns(n, ix));
    let stop = refusal(opt, write_error);
    let x = one_index_result(store, write_error, false, queue, opt, ix, o, Some(n), rid);
    let cleared = match o {
        Some(o) => removed(store, s, ix.index is Uniq, entries(columns(o, ix)), 0),
        None => store,
    };
    if ix.index is Uniq {
        assert(x.store == unique_result(store, write_error, opt, ix, o, Some(n), rid).0);
        assert(added_unique(cleared, s, es, 0, stop) is Done);
        if stop is Some {
            lemma_added_unique_refused(cleared, s, es, 0, stop);
        } else {
            lemma_added_unique(cleared, s, es, 0);
        }
    } else {
        assert(x.store == non_unique_result(store, write_error, opt, ix, o, Some(n), rid).0);
        assert(stop is None);
        lemma_added_holds(cleared, s, es, 0);
    }
}

/// Writing the entries of a tuple again, for a unique index, leaves in place
/// the entries that the store holds for the same record, of this index or of
/// another.
#[verifier::spinoff_prover]
proof fn lemma_unique_rewrite_keeps(
    store: Map<Seq<u8>, ValView>,
    s: Scope,
    es: Seq<Seq<ValueView>>,
    t: Scope,
    unique: bool,
    held: Seq<Seq<ValueView>>,
)
    requires
        s.rid == t.rid,
        apart(s),
        apart(t),
        clean_entries(es),
        clean_entries(held),
        holds(store, t, unique, held),
        added_unique(removed(store, s, true, es, 0), s, es, 0, None) is Done,
    ensures
        holds(added_unique(removed(store, s, true, es, 0), s, es, 0, None)->Done_0, t, unique, held),
{
    let cleared = removed(store, s, true, es, 0);
    let after = added_unique(cleared, s, es, 0, None)->Done_0;
    lemma_added_unique(cleared, s, es, 0);
    assert forall|j: int| 0 <= j < held.len() && !(unique && all_none_or_null(held[j])) implies
        after.contains_key(#[trigger] t.key(unique, held[j])) && after[t.key(unique, held[j])]
        == t.owner() by {
        let k = t.key(unique, held[j]);
        assert(store.contains_key(k) && store[k] == t.owner());
        if exists|m: int| 0 <= m < es.len() && k == #[trigger] s.key(true, es[m]) {
            let m = choose|m: int| 0 <= m < es.len() && k == #[trigger] s.key(true, es[m]);
            assert(clean_tuple(es[m]));
            assert(clean_tuple(held[j]));
            law_entry_key_injective(
                t.ns,
                t.db,
                t.tb,
                t.ix,
                held[j],
                if unique {
                    None
                } else {
                    Some(t.rid.id)
                },
                s.ns,
                s.db,
                s.tb,
                s.ix,
                es[m],
                None,
            );
            assert(held[j] == es[m]);
            assert(unique);
            assert(!all_none_or_null(es[m]));
            assert(after.contains_key(s.key(true, es[m])));
        } else {
            lemma_removed_frame(store, s, true, es, 0, k);
            assert(cleared.dom().contains(k));
            assert(after.dom().contains(k) && after[k] == cleared[k]);
        }
    }
}

/// Writing the entries of a tuple again, for an index that is not unique,
/// leaves in place the entries that the store holds for the same record, of
/// this index or of another.
#[verifier::spinoff_prover]
proof fn lemma_plain_rewrite_keeps(
    store: Map<Seq<u8>, ValView>,
    s: Scope,
    es: Seq<Seq<ValueView>>,
    t: Scope,
    unique: bool,
    held: Seq<Seq<ValueView>>,
)
    requires
        s.rid == t.rid,
        holds(store, t, unique, held),
    ensures
        holds(added(removed(store, s, false, es, 0), s, es, 0), t, unique, held),
{
    let cleared = removed(store, s, false, es, 0);
    let after = added(cleared, s, es, 0);
    lemma_added_holds(cleared, s, es, 0);
    assert forall|j: int| 0 <= j < held.len() && !(unique && all_none_or_null(held[j])) implies
        after.contains_key(#[trigger] t.key(unique, held[j])) && after[t.key(unique, held[j])]
        == t.owner() by {
        let k = t.key(unique, held[j]);
        assert(store.contains_key(k) && store[k] == t.owner());
        if exists|m: int| 0 <= m < es.len() && k == #[trigger] s.key(false, es[m]) {
            let m = choose|m: int| 0 <= m < es.len() && k == #[trigger] s.key(false, es[m]);
            assert(after.contains_key(s.key(false, es[m])));
        } else {
            lemma_removed_frame(store, s, false, es, 0, k);
            assert(cleared.contains_key(k));
        }
    }
}

/// Whether the names of the index, of the selected namespace and database
/// and of the record hold no zero byte, and the entries of the tuple that
/// the document projects for the index only values that a key can hold.
pub open spec fn keys_apart(
    opt: &Options,
    ix: &DefineIndexStatement,
    doc: ValueView,
    rid: ThingView,
) -> bool {
    &&& apart(scope_of(opt, ix, rid))
    &&& clean_entries(entries(columns(projected(ix, Some(doc))->0, ix)))
}

/// Whether the entries of an index are written to the store: the index is
/// unique or plain, and no build claims it.
pub open spec fn is_stored(ib: IndexBuilder, ix: &DefineIndexStatement) -> bool {
    (ix.index is Uniq || ix.index is Idx) && !ib.claims(ix)
}

/// The pass of the law below, from position `i` on: what the store holds for
/// the indexes before `i` it holds at the end, and the entries of the indexes
/// from `i` on as well.
#[verifier::spinoff_prover]
proof fn lemma_forced_entries_exist(
    store: Map<Seq<u8>, ValView>,
    write_error: Option<crate::err::Error>,
    ib: IndexBuilder,
    queue: Seq<QueuedView>,
    opt: &Options,
    ixs: Seq<DefineIndexStatement>,
    i: int,
    doc: ValueView,
    rid: ThingView,
    done: Seq<(int, DispatchView)>,
)
    requires
        0 <= i <= ixs.len(),
        forall|k: int| 0 <= k < ixs.len() ==> keys_apart(opt, &#[trigger] ixs[k], doc, rid),
        forall|k: int|
            0 <= k < i && is_stored(ib, &#[trigger] ixs[k]) ==> holds_entries(
                store,
                opt,
                &ixs[k],
                projected(&ixs[k], Some(doc))->0,
                rid,
            ),
        maintained(
            store,
            write_error,
            ib,
            queue,
            opt,
            ixs,
            i,
            Some(doc),
            Some(doc),
            rid,
            true,
            done,
        ).failure is None,
    ensures
        forall|k: int|
            0 <= k < ixs.len() && is_stored(ib, &#[trigger] ixs[k]) ==> holds_entries(
                maintained(
                    store,
                    write_error,
                    ib,
                    queue,
                    opt,
                    ixs,
                    i,
                    Some(doc),
                    Some(doc),
                    rid,
                    true,
                    done,
                ).store,
                opt,
                &ixs[k],
                projected(&ixs[k], Some(doc))->0,
                rid,
            ),
    decreases ixs.len() - i,
{
    if i < ixs.len() {
        let ix = &ixs[i];
        let n = projected(ix, Some(doc));
        let x = one_index_result(store, write_error, ib.claims(ix), queue, opt, ix, n, n, rid);
        assert(x.outcome is Done);
        let s = scope_of(opt, ix, rid);
        let es = entries(columns(n->0, ix));
        assert(keys_apart(opt, ix, doc, rid));
        assert forall|k: int| 0 <= k < i + 1 && is_stored(ib, &#[trigger] ixs[k]) implies
            holds_entries(x.store, opt, &ixs[k], projected(&ixs[k], Some(doc))->0, rid) by {
            let t = scope_of(opt, &ixs[k], rid);
            let held = entries(columns(projected(&ixs[k], Some(doc))->0, &ixs[k]));
            assert(keys_apart(opt, &ixs[k], doc, rid));
            if k == i {
                law_written_entries_exist(store, write_error, queue, opt, ix, n, n->0, rid);
            } else if is_stored(ib, ix) {
                assert(holds(store, t, ixs[k].index is Uniq, held));
                assert(refusal(opt, write_error) is None);
                if ix.index is Uniq {
                    assert(x.store == unique_result(store, write_error, opt, ix, n, n, rid).0);
                    lemma_unique_rewrite_keeps(store, s, es, t, ixs[k].index is Uniq, held);
                } else {
                    assert(x.store == non_unique_result(store, write_error, opt, ix, n, n, rid).0);
                    lemma_plain_rewrite_keeps(store, s, es, t, ixs[k].index is Uniq, held);
                }
            } else {
                assert(x.store == store);
            }
        }
        lemma_forced_entries_exist(
            x.store,
            write_error,
            ib,
            x.queue,
            opt,
            ixs,
            i + 1,
            doc,
            rid,
            done.push((i, x.dispatch)),
        );
    }
}

/// Indexes that are named to be written are written though the document is
/// what it was: where the pass over them does not fail, it worked on every
/// one of them, in their order, and the store then holds, for each of them
/// that is unique or plain and that no build claims, the entries of the
/// tuple that the document projects.
///
/// A name ends at its zero byte, so the law asks of the names and of the
/// entries that they hold none: otherwise one entry can take the key of
/// another.
#[verifier::spinoff_prover]
pub proof fn law_forced_entries_exist(
    store: Map<Seq<u8>, ValView>,
    write_error: Option<crate::err::Error>,
    ib: IndexBuilder,
    queue: Seq<QueuedView>,
    opt: &Options,
    ixs: Seq<DefineIndexStatement>,
    doc: ValueView,
    rid: ThingView,
)
    requires
        forall|k: int| 0 <= k < ixs.len() ==> keys_apart(opt, &#[trigger] ixs[k], doc, rid),
        maintained(
            store,
            write_error,
            ib,
            queue,
            opt,
            ixs,
            0,
            Some(doc),
            Some(doc),
            rid,
            true,
            Seq::empty(),
        ).failure is None,
    ensures
        ({
            let pass = maintained(
                store,
                write_error,
                ib,
                queue,
                opt,
                ixs,
                0,
                Some(doc),
                Some(doc),
                rid,
                true,
                Seq::empty(),
            );
            &&& pass.dispatches.len() == ixs.len()
            &&& forall|k: int| 0 <= k < ixs.len() ==> (#[trigger] pass.dispatches[k]).0 == k
            &&& forall|k: int|
                0 <= k < ixs.len() && is_stored(ib, &#[trigger] ixs[k]) ==> holds_entries(
                    pass.store,
                    opt,
                    &ixs[k],
                    projected(&ixs[k], Some(doc))->0,
                    rid,
                )
        }),
{
    lemma_forced_entries_exist(
        store,
        write_error,
        ib,
        queue,
        opt,
        ixs,
        0,
        doc,
        rid,
        Seq::empty(),
    );
    lemma_forced_works_on_each(
        store,
        write_error,
        ib,
        queue,
        opt,
        ixs,
        0,
        Some(doc),
        Some(doc),
        rid,
        Seq::empty(),
    );
}

/// A pass over indexes that are named to be written works on every index
/// from position `i` on, in their order, where it does not fail.
#[verifier::spinoff_prover]
proof fn lemma_forced_works_on_each(
    store: Map<Seq<u8>, ValView>,
    write_error: Option<crate::err::Error>,
    ib: IndexBuilder,
    queue: Seq<QueuedView>,
    opt: &Options,
    ixs: Seq<DefineIndexStatement>,
    i: int,
    initial: Option<ValueView>,
    current: Option<ValueView>,
    rid: ThingView,
    done: Seq<(int, DispatchView)>,
)
    requires
        0 <= i <= ixs.len(),
        done.len() == i,
        forall|k: int| 0 <= k < i ==> (#[trigger] done[k]).0 == k,
        maintained(store, write_error, ib, queue, opt, ixs, i, initial, current, rid, true, done).failure is None,
    ensures
        ({
            let pass = maintained(
                store,
                write_error,
                ib,
                queue,
                opt,
                ixs,
                i,
                initial,
                current,
                rid,
                true,
                done,
            );
            &&& pass.dispatches.len() == ixs.len()
            &&& forall|k: int| 0 <= k < ixs.len() ==> (#[trigger] pass.dispatches[k]).0 == k
        }),
    decreases ixs.len() - i,
{
    if i < ixs.len() {
        let ix = &ixs[i];
        let x = one_index_result(
            store,
            write_error,
            ib.claims(ix),
            queue,
            opt,
            ix,
            projected(ix, initial),
            projected(ix, current),
            rid,
        );
        lemma_forced_works_on_each(
            x.store,
            write_error,
            ib,
            x.queue,
            opt,
            ixs,
            i + 1,
            initial,
            current,
            rid,
            done.push((i, x.dispatch)),
        );
    }
}

} // verus!
