//! The pointers that make a relation record an edge of the graph.
//!
//! An edge `e` from the record `l` to the record `r` is stored as four
//! pointers: from `l` out to `e`, from `e` in to `l`, from `e` out to `r`,
//! and from `r` in to `e`. Each end of the edge is so found from the other in
//! one lookup.

use vstd::prelude::*;
use crate::dbs::Options;
use crate::doc::{Document, Workable};
use crate::err::Error;
use crate::expr::statements::define::DefineTableStatement;
use crate::key::graph::{Dir, graph_key};
use crate::key::laws::{law_graph_key_injective, record_key, thing_nul_free};
use crate::kvs::{Transaction, Val, ValView};
use crate::val::{Thing, ThingView, Value, ValueView, with_field};

verus! {

/// The keys of the four pointers of the edge `e` from `l` to `r`.
pub open spec fn edge_keys(ns: Seq<char>, db: Seq<char>, l: ThingView, e: ThingView, r: ThingView) -> Seq<
    Seq<u8>,
> {
    seq![
        graph_key(ns, db, l, Dir::Out, e),
        graph_key(ns, db, e, Dir::In, l),
        graph_key(ns, db, e, Dir::Out, r),
        graph_key(ns, db, r, Dir::In, e),
    ]
}

/// The store with the four pointers of the edge `e` from `l` to `r`.
pub open spec fn with_edge(
    store: Map<Seq<u8>, ValView>,
    ns: Seq<char>,
    db: Seq<char>,
    l: ThingView,
    e: ThingView,
    r: ThingView,
) -> Map<Seq<u8>, ValView> {
    let k = edge_keys(ns, db, l, e, r);
    store.insert(k[0], ValView::Unit).insert(k[1], ValView::Unit).insert(k[2], ValView::Unit).insert(
        k[3],
        ValView::Unit,
    )
}

/// The document of an edge from `l` to `r`: the fields `edge`, `in` and `out`
/// tell that it is one, where it comes from and where it goes.
pub open spec fn annotated(doc: Option<ValueView>, l: ThingView, r: ThingView) -> ValueView {
    let start = match doc {
        Some(d) => d,
        None => ValueView::Nothing,
    };
    with_field(
        with_field(with_field(start, "edge"@, ValueView::Bool(true)), "in"@, ValueView::Thing(l)),
        "out"@,
        ValueView::Thing(r),
    )
}

/// How the storing of the pointers of an edge ends.
pub enum EdgeOutcome {
    /// There was nothing to store: the table keeps no records, or the
    /// statement relates nothing.
    Skipped,
    /// The four pointers are stored.
    Stored,
    /// No namespace or database is selected, the document has no id, or the
    /// transaction refuses.
    Failed(Error),
    /// The relation is enforced and this record does not exist.
    Missing(ThingView),
}

/// What the storing of the pointers of an edge does to the store, and how it
/// ends. Nothing is written unless everything is.
pub open spec fn edges_result(
    store: Map<Seq<u8>, ValView>,
    is_done: bool,
    write_error: Option<Error>,
    opt: &Options,
    tb: &DefineTableStatement,
    id: Option<Thing>,
    extras: Workable,
) -> (Map<Seq<u8>, ValView>, EdgeOutcome) {
    if tb.drop || !(extras is Relate) {
        (store, EdgeOutcome::Skipped)
    } else if !opt.has_ns_db() {
        (store, EdgeOutcome::Failed(opt.ns_db_error()))
    } else if id is None {
        (store, EdgeOutcome::Failed(Error::IdMissing))
    } else {
        let ns = opt.ns->0@;
        let db = opt.db->0@;
        let l = extras->Relate_0@;
        let r = extras->Relate_1@;
        if tb.kind.is_enforced() && is_done {
            (store, EdgeOutcome::Failed(Error::TxFinished))
        } else if tb.kind.is_enforced() && !store.contains_key(record_key(ns, db, l)) {
            (store, EdgeOutcome::Missing(l))
        } else if tb.kind.is_enforced() && !store.contains_key(record_key(ns, db, r)) {
            (store, EdgeOutcome::Missing(r))
        } else if write_error is Some {
            (store, EdgeOutcome::Failed(write_error->0))
        } else {
            (with_edge(store, ns, db, l, id->0@, r), EdgeOutcome::Stored)
        }
    }
}

impl Document {
    /// Stores the pointers of the edge that the document is, where the
    /// statement relates two records, and marks the document as an edge.
    ///
    /// Nothing is done where the table keeps no records. Where the relation
    /// is enforced, both records must exist: the first that does not ends
    /// the call with an error that names it, and nothing is written.
    pub fn store_edges_data(
        &mut self,
        txn: &mut Transaction,
        opt: &Options,
        tb: &DefineTableStatement,
    ) -> (res: Result<(), Error>)
        ensures
            final(txn).is_done() == old(txn).is_done(),
            final(txn).is_writeable() == old(txn).is_writeable(),
            final(self).id == old(self).id,
            final(self).extras == old(self).extras,
            final(self).initial == old(self).initial,
            final(self).current.rid == old(self).current.rid,
            ({
                let (m, out) = edges_result(
                    old(txn)@,
                    old(txn).is_done(),
                    old(txn).write_error(),
                    opt,
                    tb,
                    old(self).id,
                    old(self).extras,
                );
                &&& final(txn)@ == m
                &&& match out {
                    EdgeOutcome::Skipped => res is Ok && final(self).current == old(self).current,
                    EdgeOutcome::Stored => res is Ok && final(self).current.doc_view() == Some(
                        annotated(
                            old(self).current.doc_view(),
                            old(self).extras->Relate_0@,
                            old(self).extras->Relate_1@,
                        ),
                    ),
                    EdgeOutcome::Failed(e) => res == Err::<(), Error>(e) && final(self).current
                        == old(self).current,
                    EdgeOutcome::Missing(t) => final(self).current == old(self).current && (
                    res matches Err(Error::IdNotFound { rid }) && rid@ == t),
                }
            }),
    {
        // Check if the table is a view
        if tb.drop {
            return Ok(());
        }
        // Store the record edges
        if let Workable::Relate(l, r, _) = &self.extras {
            // Get the namespace / database
            let (ns, db) = opt.ns_db()?;
            // Get the record id
            let rid = self.id()?;
            // For enforced relations, ensure that the edges exist
            if tb.kind.enforced() {
                // Check that the `in` record exists
                let key = crate::key::thing::new(ns, db, l.tb.as_str(), &l.id).encode_key();
                if !txn.contains(&key)? {
                    return Err(Error::IdNotFound { rid: l.duplicate() });
                }
                // Check that the `out` record exists
                let key = crate::key::thing::new(ns, db, r.tb.as_str(), &r.id).encode_key();
                if !txn.contains(&key)? {
                    return Err(Error::IdNotFound { rid: r.duplicate() });
                }
            }
            // The two directions of a pointer
            let (o, i) = (Dir::Out, Dir::In);
            // Store the left pointer edge
            let key = crate::key::graph::new(ns, db, l.tb.as_str(), &l.id, &o, &rid).encode_key();
            txn.set(key, Val::Unit, opt.version)?;
            // Store the left inner edge
            let key = crate::key::graph::new(ns, db, rid.tb.as_str(), &rid.id, &i, l).encode_key();
            txn.set(key, Val::Unit, opt.version)?;
            // Store the right inner edge
            let key = crate::key::graph::new(ns, db, rid.tb.as_str(), &rid.id, &o, r).encode_key();
            txn.set(key, Val::Unit, opt.version)?;
            // Store the right pointer edge
            let key = crate::key::graph::new(ns, db, r.tb.as_str(), &r.id, &i, &rid).encode_key();
            txn.set(key, Val::Unit, opt.version)?;
            // Store the edges on the record
            let mut doc = match self.current.doc.take() {
                Some(d) => d,
                None => Value::Nothing,
            };
            doc.put_field("edge", Value::Bool(true));
            doc.put_field("in", Value::Thing(l.duplicate()));
            doc.put_field("out", Value::Thing(r.duplicate()));
            self.current.doc = Some(doc);
        }
        // Carry on
        Ok(())
    }
}

/// An enforced relation refuses an edge from or to a record that does not
/// exist: the storing ends by naming the record, the one that the edge comes
/// from first, and writes no pointer.
#[verifier::spinoff_prover]
pub proof fn law_enforced_rejection(
    store: Map<Seq<u8>, ValView>,
    write_error: Option<Error>,
    opt: &Options,
    tb: &DefineTableStatement,
    id: Option<Thing>,
    extras: Workable,
)
    requires
        !tb.drop,
        tb.kind.is_enforced(),
        opt.has_ns_db(),
        id is Some,
        extras is Relate,
        !store.contains_key(record_key(opt.ns->0@, opt.db->0@, extras->Relate_0@))
            || !store.contains_key(record_key(opt.ns->0@, opt.db->0@, extras->Relate_1@)),
    ensures
        edges_result(store, false, write_error, opt, tb, id, extras) == (
            store,
            EdgeOutcome::Missing(
                if !store.contains_key(record_key(opt.ns->0@, opt.db->0@, extras->Relate_0@)) {
                    extras->Relate_0@
                } else {
                    extras->Relate_1@
                },
            ),
        ),
{
}

/// Whether `k` is one of the four keys.
pub open spec fn is_edge_key(keys: Seq<Seq<u8>>, k: Seq<u8>) -> bool {
    k == keys[0] || k == keys[1] || k == keys[2] || k == keys[3]
}

/// Where the pointers of an edge are stored, each of the four lookups finds
/// its pointer, and the store holds everything else as it did before.
#[verifier::spinoff_prover]
pub proof fn law_edge_symmetry(
    store: Map<Seq<u8>, ValView>,
    is_done: bool,
    write_error: Option<Error>,
    opt: &Options,
    tb: &DefineTableStatement,
    id: Option<Thing>,
    extras: Workable,
)
    requires
        edges_result(store, is_done, write_error, opt, tb, id, extras).1 is Stored,
    ensures
        ({
            let after = edges_result(store, is_done, write_error, opt, tb, id, extras).0;
            let keys = edge_keys(
                opt.ns->0@,
                opt.db->0@,
                extras->Relate_0@,
                id->0@,
                extras->Relate_1@,
            );
            &&& forall|i: int|
                0 <= i < 4 ==> after.contains_key(#[trigger] keys[i]) && after[keys[i]]
                    == ValView::Unit
            &&& forall|k: Seq<u8>|
                !is_edge_key(keys, k) ==> #[trigger] after.contains_key(k) == store.contains_key(k)
                    && (store.contains_key(k) ==> after[k] == store[k])
        }),
{
}

/// An edge is four pointers, no fewer: where the edge is no loop from itself
/// to itself and the store held none of its pointers, the store holds four
/// keys more than before.
#[verifier::spinoff_prover]
pub proof fn law_edge_has_four_pointers(
    store: Map<Seq<u8>, ValView>,
    is_done: bool,
    write_error: Option<Error>,
    opt: &Options,
    tb: &DefineTableStatement,
    id: Option<Thing>,
    extras: Workable,
)
    requires
        edges_result(store, is_done, write_error, opt, tb, id, extras).1 is Stored,
        thing_nul_free(extras->Relate_0@),
        thing_nul_free(extras->Relate_1@),
        thing_nul_free(id->0@),
        !(extras->Relate_0@ == id->0@ && extras->Relate_1@ == id->0@),
        store.dom().finite(),
        forall|i: int|
            0 <= i < 4 ==> !store.contains_key(
                #[trigger] edge_keys(
                    opt.ns->0@,
                    opt.db->0@,
                    extras->Relate_0@,
                    id->0@,
                    extras->Relate_1@,
                )[i],
            ),
    ensures
        edges_result(store, is_done, write_error, opt, tb, id, extras).0.dom().finite(),
        edges_result(store, is_done, write_error, opt, tb, id, extras).0.len() == store.len() + 4,
{
    let ns = opt.ns->0@;
    let db = opt.db->0@;
    let l = extras->Relate_0@;
    let r = extras->Relate_1@;
    let e = id->0@;
    let keys = edge_keys(ns, db, l, e, r);
    assert(!store.contains_key(keys[0]));
    assert(!store.contains_key(keys[1]));
    assert(!store.contains_key(keys[2]));
    assert(!store.contains_key(keys[3]));
    if keys[0] == keys[1] {
        law_graph_key_injective(ns, db, l, Dir::Out, e, e, Dir::In, l);
    }
    if keys[0] == keys[2] {
        law_graph_key_injective(ns, db, l, Dir::Out, e, e, Dir::Out, r);
    }
    if keys[0] == keys[3] {
        law_graph_key_injective(ns, db, l, Dir::Out, e, r, Dir::In, e);
    }
    if keys[1] == keys[2] {
        law_graph_key_injective(ns, db, e, Dir::In, l, e, Dir::Out, r);
    }
    if keys[1] == keys[3] {
        law_graph_key_injective(ns, db, e, Dir::In, l, r, Dir::In, e);
    }
    if keys[2] == keys[3] {
        law_graph_key_injective(ns, db, e, Dir::Out, r, r, Dir::In, e);
    }
    let m1 = store.insert(keys[0], ValView::Unit);
    let m2 = m1.insert(keys[1], ValView::Unit);
    let m3 = m2.insert(keys[2], ValView::Unit);
    let m4 = m3.insert(keys[3], ValView::Unit);
    assert(m1.dom() =~= store.dom().insert(keys[0]));
    assert(m2.dom() =~= m1.dom().insert(keys[1]));
    assert(m3.dom() =~= m2.dom().insert(keys[2]));
    assert(m4.dom() =~= m3.dom().insert(keys[3]));
    assert(m4 == edges_result(store, is_done, write_error, opt, tb, id, extras).0);
}

} // verus!
