//! The maintenance of the indexes of a table when a document is written.
//!
//! For each index the tuple that the document projected before the write and
//! the tuple that it projects after it are expanded into entries. The entries
//! of the old tuple are removed, then the entries of the new tuple are added.

use vstd::prelude::*;
use crate::dbs::{Force, Options};
use crate::doc::combinator::{Indexable, columns, entries, law_entry_count};
use crate::doc::{CursorDoc, Document};
use crate::err::Error;
use crate::expr::index::Index as IndexKind;
use crate::expr::part::pick;
use crate::expr::statements::define::DefineIndexStatement;
use crate::idx::builder::{ConsumeResult, IndexBuilder, QueuedView};
use crate::key::index::{Index, entry_key};
use crate::kvs::{Transaction, Val, ValView, bytes_duplicate};
use crate::val::{
    Array, Thing, ThingView, Value, ValueView, all_none_or_null, lemma_array_view, values_equal,
    values_view,
};

verus! {

/// Where the entries of one index of one record are stored.
pub struct Scope {
    pub ns: Seq<char>,
    pub db: Seq<char>,
    pub tb: Seq<char>,
    pub ix: Seq<char>,
    pub rid: ThingView,
}

impl Scope {
    /// The key of the entry `fd`: without the record where the index is
    /// unique, with it otherwise.
    pub open spec fn key(self, unique: bool, fd: Seq<ValueView>) -> Seq<u8> {
        entry_key(
            self.ns,
            self.db,
            self.tb,
            self.ix,
            fd,
            if unique {
                None
            } else {
                Some(self.rid.id)
            },
        )
    }

    /// What an entry of the record holds in the store.
    pub open spec fn owner(self) -> ValView {
        ValView::Thing(self.rid)
    }
}

/// The store after the entries from position `i` on were removed for the
/// record: an entry is removed where the store holds the record under its
/// key, and left alone otherwise.
pub open spec fn removed(
    store: Map<Seq<u8>, ValView>,
    s: Scope,
    unique: bool,
    es: Seq<Seq<ValueView>>,
    i: int,
) -> Map<Seq<u8>, ValView>
    decreases es.len() - i,
{
    if i < 0 || i >= es.len() {
        store
    } else {
        let k = s.key(unique, es[i]);
        let next = if store.contains_key(k) && store[k] == s.owner() {
            store.remove(k)
        } else {
            store
        };
        removed(next, s, unique, es, i + 1)
    }
}

/// The store after the entries from position `i` on were added to an index
/// that is not unique.
pub open spec fn added(
    store: Map<Seq<u8>, ValView>,
    s: Scope,
    es: Seq<Seq<ValueView>>,
    i: int,
) -> Map<Seq<u8>, ValView>
    decreases es.len() - i,
{
    if i < 0 || i >= es.len() {
        store
    } else {
        added(store.insert(s.key(false, es[i]), s.owner()), s, es, i + 1)
    }
}

/// How the addition of entries to a unique index ends.
pub enum Added {
    /// Every entry was added, or skipped because all its values are `Nothing`
    /// or `Null`.
    Done(Map<Seq<u8>, ValView>),
    /// An entry was to be added and nothing can be written.
    Refused(Error),
    /// The key of the entry at position `at` was taken.
    Conflict { at: int, store: Map<Seq<u8>, ValView> },
}

/// The addition of the entries from position `i` on to a unique index: an
/// entry whose values are all `Nothing` or `Null` is skipped; the first other
/// entry ends the addition where nothing can be written (`stop`) or where
/// its key is taken.
pub open spec fn added_unique(
    store: Map<Seq<u8>, ValView>,
    s: Scope,
    es: Seq<Seq<ValueView>>,
    i: int,
    stop: Option<Error>,
) -> Added
    decreases es.len() - i,
{
    if i < 0 || i >= es.len() {
        Added::Done(store)
    } else if all_none_or_null(es[i]) {
        added_unique(store, s, es, i + 1, stop)
    } else if stop is Some {
        Added::Refused(stop->0)
    } else if store.contains_key(s.key(true, es[i])) {
        Added::Conflict { at: i, store }
    } else {
        added_unique(store.insert(s.key(true, es[i]), s.owner()), s, es, i + 1, stop)
    }
}

/// How the maintenance of an index ends.
pub enum Outcome {
    /// The index was brought up to date.
    Done,
    /// A namespace or a database is not selected, or the transaction refuses
    /// the write.
    Failed(Error),
    /// The unique index holds the entry at position `at` of the new tuple for
    /// the record `owner`.
    Duplicate { at: int, owner: ThingView },
    /// The unique index holds under the key of the entry at position `at`
    /// something that is no record id.
    Corrupted { at: int },
}

/// The tuple as a sequence of models, where there is one.
pub open spec fn tuple_view(t: Option<Vec<Value>>) -> Option<Seq<ValueView>> {
    match t {
        Some(v) => Some(values_view(v@)),
        None => None,
    }
}

/// The value that a duplicate error names: the value itself where the entry
/// holds one value, the entry as an array otherwise.
pub open spec fn offending(e: Seq<ValueView>) -> ValueView {
    if e.len() == 1 {
        e[0]
    } else {
        ValueView::Array(e)
    }
}

/// Where the entries of the record `rid` in the index `ix` are stored.
pub open spec fn scope_of(opt: &Options, ix: &DefineIndexStatement, rid: ThingView) -> Scope {
    Scope { ns: opt.ns->0@, db: opt.db->0@, tb: ix.what@, ix: ix.name@, rid }
}

/// The first reason for which no entry can be written, if there is one: no
/// namespace or database is selected, or the transaction refuses writes.
pub open spec fn refusal(opt: &Options, write_error: Option<Error>) -> Option<Error> {
    if !opt.has_ns_db() {
        Some(opt.ns_db_error())
    } else {
        write_error
    }
}

/// What the maintenance of a unique index does to the store, and how it ends.
///
/// The entries of the old tuple are removed where the store holds them for
/// the record. Then the entries of the new tuple are added, but for those
/// whose values are all `Nothing` or `Null`; the first entry whose key is
/// taken ends the maintenance with the record that holds it.
pub open spec fn unique_result(
    store: Map<Seq<u8>, ValView>,
    write_error: Option<Error>,
    opt: &Options,
    ix: &DefineIndexStatement,
    o: Option<Seq<ValueView>>,
    n: Option<Seq<ValueView>>,
    rid: ThingView,
) -> (Map<Seq<u8>, ValView>, Outcome) {
    let s = scope_of(opt, ix, rid);
    let stop = refusal(opt, write_error);
    if o is Some && stop is Some {
        (store, Outcome::Failed(stop->0))
    } else {
        let cleared = match o {
            Some(o) => removed(store, s, true, entries(columns(o, ix)), 0),
            None => store,
        };
        match n {
            Some(n) => {
                let es = entries(columns(n, ix));
                match added_unique(cleared, s, es, 0, stop) {
                    Added::Done(m) => (m, Outcome::Done),
                    Added::Refused(e) => (cleared, Outcome::Failed(e)),
                    Added::Conflict { at, store } => (
                        store,
                        match store[s.key(true, es[at])] {
                            ValView::Thing(owner) => Outcome::Duplicate { at, owner },
                            _ => Outcome::Corrupted { at },
                        },
                    ),
                }
            },
            None => (cleared, Outcome::Done),
        }
    }
}

/// What the maintenance of an index that is not unique does to the store, and
/// how it ends.
///
/// The entries of the old tuple are removed where the store holds them for
/// the record. Then every entry of the new tuple is written.
pub open spec fn non_unique_result(
    store: Map<Seq<u8>, ValView>,
    write_error: Option<Error>,
    opt: &Options,
    ix: &DefineIndexStatement,
    o: Option<Seq<ValueView>>,
    n: Option<Seq<ValueView>>,
    rid: ThingView,
) -> (Map<Seq<u8>, ValView>, Outcome) {
    let s = scope_of(opt, ix, rid);
    let stop = refusal(opt, write_error);
    if (o is Some || n is Some) && stop is Some {
        (store, Outcome::Failed(stop->0))
    } else {
        let cleared = match o {
            Some(o) => removed(store, s, false, entries(columns(o, ix)), 0),
            None => store,
        };
        match n {
            Some(n) => (added(cleared, s, entries(columns(n, ix)), 0), Outcome::Done),
            None => (cleared, Outcome::Done),
        }
    }
}

/// Whether the error `e` tells of the outcome `out`, which is a failure.
pub open spec fn is_failure(
    e: Error,
    out: Outcome,
    ix: &DefineIndexStatement,
    n: Option<Seq<ValueView>>,
) -> bool {
    match out {
        Outcome::Done => false,
        Outcome::Failed(x) => e == x,
        Outcome::Duplicate { at, owner } => e matches Error::IndexExists { thing, index, value }
            && thing@ == owner && index@ == ix.name@ && n is Some && value@ == offending(
            entries(columns(n->0, ix))[at],
        ),
        Outcome::Corrupted { at } => e matches Error::IndexCorrupted { index } && index@
            == ix.name@,
    }
}

/// Whether a result reports an outcome.
pub open spec fn reports(
    r: Result<(), Error>,
    out: Outcome,
    ix: &DefineIndexStatement,
    n: Option<Seq<ValueView>>,
) -> bool {
    match r {
        Ok(_) => out is Done,
        Err(e) => is_failure(e, out, ix, n),
    }
}

/// One call to the engine of a full-text, M-tree or HNSW index.
#[derive(Debug, PartialEq, Eq)]
pub enum EngineCall {
    /// The record is indexed under these values.
    IndexDocument(Vec<Value>),
    /// The record is removed; the tree engines are told its old values.
    RemoveDocument(Option<Vec<Value>>),
    /// What the engine buffered is written to the store.
    Finish,
}

/// Mathematical model of an [`EngineCall`].
pub enum EngineCallView {
    IndexDocument(Seq<ValueView>),
    RemoveDocument(Option<Seq<ValueView>>),
    Finish,
}

impl View for EngineCall {
    type V = EngineCallView;

    open spec fn view(&self) -> EngineCallView {
        match self {
            EngineCall::IndexDocument(v) => EngineCallView::IndexDocument(values_view(v@)),
            EngineCall::RemoveDocument(v) => EngineCallView::RemoveDocument(tuple_view(*v)),
            EngineCall::Finish => EngineCallView::Finish,
        }
    }
}

/// The models of a list of engine calls.
pub open spec fn calls_view(calls: Seq<EngineCall>) -> Seq<EngineCallView> {
    Seq::new(calls.len(), |i: int| calls[i]@)
}

/// The calls that bring a legacy full-text index up to date: the record is
/// indexed under its new values, or removed where it has none; then the
/// engine finishes.
pub open spec fn search_calls(n: Option<Seq<ValueView>>) -> Seq<EngineCallView> {
    match n {
        Some(n) => seq![EngineCallView::IndexDocument(n), EngineCallView::Finish],
        None => seq![EngineCallView::RemoveDocument(None), EngineCallView::Finish],
    }
}

/// The calls that bring a tree index up to date: the record is removed with
/// its old values, where it had some, and indexed under its new values, where
/// it has some.
pub open spec fn tree_calls(o: Option<Seq<ValueView>>, n: Option<Seq<ValueView>>) -> Seq<
    EngineCallView,
> {
    (match o {
        Some(o) => seq![EngineCallView::RemoveDocument(Some(o))],
        None => Seq::empty(),
    }) + (match n {
        Some(n) => seq![EngineCallView::IndexDocument(n)],
        None => Seq::empty(),
    })
}

/// The number that a full-text index gives a document.
pub type DocId = u64;

/// One call to the engine of a full-text index.
#[derive(Debug, PartialEq, Eq)]
pub enum FullTextCall {
    /// The terms of the old values are removed. The engine answers with the
    /// number of the document, where it knows the record, and tells whether
    /// it left garbage behind.
    RemoveContent(Vec<Value>),
    /// The terms of the new values are added. `compact` tells whether
    /// garbage was left behind before; the engine answers whether there is
    /// garbage now.
    IndexContent { values: Vec<Value>, compact: bool },
    /// The document is removed.
    RemoveDoc(DocId),
    /// The compaction of the index is triggered.
    TriggerCompaction,
}

/// Mathematical model of a [`FullTextCall`].
pub enum FullTextCallView {
    RemoveContent(Seq<ValueView>),
    IndexContent { values: Seq<ValueView>, compact: bool },
    RemoveDoc(DocId),
    TriggerCompaction,
}

impl View for FullTextCall {
    type V = FullTextCallView;

    open spec fn view(&self) -> FullTextCallView {
        match self {
            FullTextCall::RemoveContent(v) => FullTextCallView::RemoveContent(values_view(v@)),
            FullTextCall::IndexContent { values, compact } => FullTextCallView::IndexContent {
                values: values_view(values@),
                compact: *compact,
            },
            FullTextCall::RemoveDoc(d) => FullTextCallView::RemoveDoc(*d),
            FullTextCall::TriggerCompaction => FullTextCallView::TriggerCompaction,
        }
    }
}

/// Where the maintenance of a full-text index stands.
#[derive(Clone, Copy, Debug, PartialEq, Eq, Structural)]
pub enum FullTextState {
    /// Nothing was done.
    Idle,
    /// The engine removes the old content.
    Deleting,
    /// The engine adds the new content.
    Inserting,
    /// The engine removes the document; `compact` tells whether garbage was
    /// left behind.
    RemovingDoc { compact: bool },
    /// The compaction is being triggered.
    Compacting,
    /// Nothing is left to do.
    Done,
}

/// What the engine of a full-text index reports.
#[derive(Clone, Copy, Debug, PartialEq, Eq, Structural)]
pub enum FullTextEvent {
    /// The maintenance begins.
    Start,
    /// The old content was removed.
    ContentRemoved { doc_id: Option<DocId>, compact: bool },
    /// The new content was added.
    ContentIndexed { compact: bool },
    /// The document was removed.
    DocRemoved,
    /// The compaction was triggered.
    Compacted,
}

/// What is left of the maintenance of a full-text index once the old content
/// is out of the way: the new content is added; or, where there is none, the
/// document is removed, where its number is known; or the compaction is
/// triggered, where garbage was left behind; or nothing.
pub open spec fn full_text_after_removal(
    n: Option<Seq<ValueView>>,
    doc_id: Option<DocId>,
    compact: bool,
) -> (FullTextState, Option<FullTextCallView>) {
    match n {
        Some(values) => (
            FullTextState::Inserting,
            Some(FullTextCallView::IndexContent { values, compact }),
        ),
        None => match doc_id {
            Some(d) => (FullTextState::RemovingDoc { compact }, Some(FullTextCallView::RemoveDoc(d))),
            None => full_text_end(compact),
        },
    }
}

/// The end of the maintenance of a full-text index: the compaction is
/// triggered where garbage was left behind.
pub open spec fn full_text_end(compact: bool) -> (FullTextState, Option<FullTextCallView>) {
    if compact {
        (FullTextState::Compacting, Some(FullTextCallView::TriggerCompaction))
    } else {
        (FullTextState::Done, None)
    }
}

/// The next state of the maintenance of a full-text index and the call to
/// make, or `None` where the event does not fit the state.
pub open spec fn full_text_step(
    state: FullTextState,
    event: FullTextEvent,
    o: Option<Seq<ValueView>>,
    n: Option<Seq<ValueView>>,
) -> Option<(FullTextState, Option<FullTextCallView>)> {
    match (state, event) {
        (FullTextState::Idle, FullTextEvent::Start) => Some(
            match o {
                Some(o) => (FullTextState::Deleting, Some(FullTextCallView::RemoveContent(o))),
                None => full_text_after_removal(n, None, false),
            },
        ),
        (FullTextState::Deleting, FullTextEvent::ContentRemoved { doc_id, compact }) => Some(
            full_text_after_removal(n, doc_id, compact),
        ),
        (FullTextState::Inserting, FullTextEvent::ContentIndexed { compact }) => Some(
            full_text_end(compact),
        ),
        (FullTextState::RemovingDoc { compact }, FullTextEvent::DocRemoved) => Some(
            full_text_end(compact),
        ),
        (FullTextState::Compacting, FullTextEvent::Compacted) => Some((FullTextState::Done, None)),
        _ => None,
    }
}

/// The model of an optional call.
pub open spec fn call_view(c: Option<FullTextCall>) -> Option<FullTextCallView> {
    match c {
        Some(c) => Some(c@),
        None => None,
    }
}

/// The maintenance of one index for one record.
pub struct IndexOperation<'a> {
    opt: &'a Options,
    ix: &'a DefineIndexStatement,
    /// The old values (if existing)
    o: Option<Vec<Value>>,
    /// The new values (if existing)
    n: Option<Vec<Value>>,
    rid: &'a Thing,
}

impl<'a> IndexOperation<'a> {
    /// The options under which the index is maintained.
    pub closed spec fn options(&self) -> &'a Options {
        self.opt
    }

    /// The definition of the index.
    pub closed spec fn definition(&self) -> &'a DefineIndexStatement {
        self.ix
    }

    /// The tuple that the record projected before the write.
    pub closed spec fn old_tuple(&self) -> Option<Seq<ValueView>> {
        tuple_view(self.o)
    }

    /// The tuple that the record projects after the write.
    pub closed spec fn new_tuple(&self) -> Option<Seq<ValueView>> {
        tuple_view(self.n)
    }

    /// The record.
    pub closed spec fn record(&self) -> &'a Thing {
        self.rid
    }

    /// The maintenance of the index `ix` for the record `rid`, from the old
    /// tuple `o` to the new tuple `n`.
    pub fn new(
        opt: &'a Options,
        ix: &'a DefineIndexStatement,
        o: Option<Vec<Value>>,
        n: Option<Vec<Value>>,
        rid: &'a Thing,
    ) -> (r: Self)
        ensures
            r.options() == opt,
            r.definition() == ix,
            r.old_tuple() == tuple_view(o),
            r.new_tuple() == tuple_view(n),
            r.record() == rid,
    {
        Self { opt, ix, o, n, rid }
    }

    /// The key of the entry `v` in a unique index.
    pub fn get_unique_index_key(&self, v: &'a Array) -> (r: Result<Index<'a>, Error>)
        ensures
            match r {
                Ok(k) => self.options().has_ns_db() && k.key() == scope_of(
                    self.options(),
                    self.definition(),
                    self.record()@,
                ).key(true, v@),
                Err(e) => !self.options().has_ns_db() && e == self.options().ns_db_error(),
            },
    {
        let (ns, db) = self.opt.ns_db()?;
        Ok(Index::new(ns, db, self.ix.what.as_str(), self.ix.name.as_str(), v, None))
    }

    /// The key of the entry `v` in an index that is not unique.
    pub fn get_non_unique_index_key(&self, v: &'a Array) -> (r: Result<Index<'a>, Error>)
        ensures
            match r {
                Ok(k) => self.options().has_ns_db() && k.key() == scope_of(
                    self.options(),
                    self.definition(),
                    self.record()@,
                ).key(false, v@),
                Err(e) => !self.options().has_ns_db() && e == self.options().ns_db_error(),
            },
    {
        let (ns, db) = self.opt.ns_db()?;
        Ok(
            Index::new(
                ns,
                db,
                self.ix.what.as_str(),
                self.ix.name.as_str(),
                v,
                Some(&self.rid.id),
            ),
        )
    }

    /// Where the entries of the record are stored.
    pub open spec fn scope(&self) -> Scope {
        scope_of(self.options(), self.definition(), self.record()@)
    }

    /// Removes the entries of the tuple `o` that the store holds for the
    /// record. That the store holds another value under the key of an entry,
    /// or none, is no error.
    #[verifier::loop_isolation(false)]
    #[verifier::spinoff_prover]
    fn remove_entries(&self, txn: &mut Transaction, o: Vec<Value>, unique: bool) -> (r: Result<
        (),
        Error,
    >)
        ensures
            final(txn).is_done() == old(txn).is_done(),
            final(txn).is_writeable() == old(txn).is_writeable(),
            match refusal(self.options(), old(txn).write_error()) {
                Some(e) => r == Err::<(), Error>(e) && final(txn)@ == old(txn)@,
                None => r is Ok && final(txn)@ == removed(
                    old(txn)@,
                    self.scope(),
                    unique,
                    entries(columns(values_view(o@), self.definition())),
                    0,
                ),
            },
    {
        let ghost store0 = txn@;
        let ghost stop = refusal(self.opt, txn.write_error());
        let ghost s = self.scope();
        let ghost es = entries(columns(values_view(o@), self.ix));
        let owner = Val::Thing(self.rid.duplicate());
        let mut walk = Indexable::new(o, self.ix).into_iter();
        proof {
            law_entry_count(walk.cursors());
        }
        loop
            invariant
                walk.wf(),
                entries(walk.cursors()) == es,
                es.len() >= 1,
                owner@ == s.owner(),
                s == self.scope(),
                stop == refusal(self.options(), txn.write_error()),
                txn.is_done() == old(txn).is_done(),
                txn.is_writeable() == old(txn).is_writeable(),
                stop is Some ==> walk.produced() == 0 && txn@ == store0,
                removed(store0, s, unique, es, 0) == removed(
                    txn@,
                    s,
                    unique,
                    es,
                    walk.produced() as int,
                ),
            decreases es.len() - walk.produced(),
        {
            let ghost p = walk.produced() as int;
            match walk.next() {
                None => {
                    break ;
                },
                Some(e) => {
                    assert(es[p] == e@);
                    let found = if unique {
                        self.get_unique_index_key(&e)
                    } else {
                        self.get_non_unique_index_key(&e)
                    };
                    let key = match found {
                        Ok(key) => key.encode_key(),
                        Err(err) => {
                            return Err(err);
                        },
                    };
                    assert(key@ == s.key(unique, es[p]));
                    match txn.delc(&key, Some(&owner)) {
                        Ok(()) => {},
                        Err(Error::TxConditionNotMet) => {},
                        Err(err) => {
                            return Err(err);
                        },
                    }
                },
            }
        }
        Ok(())
    }

    /// Adds the entries of the tuple `n` to a unique index, but for those
    /// whose values are all `Nothing` or `Null`.
    #[verifier::loop_isolation(false)]
    #[verifier::spinoff_prover]
    fn add_unique_entries(&self, txn: &mut Transaction, n: Vec<Value>) -> (r: Result<(), Error>)
        ensures
            final(txn).is_done() == old(txn).is_done(),
            final(txn).is_writeable() == old(txn).is_writeable(),
            ({
                let es = entries(columns(values_view(n@), self.definition()));
                match added_unique(
                    old(txn)@,
                    self.scope(),
                    es,
                    0,
                    refusal(self.options(), old(txn).write_error()),
                ) {
                    Added::Done(m) => r is Ok && final(txn)@ == m,
                    Added::Refused(e) => r == Err::<(), Error>(e) && final(txn)@ == old(txn)@,
                    Added::Conflict { at, store } => final(txn)@ == store && (match store[self.scope().key(
                        true,
                        es[at],
                    )] {
                        ValView::Thing(owner) => r matches Err(
                            Error::IndexExists { thing, index, value },
                        ) && thing@ == owner && index@ == self.definition().name@ && value@
                            == offending(es[at]),
                        _ => r matches Err(Error::IndexCorrupted { index }) && index@
                            == self.definition().name@,
                    }),
                }
            }),
    {
        let ghost store0 = txn@;
        let ghost stop = refusal(self.opt, txn.write_error());
        let ghost s = self.scope();
        let ghost es = entries(columns(values_view(n@), self.ix));
        let owner = Val::Thing(self.rid.duplicate());
        let mut walk = Indexable::new(n, self.ix).into_iter();
        loop
            invariant
                walk.wf(),
                entries(walk.cursors()) == es,
                owner@ == s.owner(),
                s == self.scope(),
                stop == refusal(self.options(), txn.write_error()),
                txn.is_done() == old(txn).is_done(),
                txn.is_writeable() == old(txn).is_writeable(),
                stop is Some ==> txn@ == store0,
                added_unique(store0, s, es, 0, stop) == added_unique(
                    txn@,
                    s,
                    es,
                    walk.produced() as int,
                    stop,
                ),
            decreases es.len() - walk.produced(),
        {
            let ghost p = walk.produced() as int;
            match walk.next() {
                None => {
                    break ;
                },
                Some(e) => {
                    assert(es[p] == e@);
                    if !e.is_all_none_or_null() {
                        let key = match self.get_unique_index_key(&e) {
                            Ok(key) => key.encode_key(),
                            Err(err) => {
                                return Err(err);
                            },
                        };
                        assert(key@ == s.key(true, es[p]));
                        match txn.putc(bytes_duplicate(&key), owner.duplicate(), None) {
                            Ok(()) => {},
                            Err(Error::TxKeyAlreadyExists) => {
                                return match txn.get(&key) {
                                    Ok(Some(Val::Thing(rid))) => self.err_index_exists(rid, e),
                                    Ok(_) => Err(
                                        Error::IndexCorrupted { index: self.ix.name.clone() },
                                    ),
                                    Err(err) => Err(err),
                                };
                            },
                            Err(err) => {
                                return Err(err);
                            },
                        }
                    }
                },
            }
        }
        Ok(())
    }

    /// Brings a unique index up to date.
    ///
    /// The entries of the old tuple are removed: an entry that the store does
    /// not hold for the record is passed over. The entries of the new tuple
    /// are added, but for those whose values are all `Nothing` or `Null`. An
    /// entry whose key is taken ends the maintenance with an error that names
    /// the record that holds it.
    pub fn index_unique(&mut self, txn: &mut Transaction) -> (r: Result<(), Error>)
        ensures
            final(self).options() == old(self).options(),
            final(self).definition() == old(self).definition(),
            final(self).record() == old(self).record(),
            final(self).old_tuple() is None,
            final(self).new_tuple() == (if old(self).old_tuple() is Some && refusal(
                old(self).options(),
                old(txn).write_error(),
            ) is Some {
                old(self).new_tuple()
            } else {
                None
            }),
            final(txn).is_done() == old(txn).is_done(),
            final(txn).is_writeable() == old(txn).is_writeable(),
            ({
                let (m, out) = unique_result(
                    old(txn)@,
                    old(txn).write_error(),
                    old(self).options(),
                    old(self).definition(),
                    old(self).old_tuple(),
                    old(self).new_tuple(),
                    old(self).record()@,
                );
                final(txn)@ == m && reports(r, out, old(self).definition(), old(self).new_tuple())
            }),
    {
        // Delete the old index data
        if let Some(o) = self.o.take() {
            match self.remove_entries(txn, o, true) {
                Ok(()) => {},
                Err(err) => {
                    return Err(err);
                },
            }
        }
        // Create the new index data
        if let Some(n) = self.n.take() {
            return self.add_unique_entries(txn, n);
        }
        Ok(())
    }

    /// Writes the entries of the tuple `n` to an index that is not unique.
    #[verifier::loop_isolation(false)]
    #[verifier::spinoff_prover]
    fn add_entries(&self, txn: &mut Transaction, n: Vec<Value>) -> (r: Result<(), Error>)
        ensures
            final(txn).is_done() == old(txn).is_done(),
            final(txn).is_writeable() == old(txn).is_writeable(),
            match refusal(self.options(), old(txn).write_error()) {
                Some(e) => r == Err::<(), Error>(e) && final(txn)@ == old(txn)@,
                None => r is Ok && final(txn)@ == added(
                    old(txn)@,
                    self.scope(),
                    entries(columns(values_view(n@), self.definition())),
                    0,
                ),
            },
    {
        let ghost store0 = txn@;
        let ghost stop = refusal(self.opt, txn.write_error());
        let ghost s = self.scope();
        let ghost es = entries(columns(values_view(n@), self.ix));
        let owner = Val::Thing(self.rid.duplicate());
        let mut walk = Indexable::new(n, self.ix).into_iter();
        proof {
            law_entry_count(walk.cursors());
        }
        loop
            invariant
                walk.wf(),
                entries(walk.cursors()) == es,
                es.len() >= 1,
                owner@ == s.owner(),
                stop == refusal(self.options(), txn.write_error()),
                txn.is_done() == old(txn).is_done(),
                txn.is_writeable() == old(txn).is_writeable(),
                stop is Some ==> walk.produced() == 0 && txn@ == store0,
                added(store0, s, es, 0) == added(txn@, s, es, walk.produced() as int),
            decreases es.len() - walk.produced(),
        {
            let ghost p = walk.produced() as int;
            match walk.next() {
                None => {
                    break ;
                },
                Some(e) => {
                    assert(es[p] == e@);
                    let key = match self.get_non_unique_index_key(&e) {
                        Ok(key) => key.encode_key(),
                        Err(err) => {
                            return Err(err);
                        },
                    };
                    assert(key@ == s.key(false, es[p]));
                    match txn.set(key, owner.duplicate(), None) {
                        Ok(()) => {},
                        Err(err) => {
                            return Err(err);
                        },
                    }
                },
            }
        }
        Ok(())
    }

    /// Brings an index that is not unique up to date.
    ///
    /// The entries of the old tuple are removed: an entry that the store does
    /// not hold for the record is passed over. Every entry of the new tuple
    /// is written; its key holds the record, so that it collides with no
    /// entry of another record.
    pub fn index_non_unique(&mut self, txn: &mut Transaction) -> (r: Result<(), Error>)
        ensures
            final(self).options() == old(self).options(),
            final(self).definition() == old(self).definition(),
            final(self).record() == old(self).record(),
            final(self).old_tuple() is None,
            final(self).new_tuple() == (if old(self).old_tuple() is Some && refusal(
                old(self).options(),
                old(txn).write_error(),
            ) is Some {
                old(self).new_tuple()
            } else {
                None
            }),
            final(txn).is_done() == old(txn).is_done(),
            final(txn).is_writeable() == old(txn).is_writeable(),
            ({
                let (m, out) = non_unique_result(
                    old(txn)@,
                    old(txn).write_error(),
                    old(self).options(),
                    old(self).definition(),
                    old(self).old_tuple(),
                    old(self).new_tuple(),
                    old(self).record()@,
                );
                final(txn)@ == m && reports(r, out, old(self).definition(), old(self).new_tuple())
            }),
    {
        // Delete the old index data
        if let Some(o) = self.o.take() {
            match self.remove_entries(txn, o, false) {
                Ok(()) => {},
                Err(err) => {
                    return Err(err);
                },
            }
        }
        // Create the new index data
        if let Some(n) = self.n.take() {
            return self.add_entries(txn, n);
        }
        Ok(())
    }

    /// The calls that bring a legacy full-text index up to date.
    pub fn index_search(&mut self) -> (r: Result<Vec<EngineCall>, Error>)
        ensures
            final(self).options() == old(self).options(),
            final(self).definition() == old(self).definition(),
            final(self).record() == old(self).record(),
            final(self).old_tuple() == old(self).old_tuple(),
            match r {
                Ok(calls) => old(self).options().has_ns_db() && calls_view(calls@) == search_calls(
                    old(self).new_tuple(),
                ) && final(self).new_tuple() is None,
                Err(e) => !old(self).options().has_ns_db() && e == old(self).options().ns_db_error()
                    && final(self).new_tuple() == old(self).new_tuple(),
            },
    {
        let _ = self.opt.ns_db()?;
        let mut calls: Vec<EngineCall> = Vec::new();
        if let Some(n) = self.n.take() {
            calls.push(EngineCall::IndexDocument(n));
        } else {
            calls.push(EngineCall::RemoveDocument(None));
        }
        calls.push(EngineCall::Finish);
        assert(calls_view(calls@) =~= search_calls(old(self).new_tuple()));
        Ok(calls)
    }

    /// The calls that bring an M-tree index up to date: those of a tree
    /// index, after which the engine finishes.
    pub fn index_mtree(&mut self) -> (r: Result<Vec<EngineCall>, Error>)
        ensures
            final(self).options() == old(self).options(),
            final(self).definition() == old(self).definition(),
            final(self).record() == old(self).record(),
            match r {
                Ok(calls) => old(self).options().has_ns_db() && calls_view(calls@) == tree_calls(
                    old(self).old_tuple(),
                    old(self).new_tuple(),
                ).push(EngineCallView::Finish) && final(self).old_tuple() is None
                    && final(self).new_tuple() is None,
                Err(e) => !old(self).options().has_ns_db() && e == old(self).options().ns_db_error()
                    && final(self).old_tuple() == old(self).old_tuple() && final(self).new_tuple()
                    == old(self).new_tuple(),
            },
    {
        let _ = self.opt.ns_db()?;
        let mut calls = self.tree_calls();
        calls.push(EngineCall::Finish);
        assert(calls_view(calls@) =~= tree_calls(old(self).old_tuple(), old(self).new_tuple()).push(
            EngineCallView::Finish,
        ));
        Ok(calls)
    }

    /// The calls that bring an HNSW index up to date: those of a tree index.
    /// The engine writes to the store as it goes.
    pub fn index_hnsw(&mut self) -> (r: Result<Vec<EngineCall>, Error>)
        ensures
            final(self).options() == old(self).options(),
            final(self).definition() == old(self).definition(),
            final(self).record() == old(self).record(),
            final(self).old_tuple() is None,
            final(self).new_tuple() is None,
            r matches Ok(calls) && calls_view(calls@) == tree_calls(
                old(self).old_tuple(),
                old(self).new_tuple(),
            ),
    {
        Ok(self.tree_calls())
    }

    /// The calls that remove the old values from a tree index and add the new
    /// ones.
    fn tree_calls(&mut self) -> (calls: Vec<EngineCall>)
        ensures
            final(self).options() == old(self).options(),
            final(self).definition() == old(self).definition(),
            final(self).record() == old(self).record(),
            final(self).old_tuple() is None,
            final(self).new_tuple() is None,
            calls_view(calls@) == tree_calls(old(self).old_tuple(), old(self).new_tuple()),
    {
        let mut calls: Vec<EngineCall> = Vec::new();
        // Delete the old index data
        if let Some(o) = self.o.take() {
            calls.push(EngineCall::RemoveDocument(Some(o)));
        }
        // Create the new index data
        if let Some(n) = self.n.take() {
            calls.push(EngineCall::IndexDocument(n));
        }
        assert(calls_view(calls@) =~= tree_calls(old(self).old_tuple(), old(self).new_tuple()));
        calls
    }

    /// One step of the maintenance of a full-text index: from the state that
    /// the maintenance is in and what the engine reported to the next state
    /// and the call to make.
    ///
    /// The old content is removed first, where there is some. Then the new
    /// content is added; where there is none, the document is removed, if
    /// the engine knew the record. At the end the compaction is triggered
    /// where the engine left garbage behind.
    pub fn index_fulltext(&mut self, state: FullTextState, event: FullTextEvent) -> (r: Result<
        (FullTextState, Option<FullTextCall>),
        Error,
    >)
        ensures
            final(self).options() == old(self).options(),
            final(self).definition() == old(self).definition(),
            final(self).record() == old(self).record(),
            match r {
                Ok((next, call)) => old(self).options().has_ns_db() && full_text_step(
                    state,
                    event,
                    old(self).old_tuple(),
                    old(self).new_tuple(),
                ) == Some((next, call_view(call))),
                Err(e) => e == (if !old(self).options().has_ns_db() {
                    old(self).options().ns_db_error()
                } else {
                    Error::Unreachable
                }) && (old(self).options().has_ns_db() ==> full_text_step(
                    state,
                    event,
                    old(self).old_tuple(),
                    old(self).new_tuple(),
                ) is None),
            },
            r is Err ==> final(self).old_tuple() == old(self).old_tuple() && final(self).new_tuple()
                == old(self).new_tuple(),
            r is Ok ==> final(self).old_tuple() == (if state is Idle {
                None
            } else {
                old(self).old_tuple()
            }) && final(self).new_tuple() == (if r->Ok_0.0 is Inserting {
                None
            } else {
                old(self).new_tuple()
            }),
    {
        let _ = self.opt.ns_db()?;
        match (state, event) {
            (FullTextState::Idle, FullTextEvent::Start) => {
                // Delete the old index data
                if let Some(o) = self.o.take() {
                    Ok((FullTextState::Deleting, Some(FullTextCall::RemoveContent(o))))
                } else {
                    Ok(self.after_removal(None, false))
                }
            },
            (FullTextState::Deleting, FullTextEvent::ContentRemoved { doc_id, compact }) => Ok(
                self.after_removal(doc_id, compact),
            ),
            (FullTextState::Inserting, FullTextEvent::ContentIndexed { compact }) => Ok(
                Self::end(compact),
            ),
            (FullTextState::RemovingDoc { compact }, FullTextEvent::DocRemoved) => Ok(
                Self::end(compact),
            ),
            (FullTextState::Compacting, FullTextEvent::Compacted) => Ok((FullTextState::Done, None)),
            _ => Err(Error::Unreachable),
        }
    }

    /// What is left to do once the old content is out of the way.
    fn after_removal(&mut self, doc_id: Option<DocId>, compact: bool) -> (r: (
        FullTextState,
        Option<FullTextCall>,
    ))
        ensures
            final(self).options() == old(self).options(),
            final(self).definition() == old(self).definition(),
            final(self).record() == old(self).record(),
            final(self).old_tuple() == old(self).old_tuple(),
            final(self).new_tuple() == (if r.0 is Inserting {
                None
            } else {
                old(self).new_tuple()
            }),
            (r.0, call_view(r.1)) == full_text_after_removal(old(self).new_tuple(), doc_id, compact),
    {
        // Create the new index data
        if let Some(values) = self.n.take() {
            (FullTextState::Inserting, Some(FullTextCall::IndexContent { values, compact }))
        } else if let Some(doc_id) = doc_id {
            (FullTextState::RemovingDoc { compact }, Some(FullTextCall::RemoveDoc(doc_id)))
        } else {
            Self::end(compact)
        }
    }

    /// The end of the maintenance: do we need to trigger the compaction?
    fn end(compact: bool) -> (r: (FullTextState, Option<FullTextCall>))
        ensures
            (r.0, call_view(r.1)) == full_text_end(compact),
    {
        if compact {
            (FullTextState::Compacting, Some(FullTextCall::TriggerCompaction))
        } else {
            (FullTextState::Done, None)
        }
    }

    /// The error that tells that the unique index holds the entry `n` for the
    /// record `rid`.
    pub fn err_index_exists(&self, rid: Thing, n: Array) -> (r: Result<(), Error>)
        ensures
            r matches Err(Error::IndexExists { thing, index, value }) && thing@ == rid@ && index@
                == self.definition().name@ && value@ == offending(n@),
    {
        let value = if n.len() == 1 {
            n.0[0].duplicate()
        } else {
            let a = Value::Array(n.0);
            proof {
                lemma_array_view(a->Array_0);
            }
            a
        };
        Err(Error::IndexExists { thing: rid, index: self.ix.name.clone(), value })
    }
}

/// What the dispatcher did for one index.
pub enum Dispatch<'a> {
    /// The index is being built: the change waits in the builder's queue.
    Enqueued,
    /// The entries of the index were written to the store.
    Stored,
    /// These calls to the engine of the index are to be made, in order.
    Calls(Vec<EngineCall>),
    /// The maintenance of a full-text index has begun: `call` is to be made,
    /// and `op` takes what the engine reports.
    FullText { op: IndexOperation<'a>, state: FullTextState, call: Option<FullTextCall> },
}

/// Mathematical model of a [`Dispatch`].
pub enum DispatchView {
    Enqueued,
    Stored,
    Calls(Seq<EngineCallView>),
    FullText {
        o: Option<Seq<ValueView>>,
        n: Option<Seq<ValueView>>,
        state: FullTextState,
        call: Option<FullTextCallView>,
    },
}

impl<'a> View for Dispatch<'a> {
    type V = DispatchView;

    open spec fn view(&self) -> DispatchView {
        match self {
            Dispatch::Enqueued => DispatchView::Enqueued,
            Dispatch::Stored => DispatchView::Stored,
            Dispatch::Calls(calls) => DispatchView::Calls(calls_view(calls@)),
            Dispatch::FullText { op, state, call } => DispatchView::FullText {
                o: op.old_tuple(),
                n: op.new_tuple(),
                state: *state,
                call: call_view(*call),
            },
        }
    }
}

impl<'a> Dispatch<'a> {
    /// Whether the maintenance that is left works under these options, on
    /// this index and for this record.
    pub open spec fn is_for(&self, opt: &Options, ix: &DefineIndexStatement, rid: &Thing) -> bool {
        self matches Dispatch::FullText { op, .. } ==> op.options() == opt && op.definition() == ix
            && op.record() == rid
    }
}

/// What the dispatcher does for one index: what it leaves in the store and in
/// the builder's queue, how it ends, and what it hands back where it ends
/// well.
pub struct OneIndex {
    pub store: Map<Seq<u8>, ValView>,
    pub queue: Seq<QueuedView>,
    pub outcome: Outcome,
    pub dispatch: DispatchView,
}

/// What is handed to the engine of an index that is neither unique nor plain,
/// or the error for which nothing is handed over.
pub open spec fn engine_dispatch(
    opt: &Options,
    ix: &DefineIndexStatement,
    o: Option<Seq<ValueView>>,
    n: Option<Seq<ValueView>>,
) -> (Outcome, DispatchView) {
    if ix.index is Hnsw {
        (Outcome::Done, DispatchView::Calls(tree_calls(o, n)))
    } else if !opt.has_ns_db() {
        (Outcome::Failed(opt.ns_db_error()), DispatchView::Stored)
    } else {
        (
            Outcome::Done,
            match ix.index {
                IndexKind::Search(_) => DispatchView::Calls(search_calls(n)),
                IndexKind::MTree(_) => DispatchView::Calls(
                    tree_calls(o, n).push(EngineCallView::Finish),
                ),
                _ => {
                    let (state, call) = full_text_step(
                        FullTextState::Idle,
                        FullTextEvent::Start,
                        o,
                        n,
                    )->0;
                    DispatchView::FullText {
                        o: None,
                        n: if state is Inserting {
                            None
                        } else {
                            n
                        },
                        state,
                        call,
                    }
                },
            },
        )
    }
}

/// What the dispatcher does for the index `ix` with the tuples `o` and `n`
/// of the record `rid`.
///
/// Where the builder claims the index, the change is queued and nothing else
/// happens. Otherwise the kind of the index decides: the entries of a unique
/// or plain index are written to the store; for the other kinds the calls to
/// the engine are handed back.
pub open spec fn one_index_result(
    store: Map<Seq<u8>, ValView>,
    write_error: Option<Error>,
    claimed: bool,
    queue: Seq<QueuedView>,
    opt: &Options,
    ix: &DefineIndexStatement,
    o: Option<Seq<ValueView>>,
    n: Option<Seq<ValueView>>,
    rid: ThingView,
) -> OneIndex {
    if claimed {
        OneIndex {
            store,
            queue: queue.push(QueuedView { tb: ix.what@, ix: ix.name@, o, n, rid }),
            outcome: Outcome::Done,
            dispatch: DispatchView::Enqueued,
        }
    } else {
        match ix.index {
            IndexKind::Uniq => {
                let (m, out) = unique_result(store, write_error, opt, ix, o, n, rid);
                OneIndex { store: m, queue, outcome: out, dispatch: DispatchView::Stored }
            },
            IndexKind::Idx => {
                let (m, out) = non_unique_result(store, write_error, opt, ix, o, n, rid);
                OneIndex { store: m, queue, outcome: out, dispatch: DispatchView::Stored }
            },
            _ => {
                let (out, dispatch) = engine_dispatch(opt, ix, o, n);
                OneIndex { store, queue, outcome: out, dispatch }
            },
        }
    }
}

/// The tuple that a document projects for an index: nothing where there is
/// no document, and otherwise what each column of the index selects from the
/// document, in the order of the columns.
pub open spec fn projected(ix: &DefineIndexStatement, doc: Option<ValueView>) -> Option<
    Seq<ValueView>,
> {
    match doc {
        Some(d) => Some(Seq::new(ix.cols.0@.len(), |c: int| pick(d, ix.cols.0@[c].0@))),
        None => None,
    }
}

/// What a pass over the indexes of a table leaves behind.
pub struct Pass {
    pub store: Map<Seq<u8>, ValView>,
    pub queue: Seq<QueuedView>,
    /// What the dispatcher handed back, for each index that it worked on: the
    /// position of the index, and what was handed back for it.
    pub dispatches: Seq<(int, DispatchView)>,
    /// The position of the index at which the pass failed, and how.
    pub failure: Option<(int, Outcome)>,
}

/// The pass over the indexes from position `i` on.
///
/// An index is worked on where the document projects another tuple than
/// before, or where the indexes were named to be written (`targeted`). The
/// first index whose maintenance fails ends the pass.
pub open spec fn maintained(
    store: Map<Seq<u8>, ValView>,
    write_error: Option<Error>,
    ib: IndexBuilder,
    queue: Seq<QueuedView>,
    opt: &Options,
    ixs: Seq<DefineIndexStatement>,
    i: int,
    initial: Option<ValueView>,
    current: Option<ValueView>,
    rid: ThingView,
    targeted: bool,
    done: Seq<(int, DispatchView)>,
) -> Pass
    decreases ixs.len() - i,
{
    if i < 0 || i >= ixs.len() {
        Pass { store, queue, dispatches: done, failure: None }
    } else {
        let o = projected(&ixs[i], initial);
        let n = projected(&ixs[i], current);
        if targeted || o != n {
            let x = one_index_result(
                store,
                write_error,
                ib.claims(&ixs[i]),
                queue,
                opt,
                &ixs[i],
                o,
                n,
                rid,
            );
            if x.outcome is Done {
                maintained(
                    x.store,
                    write_error,
                    ib,
                    x.queue,
                    opt,
                    ixs,
                    i + 1,
                    initial,
                    current,
                    rid,
                    targeted,
                    done.push((i, x.dispatch)),
                )
            } else {
                Pass { store: x.store, queue: x.queue, dispatches: done, failure: Some((i, x.outcome)) }
            }
        } else {
            maintained(
                store,
                write_error,
                ib,
                queue,
                opt,
                ixs,
                i + 1,
                initial,
                current,
                rid,
                targeted,
                done,
            )
        }
    }
}

/// Whether the statement names the indexes to write, and they belong to the
/// table of the document.
pub open spec fn names_indexes(doc: &Document, opt: &Options) -> bool {
    opt.force matches Force::Index(ix) && ix@.len() > 0 && doc.id is Some && ix@[0].what@
        == doc.id->0.tb@
}

/// The indexes that a pass goes over: those that the statement names, where
/// they belong to the table of the document; else those of the table, where
/// every index is to be written or the document changed; else none.
pub open spec fn selected(doc: &Document, opt: &Options, table: Seq<DefineIndexStatement>) -> Option<
    Seq<DefineIndexStatement>,
> {
    if names_indexes(doc, opt) {
        Some(opt.force->Index_0@)
    } else if opt.force is All || doc.is_changed() {
        Some(table)
    } else {
        None
    }
}

/// What the dispatcher handed back for one index.
pub struct Work<'a> {
    /// The position of the index among the indexes of the pass.
    pub at: usize,
    /// The index.
    pub ix: &'a DefineIndexStatement,
    /// What is left to do for the index.
    pub dispatch: Dispatch<'a>,
}

/// The models of what the dispatcher handed back.
pub open spec fn dispatches_view(d: Seq<Work<'_>>) -> Seq<(int, DispatchView)> {
    Seq::new(d.len(), |i: int| (d[i].at as int, d[i].dispatch@))
}

/// Whether each piece of work names the index at its position.
pub open spec fn names_its_index(d: Seq<Work<'_>>, ixs: Seq<DefineIndexStatement>) -> bool {
    forall|i: int|
        0 <= i < d.len() ==> 0 <= (#[trigger] d[i]).at < ixs.len() && *d[i].ix == ixs[d[i].at as int]
}

/// Whether two optional tuples hold the same values.
pub fn same_tuple(a: &Option<Vec<Value>>, b: &Option<Vec<Value>>) -> (r: bool)
    ensures
        r == (tuple_view(*a) == tuple_view(*b)),
{
    match (a, b) {
        (Some(x), Some(y)) => values_equal(x, y),
        (None, None) => true,
        _ => false,
    }
}

/// Whether column `k` is the first whose evaluation failed.
pub open spec fn first_failed(evaluated: Seq<Result<Value, Error>>, k: int) -> bool {
    &&& 0 <= k < evaluated.len()
    &&& evaluated[k] is Err
    &&& forall|j: int| 0 <= j < k ==> (#[trigger] evaluated[j]) is Ok
}

impl Document {
    /// What each column of the index selects from the document, in the order
    /// of the columns, and nothing where there is no document. A field path
    /// selects from every document, so no column fails.
    pub fn evaluate_columns(ix: &DefineIndexStatement, doc: &CursorDoc) -> (r: Vec<
        Result<Value, Error>,
    >)
        ensures
            match doc.doc {
                Some(d) => r.len() == ix.cols.0.len() && forall|c: int|
                    0 <= c < r.len() ==> ((#[trigger] r[c]) matches Ok(v) && v@ == pick(
                        d@,
                        ix.cols.0@[c].0@,
                    )),
                None => r.len() == 0,
            },
    {
        let mut o: Vec<Result<Value, Error>> = Vec::new();
        if let Some(d) = &doc.doc {
            let mut i: usize = 0;
            while i < ix.cols.0.len()
                invariant
                    i <= ix.cols.0.len(),
                    o.len() == i,
                    forall|c: int|
                        0 <= c < i ==> ((#[trigger] o[c]) matches Ok(v) && v@ == pick(
                            d@,
                            ix.cols.0@[c].0@,
                        )),
                decreases ix.cols.0.len() - i,
            {
                o.push(Ok(ix.cols.0[i].compute(d)));
                i += 1;
            }
        }
        o
    }

    /// Extract from the given document, the values required by the index and
    /// put then in an array. Eg. IF the index is composed of the columns
    /// `name` and `instrument`, given this doc:
    /// `{ "id": 1, "instrument":"piano", "name":"Tobie" }`
    /// it will return: `["Tobie", "piano"]`.
    ///
    /// `evaluated` holds what the evaluation of each column gave, in the order
    /// of the columns. There is no tuple where there is no document. Where a
    /// column failed, the error of the first such column is returned.
    #[verifier::loop_isolation(false)]
    pub fn build_opt_values(doc: &CursorDoc, evaluated: Vec<Result<Value, Error>>) -> (r: Result<
        Option<Vec<Value>>,
        Error,
    >)
        ensures
            match r {
                Ok(None) => doc.doc is None,
                Ok(Some(v)) => doc.doc is Some && v.len() == evaluated.len() && forall|c: int|
                    0 <= c < v.len() ==> #[trigger] evaluated[c] == Ok::<Value, Error>(v[c]),
                Err(e) => doc.doc is Some && exists|k: int|
                    first_failed(evaluated@, k) && evaluated[k] == Err::<Value, Error>(e),
            },
    {
        if doc.doc.is_none() {
            return Ok(None);
        }
        let mut rest = evaluated;
        let mut o: Vec<Value> = Vec::new();
        while rest.len() > 0
            invariant
                o.len() + rest.len() == evaluated.len(),
                rest@ == evaluated@.skip(o.len() as int),
                forall|c: int| 0 <= c < o.len() ==> #[trigger] evaluated[c] == Ok::<Value, Error>(o[c]),
            decreases rest.len(),
        {
            match rest.remove(0) {
                Ok(v) => o.push(v),
                Err(e) => {
                    assert(first_failed(evaluated@, o.len() as int));
                    return Err(e);
                },
            }
            assert(rest@ =~= evaluated@.skip(o.len() as int));
        }
        Ok(Some(o))
    }

    /// The tuple that the document projects for the index.
    fn project(ix: &DefineIndexStatement, doc: &CursorDoc) -> (r: Result<Option<Vec<Value>>, Error>)
        ensures
            r matches Ok(t) && tuple_view(t) == projected(ix, doc.doc_view()),
    {
        let evaluated = Self::evaluate_columns(ix, doc);
        let r = Self::build_opt_values(doc, evaluated);
        proof {
            if r is Err {
                let k = choose|k: int| first_failed(evaluated@, k);
                assert(evaluated[k] is Ok);
            } else if r->Ok_0 is Some {
                let v = r->Ok_0->0;
                assert forall|c: int| 0 <= c < v.len() implies v[c]@ == pick(
                    doc.doc->0@,
                    ix.cols.0@[c].0@,
                ) by {
                    assert(evaluated[c] == Ok::<Value, Error>(v[c]));
                }
                assert(values_view(v@) =~= projected(ix, doc.doc_view())->0);
            }
        }
        r
    }

    /// Brings one index up to date, or hands back what its engine is to do.
    pub fn one_index<'a>(
        txn: &mut Transaction,
        ib: &mut IndexBuilder,
        opt: &'a Options,
        ix: &'a DefineIndexStatement,
        o: Option<Vec<Value>>,
        n: Option<Vec<Value>>,
        rid: &'a Thing,
    ) -> (r: Result<Dispatch<'a>, Error>)
        ensures
            final(txn).is_done() == old(txn).is_done(),
            final(txn).is_writeable() == old(txn).is_writeable(),
            forall|tb: Seq<char>, name: Seq<char>|
                final(ib).is_building(tb, name) == old(ib).is_building(tb, name),
            ({
                let x = one_index_result(
                    old(txn)@,
                    old(txn).write_error(),
                    old(ib).claims(ix),
                    old(ib).queue(),
                    opt,
                    ix,
                    tuple_view(o),
                    tuple_view(n),
                    rid@,
                );
                &&& final(txn)@ == x.store
                &&& final(ib).queue() == x.queue
                &&& match r {
                    Ok(d) => x.outcome is Done && d@ == x.dispatch && d.is_for(opt, ix, rid),
                    Err(e) => is_failure(e, x.outcome, ix, tuple_view(n)),
                }
            }),
    {
        let (o, n) = match ib.consume(ix, o, n, rid) {
            // The index builder consumed the value, which means it is currently building the
            // index asynchronously, we don't index the document and let the index builder do
            // it later.
            ConsumeResult::Enqueued => {
                return Ok(Dispatch::Enqueued);
            },
            // The index builder is done, the index has been built; we can proceed normally
            ConsumeResult::Ignored(o, n) => (o, n),
        };
        // Store all the variable and parameters required by the index operation
        let mut ic = IndexOperation::new(opt, ix, o, n, rid);
        // Index operation dispatching
        match &ix.index {
            IndexKind::Uniq => {
                ic.index_unique(txn)?;
                Ok(Dispatch::Stored)
            },
            IndexKind::Idx => {
                ic.index_non_unique(txn)?;
                Ok(Dispatch::Stored)
            },
            IndexKind::Search(_) => Ok(Dispatch::Calls(ic.index_search()?)),
            IndexKind::FullText(_) => {
                let (state, call) = ic.index_fulltext(FullTextState::Idle, FullTextEvent::Start)?;
                Ok(Dispatch::FullText { op: ic, state, call })
            },
            IndexKind::MTree(_) => Ok(Dispatch::Calls(ic.index_mtree()?)),
            IndexKind::Hnsw(_) => Ok(Dispatch::Calls(ic.index_hnsw()?)),
        }
    }

    /// Brings the indexes of the table of the document up to date.
    ///
    /// `dropped` tells whether the table keeps no records, and `indexes` are
    /// the indexes of the table. Nothing is done where the table keeps no
    /// records, or where the statement names no indexes of the table, does
    /// not ask for every index, and did not change the document.
    #[verifier::loop_isolation(false)]
    #[verifier::spinoff_prover]
    pub fn store_index_data<'a>(
        &'a self,
        txn: &mut Transaction,
        ib: &mut IndexBuilder,
        opt: &'a Options,
        dropped: bool,
        indexes: &'a Vec<DefineIndexStatement>,
    ) -> (r: Result<Vec<Work<'a>>, Error>)
        ensures
            final(txn).is_done() == old(txn).is_done(),
            final(txn).is_writeable() == old(txn).is_writeable(),
            forall|tb: Seq<char>, name: Seq<char>|
                final(ib).is_building(tb, name) == old(ib).is_building(tb, name),
            match selected(self, opt, indexes@) {
                Some(ixs) if !dropped => match self.id {
                    Some(rid) => {
                        let pass = maintained(
                            old(txn)@,
                            old(txn).write_error(),
                            *old(ib),
                            old(ib).queue(),
                            opt,
                            ixs,
                            0,
                            self.initial.doc_view(),
                            self.current.doc_view(),
                            rid@,
                            opt.force is Index,
                            Seq::empty(),
                        );
                        &&& final(txn)@ == pass.store
                        &&& final(ib).queue() == pass.queue
                        &&& match r {
                            Ok(d) => pass.failure is None && dispatches_view(d@) == pass.dispatches
                                && names_its_index(d@, ixs),
                            Err(e) => pass.failure matches Some((at, out)) && 0 <= at < ixs.len()
                                && is_failure(
                                e,
                                out,
                                &ixs[at],
                                projected(&ixs[at], self.current.doc_view()),
                            ),
                        }
                    },
                    None => r matches Err(Error::IdMissing) && final(txn)@ == old(txn)@ && final(ib).queue() == old(ib).queue(),
                },
                _ => r matches Ok(d) && d@.len() == 0 && final(txn)@ == old(txn)@ && final(ib).queue() == old(ib).queue(),
            },
    {
        // Was this force targeted at a specific index?
        let targeted_force = match &opt.force {
            Force::Index(_) => true,
            _ => false,
        };
        // Collect indexes or skip
        let named = match (&opt.force, &self.id) {
            (Force::Index(ix), Some(id)) => ix.len() > 0 && ix[0].what == id.tb,
            _ => false,
        };
        let all = match &opt.force {
            Force::All => true,
            _ => false,
        };
        let ixs: &'a Vec<DefineIndexStatement> = if named {
            match &opt.force {
                Force::Index(ix) => ix,
                _ => indexes,
            }
        } else if all || self.changed() {
            indexes
        } else {
            return Ok(Vec::new());
        };
        // Check if the table is a view
        if dropped {
            return Ok(Vec::new());
        }
        // Get the record id
        let rid: &'a Thing = match &self.id {
            Some(id) => id,
            None => {
                return Err(Error::IdMissing);
            },
        };
        let ghost store0 = txn@;
        let ghost queue0 = ib.queue();
        let ghost ib0 = *ib;
        let ghost werr = txn.write_error();
        let mut out: Vec<Work<'a>> = Vec::new();
        assert(dispatches_view(out@) =~= Seq::<(int, DispatchView)>::empty());
        // Loop through all index statements
        let mut i: usize = 0;
        while i < ixs.len()
            invariant
                i <= ixs.len(),
                txn.is_done() == old(txn).is_done(),
                txn.is_writeable() == old(txn).is_writeable(),
                werr == txn.write_error(),
                names_its_index(out@, ixs@),
                forall|tb: Seq<char>, name: Seq<char>|
                    ib.is_building(tb, name) == ib0.is_building(tb, name),
                maintained(
                    store0,
                    werr,
                    ib0,
                    queue0,
                    opt,
                    ixs@,
                    0,
                    self.initial.doc_view(),
                    self.current.doc_view(),
                    rid@,
                    targeted_force,
                    Seq::empty(),
                ) == maintained(
                    txn@,
                    werr,
                    ib0,
                    ib.queue(),
                    opt,
                    ixs@,
                    i as int,
                    self.initial.doc_view(),
                    self.current.doc_view(),
                    rid@,
                    targeted_force,
                    dispatches_view(out@),
                ),
            decreases ixs.len() - i,
        {
            let ix = &ixs[i];
            // Calculate old values
            let o = Self::project(ix, &self.initial)?;
            // Calculate new values
            let n = Self::project(ix, &self.current)?;
            // Update the index entries
            if targeted_force || !same_tuple(&o, &n) {
                let ghost before = dispatches_view(out@);
                match Self::one_index(txn, ib, opt, ix, o, n, rid) {
                    Ok(d) => {
                        out.push(Work { at: i, ix, dispatch: d });
                        assert(dispatches_view(out@) =~= before.push((i as int, d@)));
                    },
                    Err(e) => {
                        return Err(e);
                    },
                }
            }
            i += 1;
        }
        // Carry on
        Ok(out)
    }
}

} // verus!
