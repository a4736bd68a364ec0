use surrealdb_core::dbs::{Force, Options};
use surrealdb_core::doc::index::{
    Dispatch, EngineCall, FullTextCall, FullTextEvent, FullTextState, IndexOperation,
};
use surrealdb_core::doc::{CursorDoc, Document, Workable};
use surrealdb_core::err::Error;
use surrealdb_core::expr::index::{
    Distance, FullTextParams, HnswParams, Index, MTreeParams, Scoring, SearchParams, VectorType,
};
use surrealdb_core::expr::part::{Idiom, Idioms, Part};
use surrealdb_core::expr::statements::define::index::Received;
use surrealdb_core::expr::statements::define::DefineIndexStatement;
use surrealdb_core::idx::builder::{ConsumeResult, IndexBuilder, Queued};
use surrealdb_core::key::index::Index as IndexKey;
use surrealdb_core::kvs::{Transaction, Val};
use surrealdb_core::val::{Array, Id, Thing, Value};

fn options() -> Options {
    let mut opt = Options::new();
    opt.ns = Some("ns".to_string());
    opt.db = Some("db".to_string());
    opt
}

fn index(name: &str, kind: Index, cols: &[&[&str]]) -> DefineIndexStatement {
    DefineIndexStatement {
        name: name.to_string(),
        what: "person".to_string(),
        cols: Idioms(
            cols.iter()
                .map(|c| Idiom(c.iter().map(|f| Part::Field(f.to_string())).collect()))
                .collect(),
        ),
        index: kind,
        comment: None,
        if_not_exists: false,
        overwrite: false,
        concurrently: false,
    }
}

fn rid(n: i64) -> Thing {
    Thing { tb: "person".to_string(), id: Id::Number(n) }
}

fn strand(s: &str) -> Value {
    Value::Strand(s.to_string())
}

fn unique_key(ix: &DefineIndexStatement, fd: Vec<Value>) -> Vec<u8> {
    IndexKey::new("ns", "db", &ix.what, &ix.name, &Array(fd), None).encode_key()
}

fn plain_key(ix: &DefineIndexStatement, fd: Vec<Value>, rid: &Thing) -> Vec<u8> {
    IndexKey::new("ns", "db", &ix.what, &ix.name, &Array(fd), Some(&rid.id)).encode_key()
}

fn search_params() -> SearchParams {
    SearchParams {
        az: "like".to_string(),
        hl: false,
        sc: Scoring::Vs,
        doc_ids_order: 100,
        doc_lengths_order: 100,
        postings_order: 100,
        terms_order: 100,
        doc_ids_cache: 100,
        doc_lengths_cache: 100,
        postings_cache: 100,
        terms_cache: 100,
    }
}

fn mtree_params() -> MTreeParams {
    MTreeParams {
        dimension: 3,
        distance: Distance::Euclidean,
        vector_type: VectorType::F64,
        capacity: 40,
        doc_ids_order: 100,
        doc_ids_cache: 100,
        mtree_cache: 100,
    }
}

fn hnsw_params() -> HnswParams {
    HnswParams {
        dimension: 3,
        distance: Distance::Euclidean,
        vector_type: VectorType::F64,
        m: 12,
        m0: 24,
        ml: (1.0f64 / 12.0f64.ln()).to_bits(),
        ef_construction: 150,
        extend_candidates: false,
        keep_pruned_connections: false,
    }
}

fn doc(fields: Vec<(&str, Value)>) -> Option<Value> {
    Some(Value::Object(fields.into_iter().map(|(k, v)| (k.to_string(), v)).collect()))
}

fn document(id: i64, initial: Option<Value>, current: Option<Value>) -> Document {
    Document::new(
        Some(rid(id)),
        Workable::Normal,
        CursorDoc { rid: Some(rid(id)), doc: initial },
        CursorDoc { rid: Some(rid(id)), doc: current },
    )
}

#[test]
fn unique_index_round_trip_leaves_nothing() {
    let opt = options();
    let ix = index("uniq", Index::Uniq, &[&["name"], &["tags"]]);
    let r = rid(1);
    let tuple = vec![strand("Tobie"), Value::Array(vec![strand("a"), strand("b")])];
    let mut txn = Transaction::new(true);
    let mut op = IndexOperation::new(&opt, &ix, None, Some(tuple.clone()), &r);
    assert_eq!(op.index_unique(&mut txn), Ok(()));
    assert_eq!(txn.len(), 2);
    assert_eq!(
        txn.get(&unique_key(&ix, vec![strand("Tobie"), strand("a")])),
        Ok(Some(Val::Thing(rid(1))))
    );
    assert_eq!(
        txn.get(&unique_key(&ix, vec![strand("Tobie"), strand("b")])),
        Ok(Some(Val::Thing(rid(1))))
    );
    let mut op = IndexOperation::new(&opt, &ix, Some(tuple), None, &r);
    assert_eq!(op.index_unique(&mut txn), Ok(()));
    assert_eq!(txn.len(), 0);
}

#[test]
fn unique_index_names_the_record_that_holds_a_value() {
    let opt = options();
    let ix = index("uniq", Index::Uniq, &[&["name"]]);
    let first = rid(1);
    let second = rid(2);
    let mut txn = Transaction::new(true);
    let mut op = IndexOperation::new(&opt, &ix, None, Some(vec![strand("Tobie")]), &first);
    assert_eq!(op.index_unique(&mut txn), Ok(()));
    let mut op = IndexOperation::new(&opt, &ix, None, Some(vec![strand("Tobie")]), &second);
    assert_eq!(
        op.index_unique(&mut txn),
        Err(Error::IndexExists {
            thing: rid(1),
            index: "uniq".to_string(),
            value: strand("Tobie"),
        })
    );
    assert_eq!(txn.len(), 1);
    assert_eq!(txn.get(&unique_key(&ix, vec![strand("Tobie")])), Ok(Some(Val::Thing(rid(1)))));
}

#[test]
fn unique_index_names_a_tuple_of_several_values_as_an_array() {
    let opt = options();
    let ix = index("uniq", Index::Uniq, &[&["a"], &["b"]]);
    let first = rid(1);
    let second = rid(2);
    let tuple = vec![Value::Number(1), strand("x")];
    let mut txn = Transaction::new(true);
    IndexOperation::new(&opt, &ix, None, Some(tuple.clone()), &first).index_unique(&mut txn).unwrap();
    assert_eq!(
        IndexOperation::new(&opt, &ix, None, Some(tuple.clone()), &second).index_unique(&mut txn),
        Err(Error::IndexExists {
            thing: rid(1),
            index: "uniq".to_string(),
            value: Value::Array(tuple),
        })
    );
}

#[test]
fn unique_index_skips_entries_without_a_value() {
    let opt = options();
    let ix = index("uniq", Index::Uniq, &[&["a"], &["b"]]);
    let first = rid(1);
    let second = rid(2);
    let tuple = vec![Value::Null, Value::Nothing];
    let mut txn = Transaction::new(true);
    assert_eq!(
        IndexOperation::new(&opt, &ix, None, Some(tuple.clone()), &first).index_unique(&mut txn),
        Ok(())
    );
    assert_eq!(
        IndexOperation::new(&opt, &ix, None, Some(tuple), &second).index_unique(&mut txn),
        Ok(())
    );
    assert_eq!(txn.len(), 0);
}

#[test]
fn unique_index_moves_a_record_from_its_old_value_to_its_new_one() {
    let opt = options();
    let ix = index("uniq", Index::Uniq, &[&["name"]]);
    let r = rid(1);
    let mut txn = Transaction::new(true);
    IndexOperation::new(&opt, &ix, None, Some(vec![strand("a")]), &r).index_unique(&mut txn).unwrap();
    let mut op = IndexOperation::new(&opt, &ix, Some(vec![strand("a")]), Some(vec![strand("b")]), &r);
    assert_eq!(op.index_unique(&mut txn), Ok(()));
    assert_eq!(txn.len(), 1);
    assert_eq!(txn.get(&unique_key(&ix, vec![strand("b")])), Ok(Some(Val::Thing(rid(1)))));
    // The same value again: the old entry is removed before the new one is added.
    let mut op = IndexOperation::new(&opt, &ix, Some(vec![strand("b")]), Some(vec![strand("b")]), &r);
    assert_eq!(op.index_unique(&mut txn), Ok(()));
    assert_eq!(txn.len(), 1);
}

#[test]
fn removal_passes_over_entries_of_other_records() {
    let opt = options();
    let ix = index("uniq", Index::Uniq, &[&["name"]]);
    let first = rid(1);
    let second = rid(2);
    let mut txn = Transaction::new(true);
    IndexOperation::new(&opt, &ix, None, Some(vec![strand("a")]), &first).index_unique(&mut txn).unwrap();
    // The second record believes that it held the value.
    let mut op = IndexOperation::new(&opt, &ix, Some(vec![strand("a")]), None, &second);
    assert_eq!(op.index_unique(&mut txn), Ok(()));
    assert_eq!(txn.get(&unique_key(&ix, vec![strand("a")])), Ok(Some(Val::Thing(rid(1)))));
    // And an entry that is not there at all is passed over too.
    let mut op = IndexOperation::new(&opt, &ix, Some(vec![strand("zz")]), None, &second);
    assert_eq!(op.index_unique(&mut txn), Ok(()));
    assert_eq!(txn.len(), 1);
}

#[test]
fn a_duplicate_inside_one_document_is_refused() {
    let opt = options();
    let ix = index("uniq", Index::Uniq, &[&["tags"]]);
    let r = rid(1);
    let mut txn = Transaction::new(true);
    let tuple = vec![Value::Array(vec![strand("a"), strand("a")])];
    assert_eq!(
        IndexOperation::new(&opt, &ix, None, Some(tuple), &r).index_unique(&mut txn),
        Err(Error::IndexExists { thing: rid(1), index: "uniq".to_string(), value: strand("a") })
    );
}

#[test]
fn a_corrupted_unique_entry_is_reported() {
    let opt = options();
    let ix = index("uniq", Index::Uniq, &[&["name"]]);
    let r = rid(1);
    let mut txn = Transaction::new(true);
    txn.set(unique_key(&ix, vec![strand("a")]), Val::Unit, None).unwrap();
    assert_eq!(
        IndexOperation::new(&opt, &ix, None, Some(vec![strand("a")]), &r).index_unique(&mut txn),
        Err(Error::IndexCorrupted { index: "uniq".to_string() })
    );
}

#[test]
fn non_unique_index_holds_one_entry_for_each_record() {
    let opt = options();
    let ix = index("idx", Index::Idx, &[&["name"], &["tags"]]);
    let first = rid(1);
    let second = rid(2);
    let tuple = vec![strand("Tobie"), Value::Array(vec![strand("a"), strand("b")])];
    let mut txn = Transaction::new(true);
    assert_eq!(
        IndexOperation::new(&opt, &ix, None, Some(tuple.clone()), &first).index_non_unique(&mut txn),
        Ok(())
    );
    assert_eq!(
        IndexOperation::new(&opt, &ix, None, Some(tuple.clone()), &second).index_non_unique(&mut txn),
        Ok(())
    );
    assert_eq!(txn.len(), 4);
    assert_eq!(
        txn.get(&plain_key(&ix, vec![strand("Tobie"), strand("b")], &second)),
        Ok(Some(Val::Thing(rid(2))))
    );
    assert_eq!(
        IndexOperation::new(&opt, &ix, Some(tuple), None, &first).index_non_unique(&mut txn),
        Ok(())
    );
    assert_eq!(txn.len(), 2);
    assert_eq!(txn.get(&plain_key(&ix, vec![strand("Tobie"), strand("a")], &first)), Ok(None));
    assert_eq!(
        txn.get(&plain_key(&ix, vec![strand("Tobie"), strand("a")], &second)),
        Ok(Some(Val::Thing(rid(2))))
    );
}

#[test]
fn non_unique_index_writes_entries_without_a_value() {
    let opt = options();
    let ix = index("idx", Index::Idx, &[&["name"]]);
    let r = rid(1);
    let mut txn = Transaction::new(true);
    IndexOperation::new(&opt, &ix, None, Some(vec![Value::Null]), &r).index_non_unique(&mut txn).unwrap();
    assert_eq!(txn.len(), 1);
}

#[test]
fn maintenance_needs_a_namespace_and_a_database() {
    let ix = index("uniq", Index::Uniq, &[&["name"]]);
    let r = rid(1);
    let mut txn = Transaction::new(true);
    let mut opt = Options::new();
    assert_eq!(
        IndexOperation::new(&opt, &ix, None, Some(vec![strand("a")]), &r).index_unique(&mut txn),
        Err(Error::NsEmpty)
    );
    opt.ns = Some("ns".to_string());
    assert_eq!(
        IndexOperation::new(&opt, &ix, Some(vec![strand("a")]), None, &r).index_unique(&mut txn),
        Err(Error::DbEmpty)
    );
    assert_eq!(
        IndexOperation::new(&opt, &ix, None, Some(vec![strand("a")]), &r).index_non_unique(&mut txn),
        Err(Error::DbEmpty)
    );
    // Nothing to write, nothing to ask for.
    assert_eq!(IndexOperation::new(&opt, &ix, None, None, &r).index_unique(&mut txn), Ok(()));
    assert_eq!(
        IndexOperation::new(&opt, &ix, None, Some(vec![Value::Null]), &r).index_unique(&mut txn),
        Ok(())
    );
    assert_eq!(txn.len(), 0);
    assert!(IndexOperation::new(&opt, &ix, None, None, &r)
        .get_unique_index_key(&Array(vec![]))
        .is_err());
    opt.db = Some("db".to_string());
    let op = IndexOperation::new(&opt, &ix, None, None, &r);
    let fd = Array(vec![strand("a")]);
    assert_eq!(op.get_unique_index_key(&fd).unwrap().encode_key(), unique_key(&ix, vec![strand("a")]));
    assert_eq!(
        op.get_non_unique_index_key(&fd).unwrap().encode_key(),
        plain_key(&ix, vec![strand("a")], &r)
    );
}

#[test]
fn maintenance_hands_on_what_the_transaction_refuses() {
    let opt = options();
    let ix = index("uniq", Index::Uniq, &[&["name"]]);
    let r = rid(1);
    let mut txn = Transaction::new(false);
    assert_eq!(
        IndexOperation::new(&opt, &ix, None, Some(vec![strand("a")]), &r).index_unique(&mut txn),
        Err(Error::TxReadonly)
    );
    assert_eq!(
        IndexOperation::new(&opt, &ix, Some(vec![strand("a")]), None, &r).index_unique(&mut txn),
        Err(Error::TxReadonly)
    );
    assert_eq!(
        IndexOperation::new(&opt, &ix, None, Some(vec![strand("a")]), &r).index_non_unique(&mut txn),
        Err(Error::TxReadonly)
    );
    let mut done = Transaction::new(true);
    done.commit().unwrap();
    assert_eq!(
        IndexOperation::new(&opt, &ix, Some(vec![strand("a")]), None, &r).index_non_unique(&mut done),
        Err(Error::TxFinished)
    );
}

#[test]
fn err_index_exists_names_what_it_is_given() {
    let opt = options();
    let ix = index("uniq", Index::Uniq, &[&["name"]]);
    let r = rid(1);
    let op = IndexOperation::new(&opt, &ix, None, None, &r);
    assert_eq!(
        op.err_index_exists(rid(9), Array(vec![Value::Number(4)])),
        Err(Error::IndexExists { thing: rid(9), index: "uniq".to_string(), value: Value::Number(4) })
    );
    assert_eq!(
        op.err_index_exists(rid(9), Array(vec![])),
        Err(Error::IndexExists {
            thing: rid(9),
            index: "uniq".to_string(),
            value: Value::Array(vec![]),
        })
    );
}

#[test]
fn search_index_indexes_or_removes_and_then_finishes() {
    let opt = options();
    let ix = index("ft", Index::Search(search_params()), &[&["text"]]);
    let r = rid(1);
    let mut op = IndexOperation::new(&opt, &ix, Some(vec![strand("o")]), Some(vec![strand("n")]), &r);
    assert_eq!(
        op.index_search(),
        Ok(vec![EngineCall::IndexDocument(vec![strand("n")]), EngineCall::Finish])
    );
    let mut op = IndexOperation::new(&opt, &ix, Some(vec![strand("o")]), None, &r);
    assert_eq!(op.index_search(), Ok(vec![EngineCall::RemoveDocument(None), EngineCall::Finish]));
    let none = Options::new();
    assert_eq!(IndexOperation::new(&none, &ix, None, None, &r).index_search(), Err(Error::NsEmpty));
}

#[test]
fn tree_indexes_remove_the_old_values_and_index_the_new() {
    let opt = options();
    let ix = index("mt", Index::MTree(mtree_params()), &[&["v"]]);
    let r = rid(1);
    let o = vec![Value::Number(1)];
    let n = vec![Value::Number(2)];
    let mut op = IndexOperation::new(&opt, &ix, Some(o.clone()), Some(n.clone()), &r);
    assert_eq!(
        op.index_mtree(),
        Ok(vec![
            EngineCall::RemoveDocument(Some(o.clone())),
            EngineCall::IndexDocument(n.clone()),
            EngineCall::Finish,
        ])
    );
    assert_eq!(IndexOperation::new(&opt, &ix, None, None, &r).index_mtree(), Ok(vec![EngineCall::Finish]));
    let mut op = IndexOperation::new(&opt, &ix, Some(o.clone()), Some(n.clone()), &r);
    assert_eq!(
        op.index_hnsw(),
        Ok(vec![EngineCall::RemoveDocument(Some(o)), EngineCall::IndexDocument(n.clone())])
    );
    assert_eq!(
        IndexOperation::new(&opt, &ix, None, Some(n.clone()), &r).index_hnsw(),
        Ok(vec![EngineCall::IndexDocument(n)])
    );
    let none = Options::new();
    assert_eq!(IndexOperation::new(&none, &ix, None, None, &r).index_mtree(), Err(Error::NsEmpty));
    assert_eq!(IndexOperation::new(&none, &ix, None, None, &r).index_hnsw(), Ok(vec![]));
}

#[test]
fn full_text_replaces_content() {
    let opt = options();
    let ix = index("ft", Index::FullText(FullTextParams { az: "like".to_string(), hl: false, sc: Scoring::Vs }), &[&["text"]]);
    let r = rid(1);
    let mut op = IndexOperation::new(&opt, &ix, Some(vec![strand("o")]), Some(vec![strand("n")]), &r);
    assert_eq!(
        op.index_fulltext(FullTextState::Idle, FullTextEvent::Start),
        Ok((FullTextState::Deleting, Some(FullTextCall::RemoveContent(vec![strand("o")]))))
    );
    assert_eq!(
        op.index_fulltext(
            FullTextState::Deleting,
            FullTextEvent::ContentRemoved { doc_id: Some(7), compact: true }
        ),
        Ok((
            FullTextState::Inserting,
            Some(FullTextCall::IndexContent { values: vec![strand("n")], compact: true })
        ))
    );
    assert_eq!(
        op.index_fulltext(FullTextState::Inserting, FullTextEvent::ContentIndexed { compact: true }),
        Ok((FullTextState::Compacting, Some(FullTextCall::TriggerCompaction)))
    );
    assert_eq!(
        op.index_fulltext(FullTextState::Compacting, FullTextEvent::Compacted),
        Ok((FullTextState::Done, None))
    );
}

#[test]
fn full_text_removes_a_document_that_has_no_new_content() {
    let opt = options();
    let ix = index("ft", Index::FullText(FullTextParams { az: "like".to_string(), hl: false, sc: Scoring::Vs }), &[&["text"]]);
    let r = rid(1);
    let mut op = IndexOperation::new(&opt, &ix, Some(vec![strand("o")]), None, &r);
    op.index_fulltext(FullTextState::Idle, FullTextEvent::Start).unwrap();
    assert_eq!(
        op.index_fulltext(
            FullTextState::Deleting,
            FullTextEvent::ContentRemoved { doc_id: Some(7), compact: false }
        ),
        Ok((FullTextState::RemovingDoc { compact: false }, Some(FullTextCall::RemoveDoc(7))))
    );
    assert_eq!(
        op.index_fulltext(FullTextState::RemovingDoc { compact: false }, FullTextEvent::DocRemoved),
        Ok((FullTextState::Done, None))
    );
    assert_eq!(
        op.index_fulltext(FullTextState::RemovingDoc { compact: true }, FullTextEvent::DocRemoved),
        Ok((FullTextState::Compacting, Some(FullTextCall::TriggerCompaction)))
    );
    // The engine did not know the record.
    assert_eq!(
        op.index_fulltext(
            FullTextState::Deleting,
            FullTextEvent::ContentRemoved { doc_id: None, compact: false }
        ),
        Ok((FullTextState::Done, None))
    );
    assert_eq!(
        op.index_fulltext(
            FullTextState::Deleting,
            FullTextEvent::ContentRemoved { doc_id: None, compact: true }
        ),
        Ok((FullTextState::Compacting, Some(FullTextCall::TriggerCompaction)))
    );
}

#[test]
fn full_text_skips_what_is_absent_and_refuses_what_does_not_fit() {
    let opt = options();
    let ix = index("ft", Index::FullText(FullTextParams { az: "like".to_string(), hl: false, sc: Scoring::Vs }), &[&["text"]]);
    let r = rid(1);
    let mut op = IndexOperation::new(&opt, &ix, None, Some(vec![strand("n")]), &r);
    assert_eq!(
        op.index_fulltext(FullTextState::Idle, FullTextEvent::Start),
        Ok((
            FullTextState::Inserting,
            Some(FullTextCall::IndexContent { values: vec![strand("n")], compact: false })
        ))
    );
    assert_eq!(
        op.index_fulltext(FullTextState::Inserting, FullTextEvent::ContentIndexed { compact: false }),
        Ok((FullTextState::Done, None))
    );
    let mut op = IndexOperation::new(&opt, &ix, None, None, &r);
    assert_eq!(
        op.index_fulltext(FullTextState::Idle, FullTextEvent::Start),
        Ok((FullTextState::Done, None))
    );
    assert_eq!(
        op.index_fulltext(FullTextState::Done, FullTextEvent::Start),
        Err(Error::Unreachable)
    );
    assert_eq!(
        op.index_fulltext(FullTextState::Idle, FullTextEvent::DocRemoved),
        Err(Error::Unreachable)
    );
    let none = Options::new();
    assert_eq!(
        IndexOperation::new(&none, &ix, None, None, &r)
            .index_fulltext(FullTextState::Idle, FullTextEvent::Start),
        Err(Error::NsEmpty)
    );
}

#[test]
fn build_opt_values_projects_the_columns_in_order() {
    let ix = index("idx", Index::Idx, &[&["name"], &["instrument"], &["missing"]]);
    let d = CursorDoc {
        rid: None,
        doc: doc(vec![("id", Value::Number(1)), ("instrument", strand("piano")), ("name", strand("Tobie"))]),
    };
    let evaluated = Document::evaluate_columns(&ix, &d);
    assert_eq!(evaluated, vec![Ok(strand("Tobie")), Ok(strand("piano")), Ok(Value::Nothing)]);
    assert_eq!(
        Document::build_opt_values(&d, evaluated),
        Ok(Some(vec![strand("Tobie"), strand("piano"), Value::Nothing]))
    );
    let nothing = CursorDoc { rid: None, doc: None };
    assert_eq!(Document::evaluate_columns(&ix, &nothing), vec![]);
    assert_eq!(Document::build_opt_values(&nothing, vec![]), Ok(None));
}

#[test]
fn a_column_that_fails_ends_the_projection() {
    let d = CursorDoc { rid: None, doc: doc(vec![("name", strand("Tobie"))]) };
    let evaluated = vec![
        Ok(strand("Tobie")),
        Err(Error::InvalidLimit { value: strand("a") }),
        Ok(Value::Null),
        Err(Error::Unreachable),
    ];
    assert_eq!(
        Document::build_opt_values(&d, evaluated),
        Err(Error::InvalidLimit { value: strand("a") })
    );
    // Without a document there is no tuple, whatever the columns gave.
    let nothing = CursorDoc { rid: None, doc: None };
    assert_eq!(Document::build_opt_values(&nothing, vec![Err(Error::Unreachable)]), Ok(None));
    assert_eq!(Document::build_opt_values(&d, vec![]), Ok(Some(vec![])));
}

#[test]
fn an_unchanged_document_costs_no_write() {
    let opt = options();
    let ixs = vec![index("uniq", Index::Uniq, &[&["name"]]), index("idx", Index::Idx, &[&["name"]])];
    let d = document(1, doc(vec![("name", strand("a"))]), doc(vec![("name", strand("a"))]));
    let mut txn = Transaction::new(true);
    let mut ib = IndexBuilder::new();
    assert!(!d.changed());
    let r = d.store_index_data(&mut txn, &mut ib, &opt, false, &ixs).unwrap();
    assert!(r.is_empty());
    assert_eq!(txn.len(), 0);
    // Every index is asked for, and the tuples are still the same.
    let mut all = options();
    all.force = Force::All;
    let r = d.store_index_data(&mut txn, &mut ib, &all, false, &ixs).unwrap();
    assert!(r.is_empty());
    assert_eq!(txn.len(), 0);
    // A change of a field that no index looks at.
    let d = document(
        1,
        doc(vec![("name", strand("a")), ("age", Value::Number(1))]),
        doc(vec![("name", strand("a")), ("age", Value::Number(2))]),
    );
    assert!(d.changed());
    let r = d.store_index_data(&mut txn, &mut ib, &opt, false, &ixs).unwrap();
    assert!(r.is_empty());
    assert_eq!(txn.len(), 0);
}

#[test]
fn a_created_document_is_written_to_every_index() {
    let opt = options();
    let ixs = vec![
        index("uniq", Index::Uniq, &[&["name"]]),
        index("idx", Index::Idx, &[&["name"]]),
        index("mt", Index::MTree(mtree_params()), &[&["v"]]),
        index("hn", Index::Hnsw(hnsw_params()), &[&["v"]]),
        index("se", Index::Search(search_params()), &[&["name"]]),
        index("ft", Index::FullText(FullTextParams { az: "like".to_string(), hl: true, sc: Scoring::Bm { k1: 1.2f32.to_bits(), b: 0.75f32.to_bits() } }), &[&["name"]]),
    ];
    let d = document(1, None, doc(vec![("name", strand("a")), ("v", Value::Number(3))]));
    let mut txn = Transaction::new(true);
    let mut ib = IndexBuilder::new();
    let r = d.store_index_data(&mut txn, &mut ib, &opt, false, &ixs).unwrap();
    assert_eq!(r.len(), 6);
    assert!(matches!(r[0].dispatch, Dispatch::Stored));
    assert!(matches!(r[1].dispatch, Dispatch::Stored));
    assert_eq!(r.iter().map(|w| w.at).collect::<Vec<_>>(), vec![0, 1, 2, 3, 4, 5]);
    assert!(r.iter().all(|w| w.ix == &ixs[w.at]));
    match &r[2].dispatch {
        Dispatch::Calls(c) => assert_eq!(
            c,
            &vec![EngineCall::IndexDocument(vec![Value::Number(3)]), EngineCall::Finish]
        ),
        _ => panic!(),
    }
    match &r[3].dispatch {
        Dispatch::Calls(c) => assert_eq!(c, &vec![EngineCall::IndexDocument(vec![Value::Number(3)])]),
        _ => panic!(),
    }
    match &r[4].dispatch {
        Dispatch::Calls(c) => {
            assert_eq!(c, &vec![EngineCall::IndexDocument(vec![strand("a")]), EngineCall::Finish])
        }
        _ => panic!(),
    }
    match &r[5].dispatch {
        Dispatch::FullText { state, call, .. } => {
            assert_eq!(*state, FullTextState::Inserting);
            assert_eq!(
                call,
                &Some(FullTextCall::IndexContent { values: vec![strand("a")], compact: false })
            );
        }
        _ => panic!(),
    }
    assert_eq!(txn.len(), 2);
    assert_eq!(ib.queued(), 0);
}

#[test]
fn a_pass_ends_at_the_first_index_that_fails() {
    let opt = options();
    let ixs = vec![index("idx", Index::Idx, &[&["name"]]), index("uniq", Index::Uniq, &[&["name"]]), index("idx2", Index::Idx, &[&["name"]])];
    let mut txn = Transaction::new(true);
    let mut ib = IndexBuilder::new();
    let first = document(1, None, doc(vec![("name", strand("a"))]));
    first.store_index_data(&mut txn, &mut ib, &opt, false, &ixs).unwrap();
    assert_eq!(txn.len(), 3);
    let second = document(2, None, doc(vec![("name", strand("a"))]));
    let r = second.store_index_data(&mut txn, &mut ib, &opt, false, &ixs);
    assert!(matches!(r, Err(Error::IndexExists { .. })));
    if let Err(Error::IndexExists { thing, index, value }) = r {
        assert_eq!(thing, rid(1));
        assert_eq!(index, "uniq");
        assert_eq!(value, strand("a"));
    }
    // The first index was written, the third was not reached.
    assert_eq!(txn.len(), 4);
}

#[test]
fn a_dropped_table_and_a_missing_id() {
    let opt = options();
    let ixs = vec![index("idx", Index::Idx, &[&["name"]])];
    let mut txn = Transaction::new(true);
    let mut ib = IndexBuilder::new();
    let d = document(1, None, doc(vec![("name", strand("a"))]));
    assert!(d.store_index_data(&mut txn, &mut ib, &opt, true, &ixs).unwrap().is_empty());
    assert_eq!(txn.len(), 0);
    let mut anonymous = document(1, None, doc(vec![("name", strand("a"))]));
    anonymous.id = None;
    assert_eq!(anonymous.id(), Err(Error::IdMissing));
    assert!(matches!(
        anonymous.store_index_data(&mut txn, &mut ib, &opt, false, &ixs),
        Err(Error::IdMissing)
    ));
    assert_eq!(txn.len(), 0);
    assert_eq!(d.id(), Ok(rid(1)));
}

#[test]
fn named_indexes_are_written_even_if_nothing_changed() {
    let table = vec![index("idx", Index::Idx, &[&["name"]])];
    let named = index("fresh", Index::Idx, &[&["name"]]);
    let mut opt = options();
    opt.force = Force::Index(vec![named.clone()]);
    let d = document(1, doc(vec![("name", strand("a"))]), doc(vec![("name", strand("a"))]));
    let mut txn = Transaction::new(true);
    let mut ib = IndexBuilder::new();
    let r = d.store_index_data(&mut txn, &mut ib, &opt, false, &table).unwrap();
    assert_eq!(r.len(), 1);
    assert_eq!(txn.len(), 1);
    assert_eq!(
        txn.get(&plain_key(&named, vec![strand("a")], &rid(1))),
        Ok(Some(Val::Thing(rid(1))))
    );
    // Indexes of another table are not those of the document.
    let mut other = named.clone();
    other.what = "animal".to_string();
    opt.force = Force::Index(vec![other]);
    let mut txn = Transaction::new(true);
    let r = d.store_index_data(&mut txn, &mut ib, &opt, false, &table).unwrap();
    assert!(r.is_empty());
    assert_eq!(txn.len(), 0);
}

#[test]
fn an_index_that_is_being_built_queues_its_changes() {
    let opt = options();
    let ixs = vec![index("uniq", Index::Uniq, &[&["name"]]), index("idx", Index::Idx, &[&["name"]])];
    let mut txn = Transaction::new(true);
    let mut ib = IndexBuilder::new();
    ib.build(&ixs[0]);
    let d = document(1, None, doc(vec![("name", strand("a"))]));
    let r = d.store_index_data(&mut txn, &mut ib, &opt, false, &ixs).unwrap();
    assert!(matches!(r[0].dispatch, Dispatch::Enqueued));
    assert!(matches!(r[1].dispatch, Dispatch::Stored));
    assert_eq!(ib.queued(), 1);
    assert_eq!(txn.len(), 1);
    let n = Some(vec![strand("b")]);
    let r1 = rid(1);
    assert_eq!(ib.consume(&ixs[1], None, n.clone(), &r1), ConsumeResult::Ignored(None, n.clone()));
    assert_eq!(ib.consume(&ixs[0], None, n, &r1), ConsumeResult::Enqueued);
    assert_eq!(ib.queued(), 2);
    let r = Document::one_index(&mut txn, &mut ib, &opt, &ixs[0], None, None, &r1).unwrap();
    assert!(matches!(r, Dispatch::Enqueued));
    assert_eq!(ib.queued(), 3);
}

#[test]
fn index_definition_decides_on_the_build() {
    let ix = index("idx", Index::Idx, &[&["name"]]);
    let mut none: Option<IndexBuilder> = None;
    assert_eq!(ix.async_index(&mut none), Err(Error::NoIndexBuilder));
    let mut some = Some(IndexBuilder::new());
    assert_eq!(ix.async_index(&mut some), Ok(()));
    let mut ib = some.unwrap();
    let r1 = rid(1);
    assert_eq!(ib.consume(&ix, None, None, &r1), ConsumeResult::Enqueued);
    assert_eq!(DefineIndexStatement::build_result(None), Ok(()));
    assert_eq!(DefineIndexStatement::build_result(Some(Received::Ended(Ok(())))), Ok(()));
    assert_eq!(
        DefineIndexStatement::build_result(Some(Received::Cancelled)),
        Err(Error::IndexingBuildingCancelled)
    );
    assert_eq!(
        DefineIndexStatement::build_result(Some(Received::Ended(Err(Error::TxFinished)))),
        Err(Error::TxFinished)
    );
}

#[test]
fn the_builder_hands_out_what_waits_for_an_index() {
    let a = index("a", Index::Idx, &[&["name"]]);
    let b = index("b", Index::Uniq, &[&["name"]]);
    let mut ib = IndexBuilder::new();
    ib.build(&a);
    ib.build(&b);
    ib.build(&a);
    let tuple = |s: &str| Some(vec![strand(s)]);
    assert_eq!(ib.consume(&a, None, tuple("1"), &rid(1)), ConsumeResult::Enqueued);
    assert_eq!(ib.consume(&b, None, tuple("2"), &rid(2)), ConsumeResult::Enqueued);
    assert_eq!(ib.consume(&a, tuple("1"), tuple("3"), &rid(1)), ConsumeResult::Enqueued);
    let waiting = ib.take_queued(&a);
    assert_eq!(
        waiting,
        vec![
            Queued { tb: "person".into(), ix: "a".into(), o: None, n: tuple("1"), rid: rid(1) },
            Queued { tb: "person".into(), ix: "a".into(), o: tuple("1"), n: tuple("3"), rid: rid(1) },
        ]
    );
    assert_eq!(ib.queued(), 1);
    assert_eq!(ib.take_queued(&a), vec![]);
    // The index is claimed until its build ends.
    assert_eq!(ib.consume(&a, None, None, &rid(4)), ConsumeResult::Enqueued);
    ib.end_build(&a);
    assert_eq!(ib.consume(&a, None, None, &rid(5)), ConsumeResult::Ignored(None, None));
    assert_eq!(ib.consume(&b, None, None, &rid(6)), ConsumeResult::Enqueued);
    assert_eq!(ib.queued(), 3);
    assert_eq!(ib.take_queued(&b).len(), 2);
    assert_eq!(ib.take_queued(&a).len(), 1);
    assert_eq!(ib.queued(), 0);
    ib.end_build(&b);
    ib.end_build(&b);
    assert_eq!(ib.consume(&b, None, None, &rid(7)), ConsumeResult::Ignored(None, None));
}

#[test]
fn what_waited_is_written_when_the_build_has_ended() {
    let opt = options();
    let ixs = vec![index("uniq", Index::Uniq, &[&["name"]])];
    let mut txn = Transaction::new(true);
    let mut ib = IndexBuilder::new();
    ib.build(&ixs[0]);
    let d = document(1, None, doc(vec![("name", strand("a"))]));
    d.store_index_data(&mut txn, &mut ib, &opt, false, &ixs).unwrap();
    assert_eq!(txn.len(), 0);
    let waiting = ib.take_queued(&ixs[0]);
    ib.end_build(&ixs[0]);
    for c in waiting {
        let r = Document::one_index(&mut txn, &mut ib, &opt, &ixs[0], c.o, c.n, &c.rid).unwrap();
        assert!(matches!(r, Dispatch::Stored));
    }
    assert_eq!(txn.get(&unique_key(&ixs[0], vec![strand("a")])), Ok(Some(Val::Thing(rid(1)))));
    assert_eq!(ib.queued(), 0);
}

#[test]
fn work_names_the_index_that_it_is_for() {
    let opt = options();
    let ixs = vec![
        index("a", Index::Idx, &[&["name"]]),
        index("b", Index::Hnsw(hnsw_params()), &[&["age"]]),
        index("c", Index::Hnsw(hnsw_params()), &[&["name"]]),
    ];
    let d = document(
        1,
        doc(vec![("name", strand("a")), ("age", Value::Number(1))]),
        doc(vec![("name", strand("b")), ("age", Value::Number(1))]),
    );
    let mut txn = Transaction::new(true);
    let mut ib = IndexBuilder::new();
    let r = d.store_index_data(&mut txn, &mut ib, &opt, false, &ixs).unwrap();
    assert_eq!(r.len(), 2);
    assert_eq!((r[0].at, r[1].at), (0, 2));
    assert_eq!(r[1].ix.name, "c");
}


#[test]
fn named_indexes_hold_their_entries_after_every_pass() {
    let named = vec![
        index("uniq", Index::Uniq, &[&["name"]]),
        index("idx", Index::Idx, &[&["name"], &["age"]]),
        index("uniq", Index::Uniq, &[&["age"]]),
    ];
    let mut opt = options();
    opt.force = Force::Index(named.clone());
    let d = document(
        1,
        doc(vec![("name", strand("a")), ("age", Value::Null)]),
        doc(vec![("name", strand("a")), ("age", Value::Null)]),
    );
    let mut txn = Transaction::new(true);
    let mut ib = IndexBuilder::new();
    let table = vec![];
    for _ in 0..3 {
        let r = d.store_index_data(&mut txn, &mut ib, &opt, false, &table).unwrap();
        assert_eq!(r.iter().map(|w| w.at).collect::<Vec<_>>(), vec![0, 1, 2]);
        assert_eq!(
            txn.get(&unique_key(&named[0], vec![strand("a")])),
            Ok(Some(Val::Thing(rid(1))))
        );
        assert_eq!(
            txn.get(&plain_key(&named[1], vec![strand("a"), Value::Null], &rid(1))),
            Ok(Some(Val::Thing(rid(1))))
        );
        // A unique index holds no entry without a value.
        assert_eq!(txn.get(&unique_key(&named[2], vec![Value::Null])), Ok(None));
        assert_eq!(txn.len(), 2);
    }
}


#[test]
fn a_name_with_a_zero_byte_can_take_the_entry_of_another_index() {
    // The key of the entry without a value of the second index is the key
    // of the entry of the first.
    let named = vec![
        index("u", Index::Uniq, &[&["name"]]),
        index("u\0*\0\0\0\u{4}a", Index::Uniq, &[&["missing"]]),
    ];
    let name = strand("a\0*\0\0\0");
    assert_eq!(
        unique_key(&named[0], vec![name.clone()]),
        unique_key(&named[1], vec![Value::Nothing])
    );
    let mut opt = options();
    opt.force = Force::Index(named.clone());
    let d = document(1, doc(vec![("name", name.clone())]), doc(vec![("name", name.clone())]));
    let mut txn = Transaction::new(true);
    let mut ib = IndexBuilder::new();
    let table = vec![];
    let r = d.store_index_data(&mut txn, &mut ib, &opt, false, &table).unwrap();
    assert_eq!(r.len(), 2);
    // The second index took the entry away as one of its own.
    assert_eq!(txn.get(&unique_key(&named[0], vec![name])), Ok(None));
    assert_eq!(txn.len(), 0);
}
