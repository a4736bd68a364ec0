use surrealdb_core::dbs::Options;
use surrealdb_core::doc::{CursorDoc, Document, Workable};
use surrealdb_core::err::Error;
use surrealdb_core::expr::statements::define::DefineTableStatement;
use surrealdb_core::expr::table_type::{Relation, TableType};
use surrealdb_core::key::graph::Dir;
use surrealdb_core::kvs::{Transaction, Val};
use surrealdb_core::val::{Id, Thing, Value};

fn options() -> Options {
    let mut opt = Options::new();
    opt.ns = Some("ns".to_string());
    opt.db = Some("db".to_string());
    opt
}

fn thing(tb: &str, id: i64) -> Thing {
    Thing { tb: tb.to_string(), id: Id::Number(id) }
}

fn table(kind: TableType, drop: bool) -> DefineTableStatement {
    DefineTableStatement {
        id: None,
        name: "likes".to_string(),
        drop,
        full: false,
        kind,
        comment: None,
        if_not_exists: false,
        overwrite: false,
    }
}

fn relation(enforced: bool) -> TableType {
    TableType::Relation(Relation { from: None, to: None, enforced })
}

fn edge(l: Thing, r: Thing) -> Document {
    let e = thing("likes", 1);
    Document::new(
        Some(e.clone()),
        Workable::Relate(l, r, None),
        CursorDoc { rid: Some(e.clone()), doc: None },
        CursorDoc {
            rid: Some(e),
            doc: Some(Value::Object(vec![("since".to_string(), Value::Number(2020))])),
        },
    )
}

fn pointer(from: &Thing, dir: Dir, to: &Thing) -> Vec<u8> {
    surrealdb_core::key::graph::new("ns", "db", &from.tb, &from.id, &dir, to).encode_key()
}

fn record(t: &Thing) -> Vec<u8> {
    surrealdb_core::key::thing::new("ns", "db", &t.tb, &t.id).encode_key()
}

#[test]
fn an_edge_is_found_from_both_ends() {
    let (a, b, e) = (thing("person", 1), thing("person", 2), thing("likes", 1));
    let mut doc = edge(a.clone(), b.clone());
    let mut txn = Transaction::new(true);
    assert_eq!(doc.store_edges_data(&mut txn, &options(), &table(relation(false), false)), Ok(()));
    assert_eq!(txn.len(), 4);
    assert_eq!(txn.get(&pointer(&a, Dir::Out, &e)), Ok(Some(Val::Unit)));
    assert_eq!(txn.get(&pointer(&e, Dir::In, &a)), Ok(Some(Val::Unit)));
    assert_eq!(txn.get(&pointer(&e, Dir::Out, &b)), Ok(Some(Val::Unit)));
    assert_eq!(txn.get(&pointer(&b, Dir::In, &e)), Ok(Some(Val::Unit)));
    assert_eq!(
        doc.current.doc,
        Some(Value::Object(vec![
            ("since".to_string(), Value::Number(2020)),
            ("edge".to_string(), Value::Bool(true)),
            ("in".to_string(), Value::Thing(a)),
            ("out".to_string(), Value::Thing(b)),
        ]))
    );
}

#[test]
fn an_edge_from_a_record_to_itself_has_four_pointers() {
    let (a, e) = (thing("person", 1), thing("likes", 1));
    let mut doc = edge(a.clone(), a.clone());
    let mut txn = Transaction::new(true);
    doc.store_edges_data(&mut txn, &options(), &table(TableType::Any, false)).unwrap();
    assert_eq!(txn.len(), 4);
    assert_eq!(txn.contains(&pointer(&a, Dir::Out, &e)), Ok(true));
    assert_eq!(txn.contains(&pointer(&a, Dir::In, &e)), Ok(true));
}

#[test]
fn an_enforced_relation_needs_both_records() {
    let (a, b) = (thing("person", 1), thing("person", 2));
    let tb = table(relation(true), false);
    let mut txn = Transaction::new(true);
    let mut doc = edge(a.clone(), b.clone());
    let before = doc.current.doc.clone();
    assert_eq!(
        doc.store_edges_data(&mut txn, &options(), &tb),
        Err(Error::IdNotFound { rid: a.clone() })
    );
    assert_eq!(txn.len(), 0);
    assert_eq!(doc.current.doc, before);
    txn.set(record(&a), Val::Bytes(vec![]), None).unwrap();
    assert_eq!(
        doc.store_edges_data(&mut txn, &options(), &tb),
        Err(Error::IdNotFound { rid: b.clone() })
    );
    assert_eq!(txn.len(), 1);
    txn.set(record(&b), Val::Bytes(vec![]), None).unwrap();
    assert_eq!(doc.store_edges_data(&mut txn, &options(), &tb), Ok(()));
    assert_eq!(txn.len(), 6);
}

#[test]
fn nothing_is_stored_for_a_view_or_a_plain_document() {
    let (a, b) = (thing("person", 1), thing("person", 2));
    let mut txn = Transaction::new(true);
    let mut doc = edge(a, b);
    let before = doc.current.doc.clone();
    assert_eq!(doc.store_edges_data(&mut txn, &options(), &table(relation(true), true)), Ok(()));
    assert_eq!(txn.len(), 0);
    assert_eq!(doc.current.doc, before);
    doc.extras = Workable::Normal;
    assert_eq!(doc.store_edges_data(&mut txn, &Options::new(), &table(relation(true), false)), Ok(()));
    doc.extras = Workable::Insert(Value::Null);
    assert_eq!(doc.store_edges_data(&mut txn, &Options::new(), &table(relation(true), false)), Ok(()));
    assert_eq!(txn.len(), 0);
    assert_eq!(doc.current.doc, before);
}

#[test]
fn storing_an_edge_hands_on_what_fails() {
    let (a, b) = (thing("person", 1), thing("person", 2));
    let tb = table(relation(false), false);
    let mut txn = Transaction::new(true);
    let mut doc = edge(a.clone(), b.clone());
    assert_eq!(doc.store_edges_data(&mut txn, &Options::new(), &tb), Err(Error::NsEmpty));
    let mut only_ns = Options::new();
    only_ns.ns = Some("ns".to_string());
    assert_eq!(doc.store_edges_data(&mut txn, &only_ns, &tb), Err(Error::DbEmpty));
    doc.id = None;
    assert_eq!(doc.store_edges_data(&mut txn, &options(), &tb), Err(Error::IdMissing));
    let mut doc = edge(a.clone(), b.clone());
    let mut readonly = Transaction::new(false);
    assert_eq!(doc.store_edges_data(&mut readonly, &options(), &tb), Err(Error::TxReadonly));
    assert_eq!(
        doc.store_edges_data(&mut readonly, &options(), &table(relation(true), false)),
        Err(Error::IdNotFound { rid: a })
    );
    let mut done = Transaction::new(true);
    done.commit().unwrap();
    assert_eq!(doc.store_edges_data(&mut done, &options(), &tb), Err(Error::TxFinished));
    assert_eq!(
        doc.store_edges_data(&mut done, &options(), &table(relation(true), false)),
        Err(Error::TxFinished)
    );
    assert_eq!(txn.len(), 0);
}

#[test]
fn a_document_without_fields_becomes_an_edge_object() {
    let (a, b) = (thing("person", 1), thing("person", 2));
    let mut doc = edge(a.clone(), b.clone());
    doc.current.doc = None;
    let mut txn = Transaction::new(true);
    doc.store_edges_data(&mut txn, &options(), &table(TableType::Normal, false)).unwrap();
    assert_eq!(
        doc.current.doc,
        Some(Value::Object(vec![
            ("edge".to_string(), Value::Bool(true)),
            ("in".to_string(), Value::Thing(a)),
            ("out".to_string(), Value::Thing(b)),
        ]))
    );
    assert!(TableType::Relation(Relation { from: None, to: None, enforced: true }).enforced());
    assert!(!TableType::Normal.enforced());
}
