use surrealdb_core::doc::combinator::{Combinator, Indexable, MultiValuesIterator};
use surrealdb_core::expr::index::Index;
use surrealdb_core::expr::part::{Idiom, Idioms, Part};
use surrealdb_core::expr::statements::define::DefineIndexStatement;
use surrealdb_core::val::{Array, Value};

fn strand(s: &str) -> Value {
    Value::Strand(s.to_string())
}

fn drain(mut c: Combinator) -> Vec<Vec<Value>> {
    let mut out = Vec::new();
    while let Some(Array(e)) = c.next() {
        out.push(e);
        assert!(out.len() < 1000);
    }
    assert!(c.next().is_none());
    out
}

fn index(cols: Vec<Vec<Part>>) -> DefineIndexStatement {
    DefineIndexStatement {
        name: "ix".to_string(),
        what: "tb".to_string(),
        cols: Idioms(cols.into_iter().map(Idiom).collect()),
        index: Index::Idx,
        comment: None,
        if_not_exists: false,
        overwrite: false,
        concurrently: false,
    }
}

#[test]
fn two_arrays_of_equal_length_are_paired_row_by_row() {
    let tags = Value::Array(vec![strand("x"), strand("y"), strand("z")]);
    let scores = Value::Array(vec![Value::Number(1), Value::Number(2), Value::Number(3)]);
    let entries = drain(Combinator::new(vec![(tags, false), (scores, false)]));
    assert_eq!(
        entries,
        vec![
            vec![strand("x"), Value::Number(1)],
            vec![strand("y"), Value::Number(2)],
            vec![strand("z"), Value::Number(3)],
        ]
    );
}

#[test]
fn a_shorter_array_stays_at_its_last_element() {
    let a = Value::Array(vec![Value::Number(1), Value::Number(2), Value::Number(3)]);
    let b = Value::Array(vec![strand("p")]);
    let c = Value::Array(vec![strand("q"), strand("r")]);
    let entries = drain(Combinator::new(vec![(a, false), (b, false), (c, false)]));
    assert_eq!(
        entries,
        vec![
            vec![Value::Number(1), strand("p"), strand("q")],
            vec![Value::Number(2), strand("p"), strand("r")],
            vec![Value::Number(3), strand("p"), strand("r")],
        ]
    );
}

#[test]
fn an_empty_array_holds_null_in_every_entry() {
    let a = Value::Array(vec![]);
    let b = Value::Array(vec![Value::Number(1), Value::Number(2)]);
    let entries = drain(Combinator::new(vec![(a, false), (b, false)]));
    assert_eq!(
        entries,
        vec![vec![Value::Null, Value::Number(1)], vec![Value::Null, Value::Number(2)]]
    );
    let alone = drain(Combinator::new(vec![(Value::Array(vec![]), false)]));
    assert_eq!(alone, vec![vec![Value::Null]]);
}

#[test]
fn scalars_and_flattened_arrays_are_one_unit() {
    let arr = Value::Array(vec![Value::Number(1), Value::Number(2)]);
    let entries = drain(Combinator::new(vec![(strand("s"), false), (arr.clone(), true)]));
    assert_eq!(entries, vec![vec![strand("s"), arr.clone()]]);
    let entries = drain(Combinator::new(vec![(strand("s"), false), (arr, false)]));
    assert_eq!(
        entries,
        vec![vec![strand("s"), Value::Number(1)], vec![strand("s"), Value::Number(2)]]
    );
}

#[test]
fn no_column_gives_one_empty_entry() {
    assert_eq!(drain(Combinator::new(vec![])), vec![Vec::<Value>::new()]);
}

#[test]
fn indexable_marks_flattened_columns() {
    let ix = index(vec![
        vec![Part::Field("tags".to_string())],
        vec![Part::Field("all".to_string()), Part::Flatten],
    ]);
    let arr = Value::Array(vec![Value::Number(1), Value::Number(2)]);
    let entries = drain(Indexable::new(vec![arr.clone(), arr.clone()], &ix).into_iter());
    assert_eq!(
        entries,
        vec![vec![Value::Number(1), arr.clone()], vec![Value::Number(2), arr.clone()]]
    );
    // A value without a path has no column.
    let entries = drain(Indexable::new(vec![arr.clone(), arr.clone(), arr], &ix).into_iter());
    assert_eq!(entries.len(), 2);
    assert_eq!(entries[0].len(), 2);
}

#[test]
fn a_cursor_moves_to_its_last_element_and_no_further() {
    let mut it = MultiValuesIterator::new(vec![Value::Number(1), Value::Number(2)]);
    assert_eq!(it.current(), Value::Number(1));
    assert!(it.next());
    assert_eq!(it.current(), Value::Number(2));
    assert!(!it.next());
    assert_eq!(it.current(), Value::Number(2));
    assert!(!it.next());
    let mut empty = MultiValuesIterator::new(vec![]);
    assert_eq!(empty.current(), Value::Null);
    assert!(!empty.next());
    assert_eq!(empty.current(), Value::Null);
}
