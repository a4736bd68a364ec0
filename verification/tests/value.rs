use surrealdb_core::expr::part::{Idiom, Part};
use surrealdb_core::val::{Array, Id, Thing, Value};

fn person() -> Value {
    Value::Object(vec![
        ("name".to_string(), Value::Strand("Tobie".to_string())),
        ("instrument".to_string(), Value::Strand("piano".to_string())),
        (
            "tags".to_string(),
            Value::Array(vec![Value::Strand("a".to_string()), Value::Strand("b".to_string())]),
        ),
        (
            "bands".to_string(),
            Value::Array(vec![
                Value::Object(vec![("year".to_string(), Value::Number(1999))]),
                Value::Object(vec![("year".to_string(), Value::Number(2004))]),
            ]),
        ),
    ])
}

fn field(name: &str) -> Part {
    Part::Field(name.to_string())
}

#[test]
fn pick_selects_a_field() {
    let doc = person();
    assert_eq!(Idiom(vec![field("name")]).compute(&doc), Value::Strand("Tobie".to_string()));
    assert_eq!(Idiom(vec![field("missing")]).compute(&doc), Value::Nothing);
    assert_eq!(Idiom(vec![]).compute(&doc), doc);
}

#[test]
fn pick_walks_arrays() {
    let doc = person();
    let tags = Value::Array(vec![Value::Strand("a".to_string()), Value::Strand("b".to_string())]);
    assert_eq!(Idiom(vec![field("tags"), Part::All]).compute(&doc), tags);
    assert_eq!(Idiom(vec![field("tags"), Part::Flatten]).compute(&doc), tags);
    assert_eq!(Idiom(vec![field("tags"), Part::First]).compute(&doc), Value::Strand("a".to_string()));
    assert_eq!(Idiom(vec![field("tags"), Part::Last]).compute(&doc), Value::Strand("b".to_string()));
    assert_eq!(Idiom(vec![field("tags"), Part::Index(1)]).compute(&doc), Value::Strand("b".to_string()));
    assert_eq!(Idiom(vec![field("tags"), Part::Index(2)]).compute(&doc), Value::Nothing);
    let years = Value::Array(vec![Value::Number(1999), Value::Number(2004)]);
    assert_eq!(Idiom(vec![field("bands"), field("year")]).compute(&doc), years);
    assert_eq!(Idiom(vec![field("bands"), Part::All, field("year")]).compute(&doc), years);
    assert_eq!(Idiom(vec![field("name"), Part::First]).compute(&doc), Value::Nothing);
    assert_eq!(Value::Array(vec![]).pick(&vec![Part::First], 0), Value::Nothing);
    assert_eq!(Value::Array(vec![]).pick(&vec![Part::Last], 0), Value::Nothing);
}

#[test]
fn flatten_is_seen_at_the_end_of_a_path() {
    assert!(Idiom(vec![field("tags"), Part::Flatten]).ends_with_flatten());
    assert!(!Idiom(vec![Part::Flatten, field("tags")]).ends_with_flatten());
    assert!(!Idiom(vec![]).ends_with_flatten());
}

#[test]
fn put_field_sets_and_adds() {
    let mut doc = Value::Object(vec![("a".to_string(), Value::Number(1))]);
    doc.put_field("a", Value::Number(2));
    doc.put_field("b", Value::Bool(true));
    assert_eq!(
        doc,
        Value::Object(vec![("a".to_string(), Value::Number(2)), ("b".to_string(), Value::Bool(true))])
    );
    let mut nothing = Value::Nothing;
    nothing.put_field("x", Value::Null);
    assert_eq!(nothing, Value::Object(vec![("x".to_string(), Value::Null)]));
    let mut null = Value::Null;
    null.put_field("x", Value::Number(0));
    assert_eq!(null, Value::Object(vec![("x".to_string(), Value::Number(0))]));
    let mut number = Value::Number(3);
    number.put_field("x", Value::Null);
    assert_eq!(number, Value::Number(3));
}

#[test]
fn equals_and_duplicate_agree_with_structure() {
    let doc = person();
    let copy = doc.duplicate();
    assert!(doc.equals(&copy));
    assert_eq!(doc, copy);
    assert_eq!(doc.clone(), doc);
    let mut other = person();
    other.put_field("name", Value::Strand("Jaime".to_string()));
    assert!(!doc.equals(&other));
    assert!(!Value::Nothing.equals(&Value::Null));
    assert!(!Value::Array(vec![]).equals(&Value::Array(vec![Value::Null])));
    let a = Thing { tb: "t".to_string(), id: Id::Number(1) };
    let b = Thing { tb: "t".to_string(), id: Id::String("1".to_string()) };
    assert!(a.equals(&a.duplicate()));
    assert!(!a.equals(&b));
    assert!(Value::Thing(a.duplicate()).equals(&Value::Thing(a)));
}

#[test]
fn all_none_or_null_looks_at_every_value() {
    assert!(Array(vec![]).is_all_none_or_null());
    assert!(Array(vec![Value::Nothing, Value::Null]).is_all_none_or_null());
    assert!(!Array(vec![Value::Nothing, Value::Bool(false)]).is_all_none_or_null());
    assert_eq!(Array(vec![Value::Null]).len(), 1);
    assert!(Array(vec![Value::Null]).equals(&Array(vec![Value::Null]).duplicate()));
}
