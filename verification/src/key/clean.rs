//! Tests of what the laws of the keys ask of names and values.
//!
//! A name ends at its zero byte, and the name of a field may not start with
//! the byte that ends a sequence: keys of names and values that keep to this
//! are the same only where they address the same. A caller tests a name or a
//! tuple here before it writes under its key.

use vstd::prelude::*;
use vstd::utf8::encode_utf8;
use crate::key::encode::SEQ_END;
use crate::key::laws::{clean, clean_field, clean_fields, clean_tuple, nul_free, thing_nul_free};
use crate::val::{
    Id, Thing, Value, ValueView, fields_view, lemma_array_view, lemma_object_view, values_view,
};

verus! {

/// Whether the name holds no zero byte.
pub fn is_nul_free(s: &str) -> (r: bool)
    ensures
        r == nul_free(s@),
{
    let bytes = s.as_bytes();
    let mut i: usize = 0;
    while i < bytes.len()
        invariant
            i <= bytes@.len(),
            bytes@ == encode_utf8(s@),
            forall|j: int| 0 <= j < i ==> bytes@[j] != 0u8,
        decreases bytes.len() - i,
    {
        if bytes[i] == 0u8 {
            return false;
        }
        i += 1;
    }
    true
}

/// Whether the name of a field holds no zero byte and does not start with
/// the byte that ends a sequence.
pub fn is_clean_field(name: &str) -> (r: bool)
    ensures
        r == clean_field(name@),
{
    let bytes = name.as_bytes();
    if bytes.len() > 0 && bytes[0] == SEQ_END {
        return false;
    }
    is_nul_free(name)
}

/// Whether the record id holds no zero byte in its names.
pub fn is_nul_free_thing(t: &Thing) -> (r: bool)
    ensures
        r == thing_nul_free(t@),
{
    if !is_nul_free(t.tb.as_str()) {
        return false;
    }
    match &t.id {
        Id::String(s) => is_nul_free(s.as_str()),
        Id::Number(_) => true,
    }
}

/// An array is clean where each of its values is.
proof fn lemma_clean_array(s: Seq<ValueView>)
    ensures
        clean(ValueView::Array(s)) == clean_tuple(s),
{
    assert(ValueView::Array(s)->Array_0 == s);
}

/// An object is clean where each of its fields is.
proof fn lemma_clean_object(o: Seq<(Seq<char>, ValueView)>)
    ensures
        clean(ValueView::Object(o)) == clean_fields(o),
{
    assert(ValueView::Object(o)->Object_0 == o);
}

/// Whether the value holds only names and texts that its key can hold.
pub fn is_clean(v: &Value) -> (r: bool)
    ensures
        r == clean(v@),
    decreases v,
{
    match v {
        Value::Strand(s) => is_nul_free(s.as_str()),
        Value::Array(a) => {
            proof {
                lemma_array_view(*a);
                lemma_clean_array(values_view(a@));
            }
            is_clean_tuple(a)
        },
        Value::Object(o) => {
            proof {
                lemma_object_view(*o);
                lemma_clean_object(fields_view(o@));
            }
            are_clean_fields(o)
        },
        Value::Thing(t) => is_nul_free_thing(t),
        _ => true,
    }
}

/// Whether every value of the tuple is clean.
pub fn is_clean_tuple(a: &Vec<Value>) -> (r: bool)
    ensures
        r == clean_tuple(values_view(a@)),
    decreases a,
{
    let mut i: usize = 0;
    while i < a.len()
        invariant
            i <= a.len(),
            forall|j: int| 0 <= j < i ==> clean(#[trigger] values_view(a@)[j]),
        decreases a.len() - i,
    {
        if !is_clean(&a[i]) {
            assert(!clean(values_view(a@)[i as int]));
            return false;
        }
        i += 1;
    }
    true
}

/// Whether every field of the object has a clean name and a clean value.
pub fn are_clean_fields(o: &Vec<(String, Value)>) -> (r: bool)
    ensures
        r == clean_fields(fields_view(o@)),
    decreases o,
{
    let mut i: usize = 0;
    while i < o.len()
        invariant
            i <= o.len(),
            forall|j: int|
                0 <= j < i ==> clean_field((#[trigger] fields_view(o@)[j]).0) && clean(
                    fields_view(o@)[j].1,
                ),
        decreases o.len() - i,
    {
        if !is_clean_field(o[i].0.as_str()) || !is_clean(&o[i].1) {
            assert(!(clean_field(fields_view(o@)[i as int].0) && clean(
                fields_view(o@)[i as int].1,
            )));
            return false;
        }
        i += 1;
    }
    true
}

} // verus!
