//! The order-preserving byte forms of the parts a storage key is made of.
//!
//! Unsigned integers are written big-endian. Signed integers are shifted so
//! that the smallest value becomes zero and then written big-endian. Strings
//! are written as their UTF-8 bytes followed by a zero byte. A variant of an
//! enumeration is written as its position, a 32-bit big-endian integer,
//! followed by its payload. A sequence is written as its elements followed by
//! the byte `0x01`. An optional part is written as the byte `0x00` when absent
//! and as `0x01` followed by the part when present.

use vstd::prelude::*;
use vstd::utf8::{encode_utf8, valid_utf8};
use crate::val::{
    Id, IdView, Thing, ThingView, Value, ValueView, fields_view, lemma_array_view,
    lemma_object_view, values_view,
};

verus! {

/// `/`, the first byte of every key.
pub const SLASH: u8 = 0x2f;

/// `*`, the byte before a namespace, a database, a table, a tuple or a record.
pub const STAR: u8 = 0x2a;

/// `+`, the byte before an index.
pub const PLUS: u8 = 0x2b;

/// `!`, the byte before the letters that name a category.
pub const BANG: u8 = 0x21;

/// `~`, the byte before the pointers of a graph edge.
pub const TILDE: u8 = 0x7e;

/// The byte that ends a sequence.
pub const SEQ_END: u8 = 0x01;

/// Two bytes, most significant first.
pub open spec fn u16_be(x: u16) -> Seq<u8> {
    seq![(x / 0x100) as u8, (x % 0x100) as u8]
}

/// Four bytes, most significant first.
pub open spec fn u32_be(x: u32) -> Seq<u8> {
    seq![
        (x / 0x100_0000) as u8,
        (x / 0x1_0000 % 0x100) as u8,
        (x / 0x100 % 0x100) as u8,
        (x % 0x100) as u8,
    ]
}

/// Eight bytes, most significant first.
pub open spec fn u64_be(x: u64) -> Seq<u8> {
    seq![
        (x / 0x100_0000_0000_0000) as u8,
        (x / 0x1_0000_0000_0000 % 0x100) as u8,
        (x / 0x100_0000_0000 % 0x100) as u8,
        (x / 0x1_0000_0000 % 0x100) as u8,
        (x / 0x100_0000 % 0x100) as u8,
        (x / 0x1_0000 % 0x100) as u8,
        (x / 0x100 % 0x100) as u8,
        (x % 0x100) as u8,
    ]
}

/// A signed 16-bit integer, shifted to start at zero.
pub open spec fn i16_key(x: i16) -> Seq<u8> {
    u16_be((x + 0x8000) as u16)
}

/// A signed 32-bit integer, shifted to start at zero.
pub open spec fn i32_key(x: i32) -> Seq<u8> {
    u32_be((x + 0x8000_0000) as u32)
}

/// A signed 64-bit integer, shifted to start at zero.
pub open spec fn i64_key(x: i64) -> Seq<u8> {
    u64_be((x + 0x8000_0000_0000_0000) as u64)
}

/// A 32-bit float, given by its IEEE 754 bit pattern: patterns with the sign
/// bit set are complemented, the others get the sign bit set.
pub open spec fn f32_key(bits: u32) -> Seq<u8> {
    if bits >= 0x8000_0000 {
        u32_be((0xffff_ffff - bits) as u32)
    } else {
        u32_be((bits + 0x8000_0000) as u32)
    }
}

/// A 64-bit float, given by its IEEE 754 bit pattern: patterns with the sign
/// bit set are complemented, the others get the sign bit set.
pub open spec fn f64_key(bits: u64) -> Seq<u8> {
    if bits >= 0x8000_0000_0000_0000 {
        u64_be((0xffff_ffff_ffff_ffff - bits) as u64)
    } else {
        u64_be((bits + 0x8000_0000_0000_0000) as u64)
    }
}

/// A string: its UTF-8 bytes, then a zero byte.
pub open spec fn str_key(s: Seq<char>) -> Seq<u8> {
    encode_utf8(s).push(0u8)
}

/// A record identifier: its variant, then its payload.
pub open spec fn id_key(id: IdView) -> Seq<u8> {
    match id {
        IdView::Number(n) => u32_be(0) + i64_key(n),
        IdView::String(s) => u32_be(1) + str_key(s),
    }
}

/// A record id: its table, then its identifier.
pub open spec fn thing_key(t: ThingView) -> Seq<u8> {
    str_key(t.tb) + id_key(t.id)
}

/// A value: its variant, then its payload.
pub open spec fn value_key(v: ValueView) -> Seq<u8>
    decreases v, 0nat,
{
    match v {
        ValueView::Nothing => u32_be(0),
        ValueView::Null => u32_be(1),
        ValueView::Bool(b) => u32_be(2).push(if b { 1u8 } else { 0u8 }),
        ValueView::Number(n) => u32_be(3) + i64_key(n),
        ValueView::Strand(s) => u32_be(4) + str_key(s),
        ValueView::Array(a) => u32_be(5) + values_key(a),
        ValueView::Object(o) => u32_be(6) + fields_key(o),
        ValueView::Thing(t) => u32_be(7) + thing_key(t),
    }
}

/// The elements of a tuple, one after the other.
pub open spec fn values_body(a: Seq<ValueView>) -> Seq<u8>
    decreases a, 1nat,
{
    if a.len() == 0 {
        Seq::empty()
    } else {
        values_body(a.drop_last()) + value_key(a.last())
    }
}

/// A tuple of values: its elements, then the end byte.
pub open spec fn values_key(a: Seq<ValueView>) -> Seq<u8>
    decreases a, 2nat,
{
    values_body(a).push(SEQ_END)
}

/// The fields of an object, each as its name and its value.
pub open spec fn fields_body(o: Seq<(Seq<char>, ValueView)>) -> Seq<u8>
    decreases o, 1nat,
{
    if o.len() == 0 {
        Seq::empty()
    } else {
        fields_body(o.drop_last()) + str_key(o.last().0) + value_key(o.last().1)
    }
}

/// An object: its fields, then the end byte.
pub open spec fn fields_key(o: Seq<(Seq<char>, ValueView)>) -> Seq<u8>
    decreases o, 2nat,
{
    fields_body(o).push(SEQ_END)
}

/// Appends two bytes, most significant first.
pub fn put_u16(buf: &mut Vec<u8>, x: u16)
    ensures
        final(buf)@ == old(buf)@ + u16_be(x),
{
    buf.push((x / 0x100) as u8);
    buf.push((x % 0x100) as u8);
    assert(buf@ =~= old(buf)@ + u16_be(x));
}

/// Appends four bytes, most significant first.
pub fn put_u32(buf: &mut Vec<u8>, x: u32)
    ensures
        final(buf)@ == old(buf)@ + u32_be(x),
{
    buf.push((x / 0x100_0000) as u8);
    buf.push((x / 0x1_0000 % 0x100) as u8);
    buf.push((x / 0x100 % 0x100) as u8);
    buf.push((x % 0x100) as u8);
    assert(buf@ =~= old(buf)@ + u32_be(x));
}

/// Appends eight bytes, most significant first.
pub fn put_u64(buf: &mut Vec<u8>, x: u64)
    ensures
        final(buf)@ == old(buf)@ + u64_be(x),
{
    buf.push((x / 0x100_0000_0000_0000) as u8);
    buf.push((x / 0x1_0000_0000_0000 % 0x100) as u8);
    buf.push((x / 0x100_0000_0000 % 0x100) as u8);
    buf.push((x / 0x1_0000_0000 % 0x100) as u8);
    buf.push((x / 0x100_0000 % 0x100) as u8);
    buf.push((x / 0x1_0000 % 0x100) as u8);
    buf.push((x / 0x100 % 0x100) as u8);
    buf.push((x % 0x100) as u8);
    assert(buf@ =~= old(buf)@ + u64_be(x));
}

/// Appends a signed 16-bit integer in its ordered form.
pub fn put_i16(buf: &mut Vec<u8>, x: i16)
    ensures
        final(buf)@ == old(buf)@ + i16_key(x),
{
    let shifted: i32 = x as i32 + 0x8000;
    put_u16(buf, shifted as u16);
}

/// Appends a signed 32-bit integer in its ordered form.
pub fn put_i32(buf: &mut Vec<u8>, x: i32)
    ensures
        final(buf)@ == old(buf)@ + i32_key(x),
{
    let shifted: i64 = x as i64 + 0x8000_0000;
    put_u32(buf, shifted as u32);
}

/// Appends a signed 64-bit integer in its ordered form.
pub fn put_i64(buf: &mut Vec<u8>, x: i64)
    ensures
        final(buf)@ == old(buf)@ + i64_key(x),
{
    let shifted: i128 = x as i128 + 0x8000_0000_0000_0000;
    put_u64(buf, shifted as u64);
}

/// Appends a 32-bit float, given by its bit pattern, in its ordered form.
pub fn put_f32(buf: &mut Vec<u8>, bits: u32)
    ensures
        final(buf)@ == old(buf)@ + f32_key(bits),
{
    if bits >= 0x8000_0000 {
        put_u32(buf, 0xffff_ffff - bits);
    } else {
        put_u32(buf, bits + 0x8000_0000);
    }
}

/// Appends a 64-bit float, given by its bit pattern, in its ordered form.
pub fn put_f64(buf: &mut Vec<u8>, bits: u64)
    ensures
        final(buf)@ == old(buf)@ + f64_key(bits),
{
    if bits >= 0x8000_0000_0000_0000 {
        put_u64(buf, 0xffff_ffff_ffff_ffff - bits);
    } else {
        put_u64(buf, bits + 0x8000_0000_0000_0000);
    }
}

/// Appends the UTF-8 bytes of a string, without an end byte.
pub fn put_raw(buf: &mut Vec<u8>, s: &str)
    ensures
        final(buf)@ == old(buf)@ + encode_utf8(s@),
{
    let bytes = s.as_bytes();
    let ghost start = buf@;
    let mut i: usize = 0;
    while i < bytes.len()
        invariant
            i <= bytes@.len(),
            bytes@ == encode_utf8(s@),
            buf@ == start + bytes@.subrange(0, i as int),
        decreases bytes.len() - i,
    {
        buf.push(bytes[i]);
        i += 1;
        assert(buf@ =~= start + bytes@.subrange(0, i as int));
    }
    assert(bytes@.subrange(0, i as int) =~= bytes@);
}

/// `String::from_utf8`: the text whose UTF-8 form the bytes are, or `None`
/// where the bytes are no UTF-8.
#[verifier::external_body]
pub(crate) fn text_of(bytes: Vec<u8>) -> (r: Option<String>)
    ensures
        match r {
            Some(s) => encode_utf8(s@) == bytes@,
            None => !valid_utf8(bytes@),
        },
{
    String::from_utf8(bytes).ok()
}

/// Appends a string and its end byte.
pub fn put_str(buf: &mut Vec<u8>, s: &str)
    ensures
        final(buf)@ == old(buf)@ + str_key(s@),
{
    put_raw(buf, s);
    buf.push(0u8);
    assert(buf@ =~= old(buf)@ + str_key(s@));
}

/// Appends a record identifier.
pub fn put_id(buf: &mut Vec<u8>, id: &Id)
    ensures
        final(buf)@ == old(buf)@ + id_key(id@),
{
    match id {
        Id::Number(n) => {
            put_u32(buf, 0);
            put_i64(buf, *n);
            assert(buf@ =~= old(buf)@ + id_key(id@));
        },
        Id::String(s) => {
            put_u32(buf, 1);
            put_str(buf, s.as_str());
            assert(buf@ =~= old(buf)@ + id_key(id@));
        },
    }
}

/// Appends a record id.
pub fn put_thing(buf: &mut Vec<u8>, t: &Thing)
    ensures
        final(buf)@ == old(buf)@ + thing_key(t@),
{
    put_str(buf, t.tb.as_str());
    put_id(buf, &t.id);
    assert(buf@ =~= old(buf)@ + thing_key(t@));
}

/// Appends a value.
pub fn put_value(buf: &mut Vec<u8>, v: &Value)
    ensures
        final(buf)@ == old(buf)@ + value_key(v@),
    decreases v,
{
    match v {
        Value::Nothing => {
            put_u32(buf, 0);
        },
        Value::Null => {
            put_u32(buf, 1);
        },
        Value::Bool(b) => {
            put_u32(buf, 2);
            buf.push(if *b { 1u8 } else { 0u8 });
        },
        Value::Number(n) => {
            put_u32(buf, 3);
            put_i64(buf, *n);
        },
        Value::Strand(s) => {
            put_u32(buf, 4);
            put_str(buf, s.as_str());
        },
        Value::Array(a) => {
            put_u32(buf, 5);
            put_values(buf, a);
            proof {
                lemma_array_view(*a);
            }
        },
        Value::Object(o) => {
            put_u32(buf, 6);
            put_fields(buf, o);
            proof {
                lemma_object_view(*o);
            }
        },
        Value::Thing(t) => {
            put_u32(buf, 7);
            put_thing(buf, t);
        },
    }
    assert(buf@ =~= old(buf)@ + value_key(v@));
}

/// Appends a tuple of values and its end byte.
pub fn put_values(buf: &mut Vec<u8>, a: &Vec<Value>)
    ensures
        final(buf)@ == old(buf)@ + values_key(values_view(a@)),
    decreases a,
{
    let ghost start = buf@;
    let ghost all = values_view(a@);
    let mut i: usize = 0;
    while i < a.len()
        invariant
            i <= a.len(),
            all == values_view(a@),
            buf@ == start + values_body(all.subrange(0, i as int)),
        decreases a.len() - i,
    {
        put_value(buf, &a[i]);
        proof {
            let next = all.subrange(0, i + 1);
            assert(next.drop_last() =~= all.subrange(0, i as int));
            assert(next.last() == a[i as int]@);
            assert(buf@ =~= start + values_body(next));
        }
        i += 1;
    }
    buf.push(SEQ_END);
    assert(all.subrange(0, i as int) =~= all);
    assert(buf@ =~= start + values_key(all));
}

/// Appends the fields of an object and the end byte.
pub fn put_fields(buf: &mut Vec<u8>, o: &Vec<(String, Value)>)
    ensures
        final(buf)@ == old(buf)@ + fields_key(fields_view(o@)),
    decreases o,
{
    let ghost start = buf@;
    let ghost all = fields_view(o@);
    let mut i: usize = 0;
    while i < o.len()
        invariant
            i <= o.len(),
            all == fields_view(o@),
            buf@ == start + fields_body(all.subrange(0, i as int)),
        decreases o.len() - i,
    {
        put_str(buf, o[i].0.as_str());
        put_value(buf, &o[i].1);
        proof {
            let next = all.subrange(0, i + 1);
            assert(next.drop_last() =~= all.subrange(0, i as int));
            assert(next.last() == (o[i as int].0@, o[i as int].1@));
            assert(buf@ =~= start + fields_body(next));
        }
        i += 1;
    }
    buf.push(SEQ_END);
    assert(all.subrange(0, i as int) =~= all);
    assert(buf@ =~= start + fields_key(all));
}

} // verus!
