//! What holds of the keys, whatever they address: two keys of one category
//! are the same only where they address the same.
//!
//! A name ends at its zero byte, so the laws ask of every name that it holds
//! no zero byte.

use vstd::prelude::*;
use vstd::utf8::{encode_utf8, encode_utf8_decode_utf8};
use crate::key::encode::{
    PLUS, SEQ_END, SLASH, STAR, TILDE, fields_body, fields_key, i64_key, id_key, str_key, thing_key,
    u32_be, u64_be, value_key, values_body, values_key,
};
use crate::key::index::entry_key;
use crate::key::graph::{Dir, graph_key};
use crate::key::{database_base, index_base, table_base};
use crate::val::{IdView, ThingView, ValueView};

verus! {

/// Whether the UTF-8 form of a name holds no zero byte.
pub open spec fn nul_free(s: Seq<char>) -> bool {
    forall|i: int| 0 <= i < encode_utf8(s).len() ==> #[trigger] encode_utf8(s)[i] != 0u8
}

/// Whether a record id holds no zero byte in its names.
pub open spec fn thing_nul_free(t: ThingView) -> bool {
    nul_free(t.tb) && (t.id matches IdView::String(s) ==> nul_free(s))
}

/// Two byte strings that start with parts of one length and are the same
/// have the same parts and the same rests.
#[verifier::spinoff_prover]
pub proof fn lemma_cancel_fixed(a: Seq<u8>, x: Seq<u8>, b: Seq<u8>, y: Seq<u8>)
    requires
        a.len() == b.len(),
        a + x == b + y,
    ensures
        a == b,
        x == y,
{
    let s = a + x;
    let t = b + y;
    assert(s.len() == t.len());
    assert forall|i: int| 0 <= i < a.len() implies a[i] == b[i] by {
        assert(s[i] == a[i]);
        assert(t[i] == b[i]);
    }
    assert(a =~= b);
    assert forall|i: int| 0 <= i < x.len() implies x[i] == y[i] by {
        assert(s[a.len() + i] == x[i]);
        assert(t[b.len() + i] == y[i]);
    }
    assert(x =~= y);
}

/// Two byte strings that start with a name and are the same start with the
/// same name and have the same rests.
#[verifier::spinoff_prover]
pub proof fn lemma_cancel_name(a: Seq<char>, x: Seq<u8>, b: Seq<char>, y: Seq<u8>)
    requires
        nul_free(a),
        nul_free(b),
        str_key(a) + x == str_key(b) + y,
    ensures
        a == b,
        x == y,
{
    let ea = encode_utf8(a);
    let eb = encode_utf8(b);
    let s = str_key(a) + x;
    let t = str_key(b) + y;
    if ea.len() < eb.len() {
        assert(s[ea.len() as int] == 0u8);
        assert(t[ea.len() as int] == eb[ea.len() as int]);
        assert(false);
    }
    if eb.len() < ea.len() {
        assert(t[eb.len() as int] == 0u8);
        assert(s[eb.len() as int] == ea[eb.len() as int]);
        assert(false);
    }
    lemma_cancel_fixed(str_key(a), x, str_key(b), y);
    assert(ea =~= str_key(a).drop_last());
    assert(eb =~= str_key(b).drop_last());
    encode_utf8_decode_utf8(a);
    encode_utf8_decode_utf8(b);
}

/// Two 32-bit numbers with the same bytes are the same.
#[verifier::spinoff_prover]
pub proof fn lemma_u32_be_injective(a: u32, b: u32)
    requires
        u32_be(a) == u32_be(b),
    ensures
        a == b,
{
    let x = u32_be(a);
    let y = u32_be(b);
    assert(x[0] == y[0] && x[1] == y[1] && x[2] == y[2] && x[3] == y[3]);
    let a0 = a / 0x100_0000;
    let a1 = a / 0x1_0000 % 0x100;
    let a2 = a / 0x100 % 0x100;
    let a3 = a % 0x100;
    let b0 = b / 0x100_0000;
    let b1 = b / 0x1_0000 % 0x100;
    let b2 = b / 0x100 % 0x100;
    let b3 = b % 0x100;
    assert(a0 == b0 && a1 == b1 && a2 == b2 && a3 == b3);
    assert(a == b) by (bit_vector)
        requires
            a / 0x100_0000 == b / 0x100_0000,
            a / 0x1_0000 % 0x100 == b / 0x1_0000 % 0x100,
            a / 0x100 % 0x100 == b / 0x100 % 0x100,
            a % 0x100 == b % 0x100,
    ;
}

/// Two 64-bit numbers with the same bytes are the same.
#[verifier::spinoff_prover]
pub proof fn lemma_u64_be_injective(a: u64, b: u64)
    requires
        u64_be(a) == u64_be(b),
    ensures
        a == b,
{
    let x = u64_be(a);
    let y = u64_be(b);
    assert(x[0] == y[0] && x[1] == y[1] && x[2] == y[2] && x[3] == y[3]);
    assert(x[4] == y[4] && x[5] == y[5] && x[6] == y[6] && x[7] == y[7]);
    assert(a / 0x100_0000_0000_0000 == b / 0x100_0000_0000_0000);
    assert(a / 0x1_0000_0000_0000 % 0x100 == b / 0x1_0000_0000_0000 % 0x100);
    assert(a / 0x100_0000_0000 % 0x100 == b / 0x100_0000_0000 % 0x100);
    assert(a / 0x1_0000_0000 % 0x100 == b / 0x1_0000_0000 % 0x100);
    assert(a / 0x100_0000 % 0x100 == b / 0x100_0000 % 0x100);
    assert(a / 0x1_0000 % 0x100 == b / 0x1_0000 % 0x100);
    assert(a / 0x100 % 0x100 == b / 0x100 % 0x100);
    assert(a % 0x100 == b % 0x100);
    assert(a == b) by (bit_vector)
        requires
            a / 0x100_0000_0000_0000 == b / 0x100_0000_0000_0000,
            a / 0x1_0000_0000_0000 % 0x100 == b / 0x1_0000_0000_0000 % 0x100,
            a / 0x100_0000_0000 % 0x100 == b / 0x100_0000_0000 % 0x100,
            a / 0x1_0000_0000 % 0x100 == b / 0x1_0000_0000 % 0x100,
            a / 0x100_0000 % 0x100 == b / 0x100_0000 % 0x100,
            a / 0x1_0000 % 0x100 == b / 0x1_0000 % 0x100,
            a / 0x100 % 0x100 == b / 0x100 % 0x100,
            a % 0x100 == b % 0x100,
    ;
}

/// Two byte strings that start with an identifier and are the same start
/// with the same identifier and have the same rests.
#[verifier::spinoff_prover]
pub proof fn lemma_cancel_id(a: IdView, x: Seq<u8>, b: IdView, y: Seq<u8>)
    requires
        a matches IdView::String(s) ==> nul_free(s),
        b matches IdView::String(s) ==> nul_free(s),
        id_key(a) + x == id_key(b) + y,
    ensures
        a == b,
        x == y,
{
    let s = id_key(a) + x;
    let t = id_key(b) + y;
    let ta: u32 = if a is Number { 0 } else { 1 };
    let tb: u32 = if b is Number { 0 } else { 1 };
    let ra = match a {
        IdView::Number(n) => i64_key(n),
        IdView::String(v) => str_key(v),
    };
    let rb = match b {
        IdView::Number(n) => i64_key(n),
        IdView::String(v) => str_key(v),
    };
    assert(s =~= u32_be(ta) + (ra + x));
    assert(t =~= u32_be(tb) + (rb + y));
    lemma_cancel_fixed(u32_be(ta), ra + x, u32_be(tb), rb + y);
    lemma_u32_be_injective(ta, tb);
    match (a, b) {
        (IdView::Number(n), IdView::Number(m)) => {
            lemma_cancel_fixed(i64_key(n), x, i64_key(m), y);
            lemma_u64_be_injective(
                (n + 0x8000_0000_0000_0000) as u64,
                (m + 0x8000_0000_0000_0000) as u64,
            );
        },
        (IdView::String(v), IdView::String(w)) => {
            lemma_cancel_name(v, x, w, y);
        },
        _ => {},
    }
}

/// Two byte strings that start with the table and the identifier of a record,
/// with the byte `mark` between them, and are the same start with the same
/// record and have the same rests.
#[verifier::spinoff_prover]
proof fn lemma_cancel_record(a: ThingView, x: Seq<u8>, b: ThingView, y: Seq<u8>, mark: u8)
    requires
        thing_nul_free(a),
        thing_nul_free(b),
        str_key(a.tb) + seq![mark] + id_key(a.id) + x == str_key(b.tb) + seq![mark] + id_key(b.id)
            + y,
    ensures
        a == b,
        x == y,
{
    let s = str_key(a.tb) + seq![mark] + id_key(a.id) + x;
    let t = str_key(b.tb) + seq![mark] + id_key(b.id) + y;
    assert(s =~= str_key(a.tb) + (seq![mark] + (id_key(a.id) + x)));
    assert(t =~= str_key(b.tb) + (seq![mark] + (id_key(b.id) + y)));
    lemma_cancel_name(a.tb, seq![mark] + (id_key(a.id) + x), b.tb, seq![mark] + (id_key(b.id) + y));
    lemma_cancel_fixed(seq![mark], id_key(a.id) + x, seq![mark], id_key(b.id) + y);
    lemma_cancel_id(a.id, x, b.id, y);
}

/// The part of the key of a pointer behind the base of its database.
spec fn pointer_tail(a: ThingView, d: Dir, b: ThingView) -> Seq<u8> {
    str_key(a.tb) + seq![TILDE] + id_key(a.id) + (u32_be(d.variant()) + (str_key(b.tb) + id_key(
        b.id,
    )))
}

/// The key of a pointer is the base of its database, `*`, and the rest.
#[verifier::spinoff_prover]
proof fn lemma_graph_key_parts(ns: Seq<char>, db: Seq<char>, a: ThingView, d: Dir, b: ThingView)
    ensures
        graph_key(ns, db, a, d, b) == database_base(ns, db) + seq![STAR] + pointer_tail(a, d, b),
{
    assert(graph_key(ns, db, a, d, b) =~= database_base(ns, db) + seq![STAR] + pointer_tail(
        a,
        d,
        b,
    ));
}

/// Two records with the same keys are the same.
#[verifier::spinoff_prover]
proof fn lemma_thing_key_injective(b: ThingView, b2: ThingView)
    requires
        thing_nul_free(b),
        thing_nul_free(b2),
        str_key(b.tb) + id_key(b.id) == str_key(b2.tb) + id_key(b2.id),
    ensures
        b == b2,
{
    let e = Seq::<u8>::empty();
    assert(str_key(b.tb) + id_key(b.id) =~= str_key(b.tb) + (id_key(b.id) + e));
    assert(str_key(b2.tb) + id_key(b2.id) =~= str_key(b2.tb) + (id_key(b2.id) + e));
    lemma_cancel_name(b.tb, id_key(b.id) + e, b2.tb, id_key(b2.id) + e);
    lemma_cancel_id(b.id, e, b2.id, e);
}

/// The keys of two pointers of one database are the same only where the
/// pointers go from the same record, in the same direction, to the same
/// record.
#[verifier::spinoff_prover]
pub proof fn law_graph_key_injective(
    ns: Seq<char>,
    db: Seq<char>,
    a: ThingView,
    d: Dir,
    b: ThingView,
    a2: ThingView,
    d2: Dir,
    b2: ThingView,
)
    requires
        thing_nul_free(a),
        thing_nul_free(b),
        thing_nul_free(a2),
        thing_nul_free(b2),
        graph_key(ns, db, a, d, b) == graph_key(ns, db, a2, d2, b2),
    ensures
        a == a2,
        d == d2,
        b == b2,
{
    let p = database_base(ns, db) + seq![STAR];
    let rest = u32_be(d.variant()) + (str_key(b.tb) + id_key(b.id));
    let rest2 = u32_be(d2.variant()) + (str_key(b2.tb) + id_key(b2.id));
    lemma_graph_key_parts(ns, db, a, d, b);
    lemma_graph_key_parts(ns, db, a2, d2, b2);
    lemma_cancel_fixed(p, pointer_tail(a, d, b), p, pointer_tail(a2, d2, b2));
    lemma_cancel_record(a, rest, a2, rest2, TILDE);
    lemma_cancel_fixed(
        u32_be(d.variant()),
        str_key(b.tb) + id_key(b.id),
        u32_be(d2.variant()),
        str_key(b2.tb) + id_key(b2.id),
    );
    lemma_u32_be_injective(d.variant(), d2.variant());
    lemma_thing_key_injective(b, b2);
}

/// The elements of a tuple from place `from` on, one after the other.
pub open spec fn values_tail(a: Seq<ValueView>, from: int) -> Seq<u8>
    decreases a.len() - from,
{
    if from < 0 || from >= a.len() {
        Seq::empty()
    } else {
        value_key(a[from]) + values_tail(a, from + 1)
    }
}

/// The elements of a tuple are those before a place and those from it on.
#[verifier::spinoff_prover]
pub proof fn lemma_values_split(a: Seq<ValueView>, p: int)
    requires
        0 <= p <= a.len(),
    ensures
        values_body(a) == values_body(a.subrange(0, p)) + values_tail(a, p),
    decreases a.len() - p,
{
    if p == a.len() {
        assert(a.subrange(0, p) =~= a);
        assert(values_body(a) + Seq::<u8>::empty() =~= values_body(a));
    } else {
        lemma_values_split(a, p + 1);
        let q = a.subrange(0, p + 1);
        assert(q.drop_last() =~= a.subrange(0, p));
        assert(q.last() == a[p]);
        assert(values_body(q) == values_body(a.subrange(0, p)) + value_key(a[p]));
        assert(values_body(a) =~= values_body(a.subrange(0, p)) + values_tail(a, p));
    }
}

/// The fields of an object from place `from` on, one after the other.
pub open spec fn fields_tail(o: Seq<(Seq<char>, ValueView)>, from: int) -> Seq<u8>
    decreases o.len() - from,
{
    if from < 0 || from >= o.len() {
        Seq::empty()
    } else {
        str_key(o[from].0) + value_key(o[from].1) + fields_tail(o, from + 1)
    }
}

/// The fields of an object are those before a place and those from it on.
#[verifier::spinoff_prover]
pub proof fn lemma_fields_split(o: Seq<(Seq<char>, ValueView)>, p: int)
    requires
        0 <= p <= o.len(),
    ensures
        fields_body(o) == fields_body(o.subrange(0, p)) + fields_tail(o, p),
    decreases o.len() - p,
{
    if p == o.len() {
        assert(o.subrange(0, p) =~= o);
        assert(fields_body(o) + Seq::<u8>::empty() =~= fields_body(o));
    } else {
        lemma_fields_split(o, p + 1);
        let q = o.subrange(0, p + 1);
        assert(q.drop_last() =~= o.subrange(0, p));
        assert(q.last() == o[p]);
        assert(fields_body(q) == fields_body(o.subrange(0, p)) + str_key(o[p].0) + value_key(
            o[p].1,
        ));
        assert(fields_body(o) =~= fields_body(o.subrange(0, p)) + fields_tail(o, p));
    }
}

/// Whether the name of a field can be told from the end of an object: it
/// holds no zero byte and does not start with the byte that ends a sequence.
pub open spec fn clean_field(name: Seq<char>) -> bool {
    nul_free(name) && (encode_utf8(name).len() > 0 ==> encode_utf8(name)[0] != SEQ_END)
}

/// Whether a value holds only names and texts that its key can hold: none
/// has a zero byte, and no name of a field starts with the byte that ends a
/// sequence.
pub open spec fn clean(v: ValueView) -> bool
    decreases v,
{
    match v {
        ValueView::Strand(s) => nul_free(s),
        ValueView::Array(a) => forall|i: int| 0 <= i < a.len() ==> clean(#[trigger] a[i]),
        ValueView::Object(o) => forall|i: int|
            0 <= i < o.len() ==> clean_field((#[trigger] o[i]).0) && clean(o[i].1),
        ValueView::Thing(t) => thing_nul_free(t),
        _ => true,
    }
}

/// Whether every value of a tuple is clean.
pub open spec fn clean_tuple(a: Seq<ValueView>) -> bool {
    forall|i: int| 0 <= i < a.len() ==> clean(#[trigger] a[i])
}

/// The payload of the key of a value: the key without the variant.
pub open spec fn payload(v: ValueView) -> Seq<u8> {
    match v {
        ValueView::Nothing => Seq::empty(),
        ValueView::Null => Seq::empty(),
        ValueView::Bool(b) => seq![if b { 1u8 } else { 0u8 }],
        ValueView::Number(n) => i64_key(n),
        ValueView::Strand(s) => str_key(s),
        ValueView::Array(a) => values_key(a),
        ValueView::Object(o) => fields_key(o),
        ValueView::Thing(t) => thing_key(t),
    }
}

/// The place of the variant of a value among the variants.
pub open spec fn variant_of(v: ValueView) -> u32 {
    match v {
        ValueView::Nothing => 0,
        ValueView::Null => 1,
        ValueView::Bool(_) => 2,
        ValueView::Number(_) => 3,
        ValueView::Strand(_) => 4,
        ValueView::Array(_) => 5,
        ValueView::Object(_) => 6,
        ValueView::Thing(_) => 7,
    }
}

/// The key of a value is its variant and its payload, and starts with a zero
/// byte.
#[verifier::spinoff_prover]
pub proof fn lemma_value_key_parts(v: ValueView)
    ensures
        value_key(v) == u32_be(variant_of(v)) + payload(v),
        value_key(v).len() >= 4,
        value_key(v)[0] == 0u8,
{
    assert(value_key(v) =~= u32_be(variant_of(v)) + payload(v));
}

/// Whether every field of an object has a clean name and a clean value.
pub open spec fn clean_fields(o: Seq<(Seq<char>, ValueView)>) -> bool {
    forall|i: int| 0 <= i < o.len() ==> clean_field((#[trigger] o[i]).0) && clean(o[i].1)
}

/// Two byte strings that start with the payloads of two clean values of one
/// variant, which is neither array nor object, and are the same start with
/// the same value and have the same rests.
#[verifier::spinoff_prover]
proof fn lemma_cancel_flat(a: ValueView, x: Seq<u8>, b: ValueView, y: Seq<u8>)
    requires
        clean(a),
        clean(b),
        variant_of(a) == variant_of(b),
        !(a is Array) && !(a is Object),
        payload(a) + x == payload(b) + y,
    ensures
        a == b,
        x == y,
{
    let pa = payload(a);
    let pb = payload(b);
    match a {
        ValueView::Nothing => {
            assert(pa + x =~= x);
            assert(pb + y =~= y);
        },
        ValueView::Null => {
            assert(pa + x =~= x);
            assert(pb + y =~= y);
        },
        ValueView::Bool(p) => {
            lemma_cancel_fixed(pa, x, pb, y);
            assert(pa[0] == pb[0]);
        },
        ValueView::Number(n) => {
            let m = b->Number_0;
            lemma_cancel_fixed(pa, x, pb, y);
            lemma_u64_be_injective(
                (n + 0x8000_0000_0000_0000) as u64,
                (m + 0x8000_0000_0000_0000) as u64,
            );
        },
        ValueView::Strand(s) => {
            lemma_cancel_name(s, x, b->Strand_0, y);
        },
        ValueView::Thing(s) => {
            let t = b->Thing_0;
            assert(pa + x =~= str_key(s.tb) + (id_key(s.id) + x));
            assert(pb + y =~= str_key(t.tb) + (id_key(t.id) + y));
            lemma_cancel_name(s.tb, id_key(s.id) + x, t.tb, id_key(t.id) + y);
            lemma_cancel_id(s.id, x, t.id, y);
        },
        _ => {},
    }
}

/// The key of a tuple is the keys of its values from the first on, and the
/// end of a sequence.
#[verifier::spinoff_prover]
proof fn lemma_values_key_tail(s: Seq<ValueView>, x: Seq<u8>)
    ensures
        values_key(s) + x == values_tail(s, 0) + seq![SEQ_END] + x,
{
    lemma_values_split(s, 0);
    assert(s.subrange(0, 0) =~= Seq::<ValueView>::empty());
    assert(values_body(s) =~= values_tail(s, 0));
    assert(values_key(s) + x =~= values_tail(s, 0) + seq![SEQ_END] + x);
}

/// The key of the fields of an object is the keys of its fields from the
/// first on, and the end of a sequence.
#[verifier::spinoff_prover]
proof fn lemma_fields_key_tail(s: Seq<(Seq<char>, ValueView)>, x: Seq<u8>)
    ensures
        fields_key(s) + x == fields_tail(s, 0) + seq![SEQ_END] + x,
{
    lemma_fields_split(s, 0);
    assert(s.subrange(0, 0) =~= Seq::<(Seq<char>, ValueView)>::empty());
    assert(fields_body(s) =~= fields_tail(s, 0));
    assert(fields_key(s) + x =~= fields_tail(s, 0) + seq![SEQ_END] + x);
}

/// Two byte strings that start with the key of a clean value and are the
/// same start with the same value and have the same rests.
#[verifier::spinoff_prover]
pub proof fn lemma_cancel_value(a: ValueView, x: Seq<u8>, b: ValueView, y: Seq<u8>)
    requires
        clean(a),
        clean(b),
        value_key(a) + x == value_key(b) + y,
    ensures
        a == b,
        x == y,
    decreases a, 0nat,
{
    lemma_value_key_parts(a);
    lemma_value_key_parts(b);
    let pa = payload(a);
    let pb = payload(b);
    assert(value_key(a) + x =~= u32_be(variant_of(a)) + (pa + x));
    assert(value_key(b) + y =~= u32_be(variant_of(b)) + (pb + y));
    lemma_cancel_fixed(u32_be(variant_of(a)), pa + x, u32_be(variant_of(b)), pb + y);
    lemma_u32_be_injective(variant_of(a), variant_of(b));
    match a {
        ValueView::Array(s) => {
            let t = b->Array_0;
            assert(clean_tuple(s));
            assert(clean_tuple(t));
            lemma_values_key_tail(s, x);
            lemma_values_key_tail(t, y);
            lemma_cancel_values(s, 0, x, t, 0, y);
            assert(s =~= s.subrange(0, s.len() as int));
            assert(t =~= t.subrange(0, t.len() as int));
        },
        ValueView::Object(s) => {
            let t = b->Object_0;
            assert(clean_fields(s));
            assert(clean_fields(t));
            lemma_fields_key_tail(s, x);
            lemma_fields_key_tail(t, y);
            lemma_cancel_fields(s, 0, x, t, 0, y);
            assert(s =~= s.subrange(0, s.len() as int));
            assert(t =~= t.subrange(0, t.len() as int));
        },
        _ => {
            lemma_cancel_flat(a, x, b, y);
        },
    }
}

/// Two byte strings that start with the keys of the clean values of two
/// tuples, from some places on, and the end of a sequence, and are the same,
/// start with the same values and have the same rests.
#[verifier::spinoff_prover]
pub proof fn lemma_cancel_values(
    s: Seq<ValueView>,
    i: int,
    x: Seq<u8>,
    t: Seq<ValueView>,
    j: int,
    y: Seq<u8>,
)
    requires
        0 <= i <= s.len(),
        0 <= j <= t.len(),
        clean_tuple(s),
        clean_tuple(t),
        values_tail(s, i) + seq![SEQ_END] + x == values_tail(t, j) + seq![SEQ_END] + y,
    ensures
        s.subrange(i, s.len() as int) == t.subrange(j, t.len() as int),
        x == y,
    decreases s, s.len() - i,
{
    let l = values_tail(s, i) + seq![SEQ_END] + x;
    let r = values_tail(t, j) + seq![SEQ_END] + y;
    if i == s.len() {
        assert(l =~= seq![SEQ_END] + x);
        if j == t.len() {
            assert(r =~= seq![SEQ_END] + y);
            lemma_cancel_fixed(seq![SEQ_END], x, seq![SEQ_END], y);
            assert(s.subrange(i, s.len() as int) =~= t.subrange(j, t.len() as int));
        } else {
            lemma_value_key_parts(t[j]);
            assert(r =~= value_key(t[j]) + (values_tail(t, j + 1) + seq![SEQ_END] + y));
            assert(l[0] == SEQ_END);
            assert(r[0] == value_key(t[j])[0]);
            assert(false);
        }
    } else {
        lemma_value_key_parts(s[i]);
        assert(l =~= value_key(s[i]) + (values_tail(s, i + 1) + seq![SEQ_END] + x));
        if j == t.len() {
            assert(r =~= seq![SEQ_END] + y);
            assert(r[0] == SEQ_END);
            assert(l[0] == value_key(s[i])[0]);
            assert(false);
        } else {
            assert(r =~= value_key(t[j]) + (values_tail(t, j + 1) + seq![SEQ_END] + y));
            lemma_cancel_value(
                s[i],
                values_tail(s, i + 1) + seq![SEQ_END] + x,
                t[j],
                values_tail(t, j + 1) + seq![SEQ_END] + y,
            );
            lemma_cancel_values(s, i + 1, x, t, j + 1, y);
            assert(s.subrange(i, s.len() as int) =~= seq![s[i]] + s.subrange(
                i + 1,
                s.len() as int,
            ));
            assert(t.subrange(j, t.len() as int) =~= seq![t[j]] + t.subrange(
                j + 1,
                t.len() as int,
            ));
        }
    }
}

/// Two byte strings that start with the keys of the clean fields of two
/// objects, from some places on, and the end of a sequence, and are the same,
/// start with the same fields and have the same rests.
#[verifier::spinoff_prover]
pub proof fn lemma_cancel_fields(
    s: Seq<(Seq<char>, ValueView)>,
    i: int,
    x: Seq<u8>,
    t: Seq<(Seq<char>, ValueView)>,
    j: int,
    y: Seq<u8>,
)
    requires
        0 <= i <= s.len(),
        0 <= j <= t.len(),
        clean_fields(s),
        clean_fields(t),
        fields_tail(s, i) + seq![SEQ_END] + x == fields_tail(t, j) + seq![SEQ_END] + y,
    ensures
        s.subrange(i, s.len() as int) == t.subrange(j, t.len() as int),
        x == y,
    decreases s, s.len() - i,
{
    let l = fields_tail(s, i) + seq![SEQ_END] + x;
    let r = fields_tail(t, j) + seq![SEQ_END] + y;
    if i == s.len() {
        assert(l =~= seq![SEQ_END] + x);
        if j == t.len() {
            assert(r =~= seq![SEQ_END] + y);
            lemma_cancel_fixed(seq![SEQ_END], x, seq![SEQ_END], y);
            assert(s.subrange(i, s.len() as int) =~= t.subrange(j, t.len() as int));
        } else {
            assert(clean_field(t[j].0));
            lemma_field_start(t[j].0);
            assert(r =~= str_key(t[j].0) + (value_key(t[j].1) + fields_tail(t, j + 1) + seq![
                SEQ_END,
            ] + y));
            assert(l[0] == SEQ_END);
            assert(r[0] == str_key(t[j].0)[0]);
            assert(false);
        }
    } else {
        assert(clean_field(s[i].0) && clean(s[i].1));
        lemma_field_start(s[i].0);
        let ls = value_key(s[i].1) + (fields_tail(s, i + 1) + seq![SEQ_END] + x);
        assert(l =~= str_key(s[i].0) + ls);
        if j == t.len() {
            assert(r =~= seq![SEQ_END] + y);
            assert(r[0] == SEQ_END);
            assert(l[0] == str_key(s[i].0)[0]);
            assert(false);
        } else {
            assert(clean_field(t[j].0) && clean(t[j].1));
            let rs = value_key(t[j].1) + (fields_tail(t, j + 1) + seq![SEQ_END] + y);
            assert(r =~= str_key(t[j].0) + rs);
            lemma_cancel_name(s[i].0, ls, t[j].0, rs);
            lemma_cancel_value(
                s[i].1,
                fields_tail(s, i + 1) + seq![SEQ_END] + x,
                t[j].1,
                fields_tail(t, j + 1) + seq![SEQ_END] + y,
            );
            lemma_cancel_fields(s, i + 1, x, t, j + 1, y);
            assert(s.subrange(i, s.len() as int) =~= seq![s[i]] + s.subrange(
                i + 1,
                s.len() as int,
            ));
            assert(t.subrange(j, t.len() as int) =~= seq![t[j]] + t.subrange(
                j + 1,
                t.len() as int,
            ));
        }
    }
}

/// The key of the name of a clean field does not start with the byte that
/// ends a sequence.
#[verifier::spinoff_prover]
proof fn lemma_field_start(name: Seq<char>)
    requires
        clean_field(name),
    ensures
        str_key(name)[0] != SEQ_END,
{
    let e = encode_utf8(name);
    if e.len() > 0 {
        assert(str_key(name)[0] == e[0]);
    } else {
        assert(str_key(name)[0] == 0u8);
    }
}

/// Two byte strings that start with the bases of two tables and are the same
/// start with the base of the same table and have the same rests.
#[verifier::spinoff_prover]
proof fn lemma_cancel_table_base(
    ns: Seq<char>,
    db: Seq<char>,
    tb: Seq<char>,
    x: Seq<u8>,
    ns2: Seq<char>,
    db2: Seq<char>,
    tb2: Seq<char>,
    y: Seq<u8>,
)
    requires
        nul_free(ns) && nul_free(db) && nul_free(tb),
        nul_free(ns2) && nul_free(db2) && nul_free(tb2),
        table_base(ns, db, tb) + x == table_base(ns2, db2, tb2) + y,
    ensures
        ns == ns2,
        db == db2,
        tb == tb2,
        x == y,
{
    let d = str_key(tb) + x;
    let d2 = str_key(tb2) + y;
    let c = str_key(db) + (seq![STAR] + d);
    let c2 = str_key(db2) + (seq![STAR] + d2);
    let b = str_key(ns) + (seq![STAR] + c);
    let b2 = str_key(ns2) + (seq![STAR] + c2);
    assert(table_base(ns, db, tb) + x =~= seq![SLASH, STAR] + b);
    assert(table_base(ns2, db2, tb2) + y =~= seq![SLASH, STAR] + b2);
    lemma_cancel_fixed(seq![SLASH, STAR], b, seq![SLASH, STAR], b2);
    lemma_cancel_name(ns, seq![STAR] + c, ns2, seq![STAR] + c2);
    lemma_cancel_fixed(seq![STAR], c, seq![STAR], c2);
    lemma_cancel_name(db, seq![STAR] + d, db2, seq![STAR] + d2);
    lemma_cancel_fixed(seq![STAR], d, seq![STAR], d2);
    lemma_cancel_name(tb, x, tb2, y);
}

/// Two byte strings that start with the bases of two indexes and are the
/// same start with the base of the same index and have the same rests.
#[verifier::spinoff_prover]
proof fn lemma_cancel_index_base(
    ns: Seq<char>,
    db: Seq<char>,
    tb: Seq<char>,
    ix: Seq<char>,
    x: Seq<u8>,
    ns2: Seq<char>,
    db2: Seq<char>,
    tb2: Seq<char>,
    ix2: Seq<char>,
    y: Seq<u8>,
)
    requires
        nul_free(ns) && nul_free(db) && nul_free(tb) && nul_free(ix),
        nul_free(ns2) && nul_free(db2) && nul_free(tb2) && nul_free(ix2),
        index_base(ns, db, tb, ix) + x == index_base(ns2, db2, tb2, ix2) + y,
    ensures
        ns == ns2,
        db == db2,
        tb == tb2,
        ix == ix2,
        x == y,
{
    let e = str_key(ix) + x;
    let e2 = str_key(ix2) + y;
    assert(index_base(ns, db, tb, ix) + x =~= table_base(ns, db, tb) + (seq![PLUS] + e));
    assert(index_base(ns2, db2, tb2, ix2) + y =~= table_base(ns2, db2, tb2) + (seq![PLUS] + e2));
    lemma_cancel_table_base(ns, db, tb, seq![PLUS] + e, ns2, db2, tb2, seq![PLUS] + e2);
    lemma_cancel_fixed(seq![PLUS], e, seq![PLUS], e2);
    lemma_cancel_name(ix, x, ix2, y);
}

/// The end of the key of an entry: `0x00` where the entry belongs to no
/// record, `0x01` and the identifier of the record otherwise.
pub open spec fn entry_end(id: Option<IdView>) -> Seq<u8> {
    match id {
        None => seq![0x00u8],
        Some(id) => seq![0x01u8] + id_key(id),
    }
}

/// Two ends of entry keys are the same only where they hold the same record,
/// or both none.
#[verifier::spinoff_prover]
proof fn lemma_entry_end_injective(id: Option<IdView>, id2: Option<IdView>)
    requires
        id matches Some(IdView::String(s)) ==> nul_free(s),
        id2 matches Some(IdView::String(s)) ==> nul_free(s),
        entry_end(id) == entry_end(id2),
    ensures
        id == id2,
{
    match (id, id2) {
        (Some(a), Some(b)) => {
            let z = Seq::<u8>::empty();
            assert(entry_end(id) =~= seq![0x01u8] + (id_key(a) + z));
            assert(entry_end(id2) =~= seq![0x01u8] + (id_key(b) + z));
            lemma_cancel_fixed(seq![0x01u8], id_key(a) + z, seq![0x01u8], id_key(b) + z);
            lemma_cancel_id(a, z, b, z);
        },
        (Some(a), None) => {
            assert(entry_end(id)[0] == 0x01u8);
            assert(entry_end(id2)[0] == 0x00u8);
        },
        (None, Some(b)) => {
            assert(entry_end(id)[0] == 0x00u8);
            assert(entry_end(id2)[0] == 0x01u8);
        },
        (None, None) => {},
    }
}

/// The keys of two entries are the same only where the entries belong to the
/// same index of the same table, hold the same tuple and belong to the same
/// record, or both to none.
#[verifier::spinoff_prover]
pub proof fn law_entry_key_injective(
    ns: Seq<char>,
    db: Seq<char>,
    tb: Seq<char>,
    ix: Seq<char>,
    fd: Seq<ValueView>,
    id: Option<IdView>,
    ns2: Seq<char>,
    db2: Seq<char>,
    tb2: Seq<char>,
    ix2: Seq<char>,
    fd2: Seq<ValueView>,
    id2: Option<IdView>,
)
    requires
        nul_free(ns) && nul_free(db) && nul_free(tb) && nul_free(ix),
        nul_free(ns2) && nul_free(db2) && nul_free(tb2) && nul_free(ix2),
        clean_tuple(fd),
        clean_tuple(fd2),
        id matches Some(IdView::String(s)) ==> nul_free(s),
        id2 matches Some(IdView::String(s)) ==> nul_free(s),
        entry_key(ns, db, tb, ix, fd, id) == entry_key(ns2, db2, tb2, ix2, fd2, id2),
    ensures
        ns == ns2,
        db == db2,
        tb == tb2,
        ix == ix2,
        fd == fd2,
        id == id2,
{
    let end = entry_end(id);
    let end2 = entry_end(id2);
    let f = values_key(fd) + end;
    let f2 = values_key(fd2) + end2;
    assert(entry_key(ns, db, tb, ix, fd, id) =~= index_base(ns, db, tb, ix) + (seq![STAR] + f));
    assert(entry_key(ns2, db2, tb2, ix2, fd2, id2) =~= index_base(ns2, db2, tb2, ix2) + (seq![
        STAR,
    ] + f2));
    lemma_cancel_index_base(ns, db, tb, ix, seq![STAR] + f, ns2, db2, tb2, ix2, seq![STAR] + f2);
    lemma_cancel_fixed(seq![STAR], f, seq![STAR], f2);
    lemma_values_key_tail(fd, end);
    lemma_values_key_tail(fd2, end2);
    lemma_cancel_values(fd, 0, end, fd2, 0, end2);
    assert(fd =~= fd.subrange(0, fd.len() as int));
    assert(fd2 =~= fd2.subrange(0, fd2.len() as int));
    lemma_entry_end_injective(id, id2);
}

/// In an index that is not unique the entries of two records never lie
/// under one key, whatever their tuples are.
#[verifier::spinoff_prover]
pub proof fn law_entries_of_records_apart(
    ns: Seq<char>,
    db: Seq<char>,
    tb: Seq<char>,
    ix: Seq<char>,
    fd: Seq<ValueView>,
    id: IdView,
    fd2: Seq<ValueView>,
    id2: IdView,
)
    requires
        nul_free(ns) && nul_free(db) && nul_free(tb) && nul_free(ix),
        clean_tuple(fd),
        clean_tuple(fd2),
        id matches IdView::String(s) ==> nul_free(s),
        id2 matches IdView::String(s) ==> nul_free(s),
        id != id2,
    ensures
        entry_key(ns, db, tb, ix, fd, Some(id)) != entry_key(ns, db, tb, ix, fd2, Some(id2)),
{
    if entry_key(ns, db, tb, ix, fd, Some(id)) == entry_key(ns, db, tb, ix, fd2, Some(id2)) {
        law_entry_key_injective(ns, db, tb, ix, fd, Some(id), ns, db, tb, ix, fd2, Some(id2));
    }
}

/// The key of a record, whose table is followed by `*`.
pub open spec fn record_key(ns: Seq<char>, db: Seq<char>, t: ThingView) -> Seq<u8> {
    table_base(ns, db, t.tb) + seq![STAR] + id_key(t.id)
}

/// An entry of an index, a pointer of an edge and a record never lie under
/// one key: the byte behind the table tells their keys apart.
#[verifier::spinoff_prover]
pub proof fn law_categories_apart(
    ns: Seq<char>,
    db: Seq<char>,
    tb: Seq<char>,
    ix: Seq<char>,
    fd: Seq<ValueView>,
    id: Option<IdView>,
    ns2: Seq<char>,
    db2: Seq<char>,
    from: ThingView,
    d: Dir,
    to: ThingView,
    ns3: Seq<char>,
    db3: Seq<char>,
    record: ThingView,
)
    requires
        nul_free(ns) && nul_free(db) && nul_free(tb),
        nul_free(ns2) && nul_free(db2) && nul_free(from.tb),
        nul_free(ns3) && nul_free(db3) && nul_free(record.tb),
    ensures
        entry_key(ns, db, tb, ix, fd, id) != graph_key(ns2, db2, from, d, to),
        entry_key(ns, db, tb, ix, fd, id) != record_key(ns3, db3, record),
        graph_key(ns2, db2, from, d, to) != record_key(ns3, db3, record),
{
    let e = entry_key(ns, db, tb, ix, fd, id);
    let g = graph_key(ns2, db2, from, d, to);
    let r = record_key(ns3, db3, record);
    let et = seq![PLUS] + (str_key(ix) + seq![STAR] + values_key(fd) + entry_end(id));
    let gt = seq![TILDE] + (id_key(from.id) + u32_be(d.variant()) + str_key(to.tb) + id_key(to.id));
    let rt = seq![STAR] + id_key(record.id);
    assert(e =~= table_base(ns, db, tb) + et);
    assert(g =~= table_base(ns2, db2, from.tb) + gt);
    assert(r =~= table_base(ns3, db3, record.tb) + rt);
    if e == g {
        lemma_cancel_table_base(ns, db, tb, et, ns2, db2, from.tb, gt);
        assert(et[0] == PLUS);
        assert(gt[0] == TILDE);
    }
    if e == r {
        lemma_cancel_table_base(ns, db, tb, et, ns3, db3, record.tb, rt);
        assert(et[0] == PLUS);
        assert(rt[0] == STAR);
    }
    if g == r {
        lemma_cancel_table_base(ns2, db2, from.tb, gt, ns3, db3, record.tb, rt);
        assert(gt[0] == TILDE);
        assert(rt[0] == STAR);
    }
}

} // verus!
