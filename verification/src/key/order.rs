//! The order of keys: byte strings compared byte by byte follow the order of
//! what they stand for.

use vstd::prelude::*;
use vstd::utf8::{encode_utf8, encode_utf8_valid_utf8};
use crate::key::encode::{
    SEQ_END, STAR, i64_key, id_key, str_key, u32_be, u64_be, value_key, values_body,
};
use crate::key::index::entry_key;
use crate::key::index_base;
use crate::key::laws::{lemma_values_split, nul_free, values_tail, variant_of};
use crate::key::root::ns::{ns_key, ns_marker};
use crate::val::{IdView, ValueView};

verus! {

/// Whether `a` comes before `b` when the two are compared byte by byte: at
/// the first place where they differ `a` has the smaller byte, or `a` ends
/// there and `b` goes on.
pub open spec fn bytes_lt(a: Seq<u8>, b: Seq<u8>) -> bool {
    exists|k: int| first_difference(a, b, k)
}

/// Whether `a` and `b` are the same before place `k`, and there `a` has the
/// smaller byte or ends while `b` goes on.
pub open spec fn first_difference(a: Seq<u8>, b: Seq<u8>, k: int) -> bool {
    &&& 0 <= k <= a.len()
    &&& k < b.len()
    &&& a.subrange(0, k) == b.subrange(0, k)
    &&& k < a.len() ==> a[k] < b[k]
}

/// What comes before stays before behind a common start.
#[verifier::spinoff_prover]
pub proof fn lemma_lt_behind(c: Seq<u8>, a: Seq<u8>, b: Seq<u8>)
    requires
        bytes_lt(a, b),
    ensures
        bytes_lt(c + a, c + b),
{
    let k = choose|k: int| first_difference(a, b, k);
    assert((c + a).subrange(0, c.len() + k) =~= c + a.subrange(0, k));
    assert((c + b).subrange(0, c.len() + k) =~= c + b.subrange(0, k));
    assert(first_difference(c + a, c + b, c.len() + k));
}

/// Of two byte strings that start with parts of one length, the one with the
/// part that comes first comes first, whatever follows.
#[verifier::spinoff_prover]
pub proof fn lemma_lt_fixed(a: Seq<u8>, x: Seq<u8>, b: Seq<u8>, y: Seq<u8>)
    requires
        a.len() == b.len(),
        bytes_lt(a, b),
    ensures
        bytes_lt(a + x, b + y),
{
    let k = choose|k: int| first_difference(a, b, k);
    assert((a + x).subrange(0, k) =~= a.subrange(0, k));
    assert((b + y).subrange(0, k) =~= b.subrange(0, k));
    assert(first_difference(a + x, b + y, k));
}

/// The smaller of two 64-bit numbers has the bytes that come first.
#[verifier::spinoff_prover]
pub proof fn lemma_u64_be_order(a: u64, b: u64)
    requires
        a < b,
    ensures
        bytes_lt(u64_be(a), u64_be(b)),
{
    let x = u64_be(a);
    let y = u64_be(b);
    assert(a / 0x100_0000_0000_0000 < b / 0x100_0000_0000_0000 || (a / 0x100_0000_0000_0000 == b
        / 0x100_0000_0000_0000 && (a / 0x1_0000_0000_0000 % 0x100 < b / 0x1_0000_0000_0000 % 0x100
        || (a / 0x1_0000_0000_0000 % 0x100 == b / 0x1_0000_0000_0000 % 0x100 && (a / 0x100_0000_0000
        % 0x100 < b / 0x100_0000_0000 % 0x100 || (a / 0x100_0000_0000 % 0x100 == b / 0x100_0000_0000
        % 0x100 && (a / 0x1_0000_0000 % 0x100 < b / 0x1_0000_0000 % 0x100 || (a / 0x1_0000_0000
        % 0x100 == b / 0x1_0000_0000 % 0x100 && (a / 0x100_0000 % 0x100 < b / 0x100_0000 % 0x100 || (
    a / 0x100_0000 % 0x100 == b / 0x100_0000 % 0x100 && (a / 0x1_0000 % 0x100 < b / 0x1_0000
        % 0x100 || (a / 0x1_0000 % 0x100 == b / 0x1_0000 % 0x100 && (a / 0x100 % 0x100 < b / 0x100
        % 0x100 || (a / 0x100 % 0x100 == b / 0x100 % 0x100 && a % 0x100 < b % 0x100))))))))))))))
        by (bit_vector)
        requires
            a < b,
    ;
    let k: int = if x[0] != y[0] {
        0
    } else if x[1] != y[1] {
        1
    } else if x[2] != y[2] {
        2
    } else if x[3] != y[3] {
        3
    } else if x[4] != y[4] {
        4
    } else if x[5] != y[5] {
        5
    } else if x[6] != y[6] {
        6
    } else {
        7
    };
    assert(x.subrange(0, k) =~= y.subrange(0, k));
    assert(first_difference(x, y, k));
}

/// The smaller of two whole numbers has the key that comes first.
#[verifier::spinoff_prover]
pub proof fn law_number_order(n: i64, m: i64)
    requires
        n < m,
    ensures
        bytes_lt(i64_key(n), i64_key(m)),
{
    lemma_u64_be_order((n + 0x8000_0000_0000_0000) as u64, (m + 0x8000_0000_0000_0000) as u64);
}

/// Of two names without zero bytes, the one whose UTF-8 form comes first has
/// the key that comes first, whatever follows the keys. A name comes before
/// every name that it starts.
#[verifier::spinoff_prover]
pub proof fn law_name_order(a: Seq<char>, x: Seq<u8>, b: Seq<char>, y: Seq<u8>)
    requires
        nul_free(a),
        nul_free(b),
        bytes_lt(encode_utf8(a), encode_utf8(b)),
    ensures
        bytes_lt(str_key(a) + x, str_key(b) + y),
{
    let ea = encode_utf8(a);
    let eb = encode_utf8(b);
    let k = choose|k: int| first_difference(ea, eb, k);
    let s = str_key(a) + x;
    let t = str_key(b) + y;
    assert(s.subrange(0, k) =~= ea.subrange(0, k));
    assert(t.subrange(0, k) =~= eb.subrange(0, k));
    assert(t[k] == eb[k]);
    if k < ea.len() {
        assert(s[k] == ea[k]);
    } else {
        assert(s[k] == 0u8);
    }
    assert(first_difference(s, t, k));
}

/// The order of values, as far as the keys follow it: values of different
/// variants are ordered by their variants; `false` comes before `true`;
/// whole numbers are ordered by size; and texts without zero bytes are
/// ordered by their UTF-8 forms.
pub open spec fn value_lt(a: ValueView, b: ValueView) -> bool {
    if variant_of(a) != variant_of(b) {
        variant_of(a) < variant_of(b)
    } else {
        match (a, b) {
            (ValueView::Bool(x), ValueView::Bool(y)) => !x && y,
            (ValueView::Number(n), ValueView::Number(m)) => n < m,
            (ValueView::Strand(s), ValueView::Strand(t)) => nul_free(s) && nul_free(t) && bytes_lt(
                encode_utf8(s),
                encode_utf8(t),
            ),
            _ => false,
        }
    }
}

/// The smaller of two small numbers has the bytes that come first.
#[verifier::spinoff_prover]
proof fn lemma_tag_order(a: u32, b: u32)
    requires
        a < b < 0x100,
    ensures
        bytes_lt(u32_be(a), u32_be(b)),
{
    assert(u32_be(a).subrange(0, 3) =~= u32_be(b).subrange(0, 3));
    assert(first_difference(u32_be(a), u32_be(b), 3));
}

/// The value that comes first has the key that comes first, whatever follows
/// the keys.
#[verifier::spinoff_prover]
pub proof fn law_value_order(a: ValueView, x: Seq<u8>, b: ValueView, y: Seq<u8>)
    requires
        value_lt(a, b),
    ensures
        bytes_lt(value_key(a) + x, value_key(b) + y),
{
    let t = u32_be(variant_of(a));
    let u = u32_be(variant_of(b));
    let pa = value_key(a).subrange(4, value_key(a).len() as int);
    let pb = value_key(b).subrange(4, value_key(b).len() as int);
    assert(value_key(a) + x =~= t + (pa + x));
    assert(value_key(b) + y =~= u + (pb + y));
    if variant_of(a) != variant_of(b) {
        lemma_tag_order(variant_of(a), variant_of(b));
        lemma_lt_fixed(t, pa + x, u, pb + y);
    } else {
        match (a, b) {
            (ValueView::Bool(p), ValueView::Bool(q)) => {
                assert(pa =~= seq![0u8]);
                assert(pb =~= seq![1u8]);
                assert(pa.subrange(0, 0) =~= pb.subrange(0, 0));
                assert(first_difference(pa, pb, 0));
                lemma_lt_fixed(pa, x, pb, y);
            },
            (ValueView::Number(n), ValueView::Number(m)) => {
                assert(pa =~= i64_key(n));
                assert(pb =~= i64_key(m));
                law_number_order(n, m);
                lemma_lt_fixed(pa, x, pb, y);
            },
            (ValueView::Strand(s), ValueView::Strand(r)) => {
                assert(pa =~= str_key(s));
                assert(pb =~= str_key(r));
                law_name_order(s, x, r, y);
            },
            _ => {},
        }
        lemma_lt_behind(t, pa + x, pb + y);
    }
}

/// The keys of the entries of an index follow the order of their tuples: of
/// two tuples that are the same before some place and hold there a smaller
/// and a greater value, the first has the key that comes first.
#[verifier::spinoff_prover]
pub proof fn law_entry_key_order(
    ns: Seq<char>,
    db: Seq<char>,
    tb: Seq<char>,
    ix: Seq<char>,
    fd1: Seq<ValueView>,
    id1: Option<IdView>,
    fd2: Seq<ValueView>,
    id2: Option<IdView>,
    p: int,
)
    requires
        0 <= p < fd1.len(),
        p < fd2.len(),
        fd1.subrange(0, p) == fd2.subrange(0, p),
        value_lt(fd1[p], fd2[p]),
    ensures
        bytes_lt(entry_key(ns, db, tb, ix, fd1, id1), entry_key(ns, db, tb, ix, fd2, id2)),
{
    let c = index_base(ns, db, tb, ix) + seq![STAR] + values_body(fd1.subrange(0, p));
    let end1 = match id1 {
        None => seq![0x00u8],
        Some(id) => seq![0x01u8] + id_key(id),
    };
    let end2 = match id2 {
        None => seq![0x00u8],
        Some(id) => seq![0x01u8] + id_key(id),
    };
    let r1 = values_tail(fd1, p + 1) + seq![SEQ_END] + end1;
    let r2 = values_tail(fd2, p + 1) + seq![SEQ_END] + end2;
    lemma_values_split(fd1, p);
    lemma_values_split(fd2, p);
    assert(entry_key(ns, db, tb, ix, fd1, id1) =~= c + (value_key(fd1[p]) + r1));
    assert(entry_key(ns, db, tb, ix, fd2, id2) =~= c + (value_key(fd2[p]) + r2));
    law_value_order(fd1[p], r1, fd2[p], r2);
    lemma_lt_behind(c, value_key(fd1[p]) + r1, value_key(fd2[p]) + r2);
}

/// The key of every namespace lies within the bounds of a scan over all
/// namespaces: it does not come before the lower bound, and it comes before
/// the upper bound.
#[verifier::spinoff_prover]
pub proof fn law_ns_bounds(name: Seq<char>)
    ensures
        !bytes_lt(ns_key(name), ns_marker().push(0x00u8)),
        bytes_lt(ns_key(name), ns_marker().push(0xffu8)),
{
    let key = ns_key(name);
    let low = ns_marker().push(0x00u8);
    let high = ns_marker().push(0xffu8);
    let e = encode_utf8(name);
    assert(key =~= ns_marker() + (e.push(0u8)));
    assert(key.subrange(0, 4) =~= ns_marker());
    assert(low.subrange(0, 4) =~= ns_marker());
    assert(high.subrange(0, 4) =~= ns_marker());
    if bytes_lt(key, low) {
        let k = choose|k: int| first_difference(key, low, k);
        if k < 4 {
            assert(key[k] == low[k]);
        }
    }
    encode_utf8_valid_utf8(name);
    if e.len() == 0 {
        assert(key[4] == 0u8);
    } else {
        assert(key[4] == e[0]);
        assert(e[0] <= 0xf7);
    }
    assert(first_difference(key, high, 4));
}

} // verus!
