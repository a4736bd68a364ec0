use std::sync::Arc;
use surrealdb_core::idx::vector::SerializedVector;
use surrealdb_core::key::category::Category;
use surrealdb_core::key::clean::{
    are_clean_fields, is_clean, is_clean_field, is_clean_tuple, is_nul_free, is_nul_free_thing,
};
use surrealdb_core::key::graph::Dir;
use surrealdb_core::key::index::bc::Bc;
use surrealdb_core::key::index::hv::Hv;
use surrealdb_core::key::index::Index;
use surrealdb_core::key::root::ns::Ns;
use surrealdb_core::val::{Array, Id, Thing, Value};

#[test]
fn bc_key() {
    let val = Bc::new(
        "testns",
        "testdb",
        "testtb",
        "testix",
        7
    );
    let enc = Bc::encode_key(&val);
    assert_eq!(enc, b"/*testns\0*testdb\0*testtb\0+testix\0!bc\0\0\0\0\0\0\0\x07");
}

#[test]
fn hv_key() {
    let val = Hv::new(
        "testns",
        "testdb",
        "testtb",
        "testix",
        Arc::new(SerializedVector::I16(vec![2])),
    );
    let enc = Hv::encode_key(&val);
    assert_eq!(
        enc,
        b"/*testns\0*testdb\0*testtb\0+testix\0!hv\0\0\0\x04\x80\x02\x01",
        "{}",
        String::from_utf8_lossy(&enc)
    );
}

#[test]
fn ns_key() {
    let val = Ns::new(
        "testns",
    );
    let enc = Ns::encode_key(&val);
    assert_eq!(enc, b"/!nstestns\0");
}

#[test]
fn ns_free_function_makes_the_same_key() {
    let a = surrealdb_core::key::root::ns::new("testns");
    assert_eq!(a, Ns::new("testns"));
    assert_eq!(a.encode_key(), b"/!nstestns\0");
}

#[test]
fn ns_prefix_and_suffix_bound_every_namespace_key() {
    let prefix = surrealdb_core::key::root::ns::prefix();
    let suffix = surrealdb_core::key::root::ns::suffix();
    assert_eq!(prefix, b"/!ns\x00");
    assert_eq!(suffix, b"/!ns\xff");
    for name in ["", "a", "testns", "zzzz", "\u{10ffff}"] {
        let key = Ns::new(name).encode_key();
        assert!(prefix <= key, "{name}");
        assert!(key < suffix, "{name}");
    }
}

#[test]
fn hv_key_orders_floats_by_value() {
    let key = |x: f64| {
        Hv::new("n", "d", "t", "i", Arc::new(SerializedVector::F64(vec![x.to_bits()]))).encode_key()
    };
    let values = [-1.0e300, -2.5, -0.0, 0.0, 1.0e-300, 1.0, 7.25, 1.0e300];
    for w in values.windows(2) {
        assert!(key(w[0]) <= key(w[1]), "{} {}", w[0], w[1]);
    }
    assert!(key(-2.5) < key(1.0));
    let one = key(1.0);
    assert_eq!(&one[one.len() - 9..], &[0xbf, 0xf0, 0, 0, 0, 0, 0, 0, 0x01]);
}

#[test]
fn hv_key_of_each_vector_type() {
    let key = |v: SerializedVector| Hv::new("n", "d", "t", "i", Arc::new(v)).encode_key();
    let base = b"/*n\0*d\0*t\0+i\0!hv".to_vec();
    let with = |tail: &[u8]| {
        let mut k = base.clone();
        k.extend_from_slice(tail);
        k
    };
    assert_eq!(key(SerializedVector::F32(vec![1.0f32.to_bits()])), with(&[0, 0, 0, 1, 0xbf, 0x80, 0, 0, 1]));
    assert_eq!(key(SerializedVector::F32(vec![(-1.0f32).to_bits()])), with(&[0, 0, 0, 1, 0x40, 0x7f, 0xff, 0xff, 1]));
    assert_eq!(key(SerializedVector::I64(vec![-1])), with(&[0, 0, 0, 2, 0x7f, 0xff, 0xff, 0xff, 0xff, 0xff, 0xff, 0xff, 1]));
    assert_eq!(key(SerializedVector::I32(vec![i32::MIN, i32::MAX])), with(&[0, 0, 0, 3, 0, 0, 0, 0, 0xff, 0xff, 0xff, 0xff, 1]));
    assert_eq!(key(SerializedVector::I16(vec![])), with(&[0, 0, 0, 4, 1]));
}

#[test]
fn index_key_of_a_unique_entry() {
    let fd = Array(vec![Value::Number(1), Value::Strand("a".to_string())]);
    let key = Index::new("ns", "db", "tb", "ix", &fd, None).encode_key();
    let mut want = b"/*ns\0*db\0*tb\0+ix\0*".to_vec();
    want.extend_from_slice(&[0, 0, 0, 3, 0x80, 0, 0, 0, 0, 0, 0, 1]);
    want.extend_from_slice(&[0, 0, 0, 4, b'a', 0]);
    want.extend_from_slice(&[1, 0]);
    assert_eq!(key, want);
}

#[test]
fn index_key_of_a_non_unique_entry_holds_the_record() {
    let fd = Array(vec![Value::Bool(true), Value::Null, Value::Nothing]);
    let id = Id::String("k".to_string());
    let key = Index::new("ns", "db", "tb", "ix", &fd, Some(&id)).encode_key();
    let mut want = b"/*ns\0*db\0*tb\0+ix\0*".to_vec();
    want.extend_from_slice(&[0, 0, 0, 2, 1, 0, 0, 0, 1, 0, 0, 0, 0, 1]);
    want.extend_from_slice(&[1, 0, 0, 0, 1, b'k', 0]);
    assert_eq!(key, want);
}

#[test]
fn index_keys_follow_the_order_of_the_tuples() {
    let id = Id::Number(5);
    let a = Array(vec![Value::Number(1), Value::Strand("a".to_string())]);
    let b = Array(vec![Value::Number(1), Value::Strand("b".to_string())]);
    let ka = Index::new("ns", "db", "tb", "ix", &a, Some(&id)).encode_key();
    let kb = Index::new("ns", "db", "tb", "ix", &b, Some(&id)).encode_key();
    assert!(ka < kb);
    let c = Array(vec![Value::Number(-3), Value::Strand("z".to_string())]);
    let d = Array(vec![Value::Number(2), Value::Strand("a".to_string())]);
    let kc = Index::new("ns", "db", "tb", "ix", &c, Some(&id)).encode_key();
    let kd = Index::new("ns", "db", "tb", "ix", &d, Some(&id)).encode_key();
    assert!(kc < ka);
    assert!(kb < kd);
    let numbers = [i64::MIN, -70000, -1, 0, 1, 255, 256, 70000, i64::MAX];
    for w in numbers.windows(2) {
        let x = Array(vec![Value::Number(w[0])]);
        let y = Array(vec![Value::Number(w[1])]);
        assert!(
            Index::new("ns", "db", "tb", "ix", &x, None).encode_key()
                < Index::new("ns", "db", "tb", "ix", &y, None).encode_key()
        );
    }
}

#[test]
fn index_key_of_nested_values() {
    let fd = Array(vec![
        Value::Array(vec![Value::Number(0)]),
        Value::Object(vec![("f".to_string(), Value::Bool(false))]),
        Value::Thing(Thing { tb: "t".to_string(), id: Id::Number(-1) }),
    ]);
    let key = Index::new("n", "d", "t", "i", &fd, None).encode_key();
    let mut want = b"/*n\0*d\0*t\0+i\0*".to_vec();
    want.extend_from_slice(&[0, 0, 0, 5, 0, 0, 0, 3, 0x80, 0, 0, 0, 0, 0, 0, 0, 1]);
    want.extend_from_slice(&[0, 0, 0, 6, b'f', 0, 0, 0, 0, 2, 0, 1]);
    want.extend_from_slice(&[0, 0, 0, 7, b't', 0, 0, 0, 0, 0, 0x7f, 0xff, 0xff, 0xff, 0xff, 0xff, 0xff, 0xff]);
    want.extend_from_slice(&[1, 0]);
    assert_eq!(key, want);
}

#[test]
fn thing_and_graph_keys() {
    let id = Id::Number(1);
    let key = surrealdb_core::key::thing::new("ns", "db", "person", &id).encode_key();
    let mut want = b"/*ns\0*db\0*person\0*".to_vec();
    want.extend_from_slice(&[0, 0, 0, 0, 0x80, 0, 0, 0, 0, 0, 0, 1]);
    assert_eq!(key, want);

    let peer = Thing { tb: "likes".to_string(), id: Id::String("e".to_string()) };
    let key = surrealdb_core::key::graph::new("ns", "db", "person", &id, &Dir::Out, &peer).encode_key();
    let mut want = b"/*ns\0*db\0*person\0~".to_vec();
    want.extend_from_slice(&[0, 0, 0, 0, 0x80, 0, 0, 0, 0, 0, 0, 1]);
    want.extend_from_slice(&[0, 0, 0, 1]);
    want.extend_from_slice(b"likes\0");
    want.extend_from_slice(&[0, 0, 0, 1, b'e', 0]);
    assert_eq!(key, want);
    let key_in = surrealdb_core::key::graph::new("ns", "db", "person", &id, &Dir::In, &peer).encode_key();
    assert!(key_in < key);
}

#[test]
fn schema_keys() {
    assert_eq!(surrealdb_core::key::namespace::db::new("ns", "db").encode_key(), b"/*ns\0!dbdb\0");
    assert_eq!(surrealdb_core::key::database::az::new("ns", "db", "az").encode_key(), b"/*ns\0*db\0!azaz\0");
    assert_eq!(surrealdb_core::key::database::tb::new("ns", "db", "tb").encode_key(), b"/*ns\0*db\0!tbtb\0");
    assert_eq!(surrealdb_core::key::table::fd::new("ns", "db", "tb", "fd").encode_key(), b"/*ns\0*db\0*tb\0!fdfd\0");
    assert_eq!(surrealdb_core::key::table::ix::new("ns", "db", "tb", "ix").encode_key(), b"/*ns\0*db\0*tb\0!ixix\0");
}

#[test]
fn keys_hold_names_as_utf8() {
    let key = Bc::new("ñ", "d", "t", "i", 0x0102030405060708).encode_key();
    let mut want = b"/*".to_vec();
    want.extend_from_slice("ñ".as_bytes());
    want.extend_from_slice(b"\0*d\0*t\0+i\0!bc\x01\x02\x03\x04\x05\x06\x07\x08");
    assert_eq!(key, want);
}

#[test]
fn ns_key_is_read_back() {
    use_decode("testns");
    use_decode("");
    use_decode("ñandú\u{10ffff}");
    use_decode("a\0b");
    let decode = surrealdb_core::key::root::ns::decode_key;
    assert_eq!(decode(&b"/!nstestns\0".to_vec()), Some("testns".to_string()));
    assert_eq!(decode(&b"/!nstestns".to_vec()), None);
    assert_eq!(decode(&b"/!ns".to_vec()), None);
    assert_eq!(decode(&b"/!ns\0".to_vec()), Some(String::new()));
    assert_eq!(decode(&b"/!nt\0".to_vec()), None);
    assert_eq!(decode(&b"/*nsx\0".to_vec()), None);
    assert_eq!(decode(&b"!!nsx\0".to_vec()), None);
    assert_eq!(decode(&b"/!msx\0".to_vec()), None);
    assert_eq!(decode(&b"".to_vec()), None);
    assert_eq!(decode(&b"/!ns\xff\0".to_vec()), None);
    assert_eq!(decode(&b"/!ns\xc0\x80\0".to_vec()), None);
}

fn use_decode(name: &str) {
    let key = Ns::new(name).encode_key();
    assert_eq!(surrealdb_core::key::root::ns::decode_key(&key), Some(name.to_string()));
}

#[test]
fn keys_tell_their_category() {
    use_category();
}

fn use_category() {
    let id = Id::Number(1);
    let peer = Thing { tb: "t".to_string(), id: Id::Number(2) };
    let fd = Array(vec![]);
    assert_eq!(Ns::new("n").categorise(), Category::Namespace);
    assert_eq!(Bc::new("n", "d", "t", "i", 1).categorise(), Category::IndexTermDocList);
    assert_eq!(
        Hv::new("n", "d", "t", "i", Arc::new(SerializedVector::I16(vec![]))).categorise(),
        Category::IndexHnswVec
    );
    assert_eq!(Index::new("n", "d", "t", "i", &fd, None).categorise(), Category::Index);
    assert_eq!(surrealdb_core::key::thing::new("n", "d", "t", &id).categorise(), Category::Thing);
    assert_eq!(
        surrealdb_core::key::graph::new("n", "d", "t", &id, &Dir::In, &peer).categorise(),
        Category::Graph
    );
    assert_eq!(surrealdb_core::key::namespace::db::new("n", "d").categorise(), Category::Database);
    assert_eq!(
        surrealdb_core::key::database::az::new("n", "d", "a").categorise(),
        Category::DatabaseAnalyzer
    );
    assert_eq!(
        surrealdb_core::key::database::tb::new("n", "d", "t").categorise(),
        Category::DatabaseTable
    );
    assert_eq!(surrealdb_core::key::table::fd::new("n", "d", "t", "f").categorise(), Category::TableField);
    assert_eq!(surrealdb_core::key::table::ix::new("n", "d", "t", "i").categorise(), Category::TableIndex);
}


#[test]
fn names_with_a_zero_byte_are_found() {
    assert!(is_nul_free(""));
    assert!(is_nul_free("person"));
    assert!(is_nul_free("pers\u{f6}n"));
    assert!(!is_nul_free("\0"));
    assert!(!is_nul_free("per\0son"));
    assert!(is_clean_field("name"));
    assert!(is_clean_field(""));
    assert!(!is_clean_field("\u{1}name"));
    assert!(is_clean_field("na\u{1}me"));
    assert!(!is_clean_field("na\0me"));
    assert!(is_nul_free_thing(&Thing { tb: "person".to_string(), id: Id::Number(0) }));
    assert!(is_nul_free_thing(&Thing { tb: "person".to_string(), id: Id::String("a".to_string()) }));
    assert!(!is_nul_free_thing(&Thing { tb: "per\0son".to_string(), id: Id::Number(0) }));
    assert!(!is_nul_free_thing(&Thing { tb: "person".to_string(), id: Id::String("\0".to_string()) }));
}

#[test]
fn values_that_a_key_cannot_hold_are_found() {
    let text = |s: &str| Value::Strand(s.to_string());
    assert!(is_clean(&Value::Nothing));
    assert!(is_clean(&Value::Number(0)));
    assert!(is_clean(&text("a")));
    assert!(!is_clean(&text("a\0")));
    assert!(is_clean(&Value::Array(vec![text("a"), Value::Array(vec![Value::Null])])));
    assert!(!is_clean(&Value::Array(vec![text("a"), Value::Array(vec![text("\0")])])));
    assert!(is_clean(&Value::Object(vec![("k".to_string(), text("a"))])));
    assert!(!is_clean(&Value::Object(vec![("\u{1}".to_string(), text("a"))])));
    assert!(!is_clean(&Value::Object(vec![("k".to_string(), text("\0"))])));
    assert!(!is_clean(&Value::Thing(Thing { tb: "\0".to_string(), id: Id::Number(1) })));
    assert!(is_clean_tuple(&vec![]));
    assert!(is_clean_tuple(&vec![text("a"), Value::Bool(true)]));
    assert!(!is_clean_tuple(&vec![text("a"), text("b\0")]));
    assert!(are_clean_fields(&vec![]));
    assert!(!are_clean_fields(&vec![("a".to_string(), Value::Null), ("b\0".to_string(), Value::Null)]));
}

#[test]
fn a_text_with_zero_bytes_can_take_the_key_of_another_tuple() {
    let text = |s: &str| Value::Strand(s.to_string());
    let one = vec![text("a"), Value::Nothing];
    let other = vec![text("a\0\0\0\0")];
    let key = |fd: Vec<Value>| Index::new("ns", "db", "tb", "ix", &Array(fd), None).encode_key();
    assert_eq!(key(one.clone()), key(other.clone()));
    // Which is why a tuple is tested before its key is written.
    assert!(is_clean_tuple(&one));
    assert!(!is_clean_tuple(&other));
}
