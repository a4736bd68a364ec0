//! The key under which a namespace definition is stored.

use vstd::prelude::*;
use crate::key::category::Category;
use vstd::utf8::{encode_utf8, encode_utf8_valid_utf8};
use crate::key::encode::{BANG, SLASH, put_str, str_key, text_of};

verus! {

/// The key of the definition of the namespace `ns`.
#[derive(Clone, Debug, PartialEq, Eq)]
pub struct Ns<'a> {
    pub ns: &'a str,
}

/// The name of the namespace whose definition is stored under the key, or
/// `None` where the bytes are the key of no namespace.
pub fn decode_key(bytes: &Vec<u8>) -> (r: Option<String>)
    ensures
        match r {
            Some(name) => bytes@ == ns_key(name@),
            None => forall|name: Seq<char>| bytes@ != #[trigger] ns_key(name),
        },
{
    let n = bytes.len();
    if n < 5 || bytes[0] != SLASH || bytes[1] != BANG || bytes[2] != 0x6eu8 || bytes[3] != 0x73u8
        || bytes[n - 1] != 0x00u8 {
        assert forall|name: Seq<char>| bytes@ != #[trigger] ns_key(name) by {
            let k = ns_key(name);
            assert(k.len() >= 5);
            assert(k[0] == SLASH && k[1] == BANG && k[2] == 0x6eu8 && k[3] == 0x73u8);
            assert(k[k.len() - 1] == 0x00u8);
        }
        return None;
    }
    let mut middle: Vec<u8> = Vec::new();
    let mut i: usize = 4;
    while i < n - 1
        invariant
            4 <= i <= n - 1,
            n == bytes.len(),
            middle@ == bytes@.subrange(4, i as int),
        decreases n - 1 - i,
    {
        middle.push(bytes[i]);
        i += 1;
        assert(middle@ =~= bytes@.subrange(4, i as int));
    }
    let ghost inner = middle@;
    let r = text_of(middle);
    proof {
        if r is Some {
            assert(bytes@ =~= ns_key(r->0@));
        } else {
            assert forall|name: Seq<char>| bytes@ != #[trigger] ns_key(name) by {
                if bytes@ == ns_key(name) {
                    encode_utf8_valid_utf8(name);
                    assert(inner =~= encode_utf8(name));
                }
            }
        }
    }
    r
}

/// The key of the definition of the namespace `ns`.
pub fn new(ns: &str) -> (r: Ns<'_>)
    ensures
        r.ns == ns,
{
    Ns::new(ns)
}

/// What the keys of all namespace definitions start with.
pub open spec fn ns_marker() -> Seq<u8> {
    seq![SLASH, BANG, 0x6eu8, 0x73u8]
}

/// The lower bound of a scan over all namespace definitions: no key of a
/// namespace definition is smaller.
pub fn prefix() -> (r: Vec<u8>)
    ensures
        r@ == ns_marker().push(0x00u8),
{
    let mut k: Vec<u8> = Vec::new();
    k.push(SLASH);
    k.push(BANG);
    k.push(0x6eu8);
    k.push(0x73u8);
    k.push(0x00u8);
    assert(k@ =~= ns_marker().push(0x00u8));
    k
}

/// The upper bound of a scan over all namespace definitions: no key of a
/// namespace definition is greater.
pub fn suffix() -> (r: Vec<u8>)
    ensures
        r@ == ns_marker().push(0xffu8),
{
    let mut k: Vec<u8> = Vec::new();
    k.push(SLASH);
    k.push(BANG);
    k.push(0x6eu8);
    k.push(0x73u8);
    k.push(0xffu8);
    assert(k@ =~= ns_marker().push(0xffu8));
    k
}

/// The bytes of the key of the namespace `ns`: `/!ns`, then the name and its
/// end byte.
pub open spec fn ns_key(ns: Seq<char>) -> Seq<u8> {
    ns_marker() + str_key(ns)
}

impl<'a> Ns<'a> {
    /// The key of the definition of the namespace `ns`.
    pub fn new(ns: &'a str) -> (r: Self)
        ensures
            r.ns == ns,
    {
        Ns { ns }
    }

    /// The bytes of the key.
    pub open spec fn key(self) -> Seq<u8> {
        ns_key(self.ns@)
    }

    /// The category of the key.
    pub fn categorise(&self) -> (r: Category)
        ensures
            r == Category::Namespace,
    {
        Category::Namespace
    }

    /// Encodes the key.
    pub fn encode_key(&self) -> (r: Vec<u8>)
        ensures
            r@ == self.key(),
    {
        let mut buf: Vec<u8> = Vec::new();
        buf.push(SLASH);
        buf.push(BANG);
        buf.push(0x6eu8);
        buf.push(0x73u8);
        put_str(&mut buf, self.ns);
        assert(buf@ =~= self.key());
        buf
    }
}

} // verus!
