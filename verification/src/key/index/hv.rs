//! The key under which the records of one vector of a similarity index are
//! stored.

use std::sync::Arc;
use vstd::prelude::*;
use crate::key::category::Category;
use crate::idx::vector::SerializedVector;
use crate::key::encode::BANG;
use crate::key::{index_base, put_index_base};

verus! {

/// The key of the records that hold the vector `vec`.
#[derive(Clone, Debug, PartialEq, Eq)]
pub struct Hv<'a> {
    pub ns: &'a str,
    pub db: &'a str,
    pub tb: &'a str,
    pub ix: &'a str,
    pub vec: Arc<SerializedVector>,
}

impl<'a> Hv<'a> {
    /// The key of the records that hold the vector `vec` in the index `ix`.
    pub fn new(ns: &'a str, db: &'a str, tb: &'a str, ix: &'a str, vec: Arc<SerializedVector>) -> (r:
        Self)
        ensures
            r == (Hv { ns, db, tb, ix, vec }),
    {
        Hv { ns, db, tb, ix, vec }
    }

    /// The bytes of the key: the index's base, `!hv`, the vector.
    pub open spec fn key(self) -> Seq<u8> {
        index_base(self.ns@, self.db@, self.tb@, self.ix@) + seq![BANG, 0x68u8, 0x76u8]
            + self.vec.key()
    }

    /// The category of the key.
    pub fn categorise(&self) -> (r: Category)
        ensures
            r == Category::IndexHnswVec,
    {
        Category::IndexHnswVec
    }

    /// Encodes the key.
    pub fn encode_key(&self) -> (r: Vec<u8>)
        ensures
            r@ == self.key(),
    {
        let mut buf: Vec<u8> = Vec::new();
        put_index_base(&mut buf, self.ns, self.db, self.tb, self.ix);
        buf.push(BANG);
        buf.push(0x68u8);
        buf.push(0x76u8);
        self.vec.put(&mut buf);
        assert(buf@ =~= self.key());
        buf
    }
}

} // verus!
