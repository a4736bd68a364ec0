//! The key under which the documents of one term of a full-text index are
//! stored.

use vstd::prelude::*;
use crate::key::category::Category;
use crate::key::encode::{BANG, put_u64, u64_be};
use crate::key::{index_base, put_index_base};

verus! {

/// The number of a term of a full-text index.
pub type TermId = u64;

/// The key of the document list of the term `term_id`.
#[derive(Clone, Debug, PartialEq, Eq)]
pub struct Bc<'a> {
    pub ns: &'a str,
    pub db: &'a str,
    pub tb: &'a str,
    pub ix: &'a str,
    pub term_id: TermId,
}

impl<'a> Bc<'a> {
    /// The key of the document list of the term `term_id` of the index `ix`.
    pub fn new(ns: &'a str, db: &'a str, tb: &'a str, ix: &'a str, term_id: TermId) -> (r: Self)
        ensures
            r == (Bc { ns, db, tb, ix, term_id }),
    {
        Bc { ns, db, tb, ix, term_id }
    }

    /// The bytes of the key: the index's base, `!bc`, the term's number.
    pub open spec fn key(self) -> Seq<u8> {
        index_base(self.ns@, self.db@, self.tb@, self.ix@) + seq![BANG, 0x62u8, 0x63u8] + u64_be(
            self.term_id,
        )
    }

    /// The category of the key.
    pub fn categorise(&self) -> (r: Category)
        ensures
            r == Category::IndexTermDocList,
    {
        Category::IndexTermDocList
    }

    /// Encodes the key.
    pub fn encode_key(&self) -> (r: Vec<u8>)
        ensures
            r@ == self.key(),
    {
        let mut buf: Vec<u8> = Vec::new();
        put_index_base(&mut buf, self.ns, self.db, self.tb, self.ix);
        buf.push(BANG);
        buf.push(0x62u8);
        buf.push(0x63u8);
        put_u64(&mut buf, self.term_id);
        assert(buf@ =~= self.key());
        buf
    }
}

} // verus!
