//! The key under which an index definition is stored.

use vstd::prelude::*;
use crate::key::category::Category;
use crate::key::encode::{BANG, put_str, str_key};
use crate::key::{put_table_base, table_base};

verus! {

/// The key of the definition of the index `ix` of the table `tb`.
#[derive(Clone, Debug, PartialEq, Eq)]
pub struct Ix<'a> {
    pub ns: &'a str,
    pub db: &'a str,
    pub tb: &'a str,
    pub ix: &'a str,
}

/// The key of the definition of the index `ix` of the table `tb`.
pub fn new<'a>(ns: &'a str, db: &'a str, tb: &'a str, ix: &'a str) -> (r: Ix<'a>)
    ensures
        r == (Ix { ns, db, tb, ix }),
{
    Ix { ns, db, tb, ix }
}

/// The bytes of the key: the table's base, `!ix`, the name.
pub open spec fn ix_key(ns: Seq<char>, db: Seq<char>, tb: Seq<char>, ix: Seq<char>) -> Seq<u8> {
    table_base(ns, db, tb) + seq![BANG, 0x69u8, 0x78u8] + str_key(ix)
}

impl<'a> Ix<'a> {
    /// The bytes of the key.
    pub open spec fn key(self) -> Seq<u8> {
        ix_key(self.ns@, self.db@, self.tb@, self.ix@)
    }

    /// The category of the key.
    pub fn categorise(&self) -> (r: Category)
        ensures
            r == Category::TableIndex,
    {
        Category::TableIndex
    }

    /// Encodes the key.
    pub fn encode_key(&self) -> (r: Vec<u8>)
        ensures
            r@ == self.key(),
    {
        let mut buf: Vec<u8> = Vec::new();
        put_table_base(&mut buf, self.ns, self.db, self.tb);
        buf.push(BANG);
        buf.push(0x69u8);
        buf.push(0x78u8);
        put_str(&mut buf, self.ix);
        assert(buf@ =~= self.key());
        buf
    }
}

} // verus!
