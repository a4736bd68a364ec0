//! The key under which a table definition is stored.

use vstd::prelude::*;
use crate::key::category::Category;
use crate::key::encode::{BANG, put_str, str_key};
use crate::key::{database_base, put_database_base};

verus! {

/// The key of the definition of the table `tb`.
#[derive(Clone, Debug, PartialEq, Eq)]
pub struct Tb<'a> {
    pub ns: &'a str,
    pub db: &'a str,
    pub tb: &'a str,
}

/// The key of the definition of the table `tb`.
pub fn new<'a>(ns: &'a str, db: &'a str, tb: &'a str) -> (r: Tb<'a>)
    ensures
        r == (Tb { ns, db, tb }),
{
    Tb { ns, db, tb }
}

/// The bytes of the key: the database's base, `!tb`, the name.
pub open spec fn tb_key(ns: Seq<char>, db: Seq<char>, tb: Seq<char>) -> Seq<u8> {
    database_base(ns, db) + seq![BANG, 0x74u8, 0x62u8] + str_key(tb)
}

impl<'a> Tb<'a> {
    /// The bytes of the key.
    pub open spec fn key(self) -> Seq<u8> {
        tb_key(self.ns@, self.db@, self.tb@)
    }

    /// The category of the key.
    pub fn categorise(&self) -> (r: Category)
        ensures
            r == Category::DatabaseTable,
    {
        Category::DatabaseTable
    }

    /// Encodes the key.
    pub fn encode_key(&self) -> (r: Vec<u8>)
        ensures
            r@ == self.key(),
    {
        let mut buf: Vec<u8> = Vec::new();
        put_database_base(&mut buf, self.ns, self.db);
        buf.push(BANG);
        buf.push(0x74u8);
        buf.push(0x62u8);
        put_str(&mut buf, self.tb);
        assert(buf@ =~= self.key());
        buf
    }
}

} // verus!
