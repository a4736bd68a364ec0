//! The key under which an analyzer definition is stored.

use vstd::prelude::*;
use crate::key::category::Category;
use crate::key::encode::{BANG, put_str, str_key};
use crate::key::{database_base, put_database_base};

verus! {

/// The key of the definition of the analyzer `az`.
#[derive(Clone, Debug, PartialEq, Eq)]
pub struct Az<'a> {
    pub ns: &'a str,
    pub db: &'a str,
    pub az: &'a str,
}

/// The key of the definition of the analyzer `az`.
pub fn new<'a>(ns: &'a str, db: &'a str, az: &'a str) -> (r: Az<'a>)
    ensures
        r == (Az { ns, db, az }),
{
    Az { ns, db, az }
}

/// The bytes of the key: the database's base, `!az`, the name.
pub open spec fn az_key(ns: Seq<char>, db: Seq<char>, az: Seq<char>) -> Seq<u8> {
    database_base(ns, db) + seq![BANG, 0x61u8, 0x7au8] + str_key(az)
}

impl<'a> Az<'a> {
    /// The bytes of the key.
    pub open spec fn key(self) -> Seq<u8> {
        az_key(self.ns@, self.db@, self.az@)
    }

    /// The category of the key.
    pub fn categorise(&self) -> (r: Category)
        ensures
            r == Category::DatabaseAnalyzer,
    {
        Category::DatabaseAnalyzer
    }

    /// Encodes the key.
    pub fn encode_key(&self) -> (r: Vec<u8>)
        ensures
            r@ == self.key(),
    {
        let mut buf: Vec<u8> = Vec::new();
        put_database_base(&mut buf, self.ns, self.db);
        buf.push(BANG);
        buf.push(0x61u8);
        buf.push(0x7au8);
        put_str(&mut buf, self.az);
        assert(buf@ =~= self.key());
        buf
    }
}

} // verus!
