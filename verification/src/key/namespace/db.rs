//! The key under which a database definition is stored.

use vstd::prelude::*;
use crate::key::category::Category;
use crate::key::encode::{BANG, SLASH, STAR, put_str, str_key};

verus! {

/// The key of the definition of the database `db` of the namespace `ns`.
#[derive(Clone, Debug, PartialEq, Eq)]
pub struct Db<'a> {
    pub ns: &'a str,
    pub db: &'a str,
}

/// The key of the definition of the database `db` of the namespace `ns`.
pub fn new<'a>(ns: &'a str, db: &'a str) -> (r: Db<'a>)
    ensures
        r == (Db { ns, db }),
{
    Db { ns, db }
}

/// The bytes of the key: `/*`, the namespace, `!db`, the name.
pub open spec fn db_key(ns: Seq<char>, db: Seq<char>) -> Seq<u8> {
    seq![SLASH, STAR] + str_key(ns) + seq![BANG, 0x64u8, 0x62u8] + str_key(db)
}

impl<'a> Db<'a> {
    /// The bytes of the key.
    pub open spec fn key(self) -> Seq<u8> {
        db_key(self.ns@, self.db@)
    }

    /// The category of the key.
    pub fn categorise(&self) -> (r: Category)
        ensures
            r == Category::Database,
    {
        Category::Database
    }

    /// Encodes the key.
    pub fn encode_key(&self) -> (r: Vec<u8>)
        ensures
            r@ == self.key(),
    {
        let mut buf: Vec<u8> = Vec::new();
        buf.push(SLASH);
        buf.push(STAR);
        put_str(&mut buf, self.ns);
        buf.push(BANG);
        buf.push(0x64u8);
        buf.push(0x62u8);
        put_str(&mut buf, self.db);
        assert(buf@ =~= self.key());
        buf
    }
}

} // verus!
