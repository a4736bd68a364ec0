//! The key under which a record is stored.

use vstd::prelude::*;
use crate::key::category::Category;
use crate::key::encode::{STAR, id_key, put_id};
use crate::key::{put_table_base, table_base};
use crate::val::Id;

verus! {

/// The key of the record `id` of table `tb`.
#[derive(Debug, PartialEq, Eq)]
pub struct Thing<'a> {
    pub ns: &'a str,
    pub db: &'a str,
    pub tb: &'a str,
    pub id: &'a Id,
}

/// The key of the record `id` of table `tb`.
pub fn new<'a>(ns: &'a str, db: &'a str, tb: &'a str, id: &'a Id) -> (r: Thing<'a>)
    ensures
        r == (Thing { ns, db, tb, id }),
{
    Thing { ns, db, tb, id }
}

impl<'a> Thing<'a> {
    /// The bytes of the key: the table's base, `*`, the identifier.
    pub open spec fn key(self) -> Seq<u8> {
        table_base(self.ns@, self.db@, self.tb@) + seq![STAR] + id_key(self.id@)
    }

    /// The category of the key.
    pub fn categorise(&self) -> (r: Category)
        ensures
            r == Category::Thing,
    {
        Category::Thing
    }

    /// Encodes the key.
    pub fn encode_key(&self) -> (r: Vec<u8>)
        ensures
            r@ == self.key(),
    {
        let mut buf: Vec<u8> = Vec::new();
        put_table_base(&mut buf, self.ns, self.db, self.tb);
        buf.push(STAR);
        put_id(&mut buf, self.id);
        assert(buf@ =~= self.key());
        buf
    }
}

} // verus!
