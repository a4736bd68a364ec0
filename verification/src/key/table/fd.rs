//! The key under which a field definition is stored.

use vstd::prelude::*;
use crate::key::category::Category;
use crate::key::encode::{BANG, put_str, str_key};
use crate::key::{put_table_base, table_base};

verus! {

/// The key of the definition of the field `fd` of the table `tb`.
#[derive(Clone, Debug, PartialEq, Eq)]
pub struct Fd<'a> {
    pub ns: &'a str,
    pub db: &'a str,
    pub tb: &'a str,
    pub fd: &'a str,
}

/// The key of the definition of the field `fd` of the table `tb`.
pub fn new<'a>(ns: &'a str, db: &'a str, tb: &'a str, fd: &'a str) -> (r: Fd<'a>)
    ensures
        r == (Fd { ns, db, tb, fd }),
{
    Fd { ns, db, tb, fd }
}

/// The bytes of the key: the table's base, `!fd`, the name.
pub open spec fn fd_key(ns: Seq<char>, db: Seq<char>, tb: Seq<char>, fd: Seq<char>) -> Seq<u8> {
    table_base(ns, db, tb) + seq![BANG, 0x66u8, 0x64u8] + str_key(fd)
}

impl<'a> Fd<'a> {
    /// The bytes of the key.
    pub open spec fn key(self) -> Seq<u8> {
        fd_key(self.ns@, self.db@, self.tb@, self.fd@)
    }

    /// The category of the key.
    pub fn categorise(&self) -> (r: Category)
        ensures
            r == Category::TableField,
    {
        Category::TableField
    }

    /// Encodes the key.
    pub fn encode_key(&self) -> (r: Vec<u8>)
        ensures
            r@ == self.key(),
    {
        let mut buf: Vec<u8> = Vec::new();
        put_table_base(&mut buf, self.ns, self.db, self.tb);
        buf.push(BANG);
        buf.push(0x66u8);
        buf.push(0x64u8);
        put_str(&mut buf, self.fd);
        assert(buf@ =~= self.key());
        buf
    }
}

} // verus!
