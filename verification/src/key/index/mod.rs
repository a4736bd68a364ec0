//! Keys of the entries of an index.

use vstd::prelude::*;
use crate::key::category::Category;
use crate::key::encode::{STAR, id_key, put_id, put_values, values_key};
use crate::key::{index_base, put_index_base};
use crate::val::{Array, Id, IdView, ValueView};

pub mod bc;
pub mod hv;

verus! {

/// The key of one entry of an index: the tuple `fd` and, where the index is
/// not unique, the identifier of the record that the entry belongs to.
#[derive(Debug, PartialEq, Eq)]
pub struct Index<'a> {
    pub ns: &'a str,
    pub db: &'a str,
    pub tb: &'a str,
    pub ix: &'a str,
    pub fd: &'a Array,
    pub id: Option<&'a Id>,
}

/// The bytes of an entry key: the index's base, `*`, the tuple, and the
/// optional identifier.
pub open spec fn entry_key(
    ns: Seq<char>,
    db: Seq<char>,
    tb: Seq<char>,
    ix: Seq<char>,
    fd: Seq<ValueView>,
    id: Option<IdView>,
) -> Seq<u8> {
    index_base(ns, db, tb, ix) + seq![STAR] + values_key(fd) + match id {
        None => seq![0x00u8],
        Some(id) => seq![0x01u8] + id_key(id),
    }
}

impl<'a> Index<'a> {
    /// The key of the entry `fd` of the index `ix` of table `tb`.
    pub fn new(
        ns: &'a str,
        db: &'a str,
        tb: &'a str,
        ix: &'a str,
        fd: &'a Array,
        id: Option<&'a Id>,
    ) -> (r: Self)
        ensures
            r == (Index { ns, db, tb, ix, fd, id }),
    {
        Index { ns, db, tb, ix, fd, id }
    }

    /// The bytes of the key.
    pub open spec fn key(self) -> Seq<u8> {
        entry_key(
            self.ns@,
            self.db@,
            self.tb@,
            self.ix@,
            self.fd@,
            match self.id {
                None => None,
                Some(id) => Some(id@),
            },
        )
    }

    /// The category of the key.
    pub fn categorise(&self) -> (r: Category)
        ensures
            r == Category::Index,
    {
        Category::Index
    }

    /// Encodes the key.
    pub fn encode_key(&self) -> (r: Vec<u8>)
        ensures
            r@ == self.key(),
    {
        let mut buf: Vec<u8> = Vec::new();
        put_index_base(&mut buf, self.ns, self.db, self.tb, self.ix);
        buf.push(STAR);
        put_values(&mut buf, &self.fd.0);
        match self.id {
            None => {
                buf.push(0x00u8);
            },
            Some(id) => {
                buf.push(0x01u8);
                put_id(&mut buf, id);
            },
        }
        assert(buf@ =~= self.key());
        buf
    }
}

} // verus!
