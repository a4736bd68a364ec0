//! The keys of the pointers that make up a graph edge.

use vstd::prelude::*;
use crate::key::category::Category;
use crate::key::encode::{TILDE, id_key, put_id, put_str, put_u32, str_key, u32_be};
use crate::key::{put_table_base, table_base};
use crate::val::{Id, Thing, ThingView};

verus! {

/// The direction of a pointer, seen from the record that owns it.
#[derive(Clone, Copy, Debug, PartialEq, Eq, Structural)]
pub enum Dir {
    In,
    Out,
    Both,
}

impl Dir {
    /// The position of the direction among the variants.
    pub open spec fn variant(self) -> u32 {
        match self {
            Dir::In => 0,
            Dir::Out => 1,
            Dir::Both => 2,
        }
    }
}

/// The key of the pointer from the record `id` of table `tb`, in direction
/// `eg`, to the record `fk` of table `ft`.
#[derive(Debug, PartialEq, Eq)]
pub struct Graph<'a> {
    pub ns: &'a str,
    pub db: &'a str,
    pub tb: &'a str,
    pub id: &'a Id,
    pub eg: Dir,
    pub ft: &'a str,
    pub fk: &'a Id,
}

/// The bytes of a pointer key: the table's base, `~`, the identifier, the
/// direction, the peer's table and the peer's identifier.
pub open spec fn graph_key(
    ns: Seq<char>,
    db: Seq<char>,
    from: ThingView,
    eg: Dir,
    to: ThingView,
) -> Seq<u8> {
    table_base(ns, db, from.tb) + seq![TILDE] + id_key(from.id) + u32_be(eg.variant()) + str_key(
        to.tb,
    ) + id_key(to.id)
}

/// The key of the pointer from the record `id` of table `tb`, in direction
/// `eg`, to the record `fk`.
pub fn new<'a>(ns: &'a str, db: &'a str, tb: &'a str, id: &'a Id, eg: &Dir, fk: &'a Thing) -> (r:
    Graph<'a>)
    ensures
        r.ns == ns,
        r.db == db,
        r.tb == tb,
        r.id == id,
        r.eg == *eg,
        r.ft@ == fk.tb@,
        r.fk == &fk.id,
{
    Graph { ns, db, tb, id, eg: *eg, ft: fk.tb.as_str(), fk: &fk.id }
}

impl<'a> Graph<'a> {
    /// The bytes of the key.
    pub open spec fn key(self) -> Seq<u8> {
        graph_key(
            self.ns@,
            self.db@,
            ThingView { tb: self.tb@, id: self.id@ },
            self.eg,
            ThingView { tb: self.ft@, id: self.fk@ },
        )
    }

    /// The category of the key.
    pub fn categorise(&self) -> (r: Category)
        ensures
            r == Category::Graph,
    {
        Category::Graph
    }

    /// Encodes the key.
    pub fn encode_key(&self) -> (r: Vec<u8>)
        ensures
            r@ == self.key(),
    {
        let mut buf: Vec<u8> = Vec::new();
        put_table_base(&mut buf, self.ns, self.db, self.tb);
        buf.push(TILDE);
        put_id(&mut buf, self.id);
        let eg: u32 = match self.eg {
            Dir::In => 0,
            Dir::Out => 1,
            Dir::Both => 2,
        };
        put_u32(&mut buf, eg);
        put_str(&mut buf, self.ft);
        put_id(&mut buf, self.fk);
        assert(buf@ =~= self.key());
        buf
    }
}

} // verus!
