//! Storage keys: deterministic byte strings whose lexicographic order follows
//! the logical order of what they address.
//!
//! Every key starts with `/`. The keys of one table start with `*`, the
//! namespace, `*`, the database, `*` and the table, each name ended by a zero
//! byte. A marker then tells the categories of keys apart.

use vstd::prelude::*;
use crate::key::encode::{SLASH, STAR, PLUS, put_str, str_key};

pub mod category;
pub mod clean;
pub mod database;
pub mod encode;
pub mod graph;
pub mod index;
pub mod laws;
pub mod namespace;
pub mod order;
pub mod root;
pub mod table;
pub mod thing;

verus! {

/// What the keys of one database start with.
pub open spec fn database_base(ns: Seq<char>, db: Seq<char>) -> Seq<u8> {
    seq![SLASH, STAR] + str_key(ns) + seq![STAR] + str_key(db)
}

/// What the keys of one table start with.
pub open spec fn table_base(ns: Seq<char>, db: Seq<char>, tb: Seq<char>) -> Seq<u8> {
    database_base(ns, db) + seq![STAR] + str_key(tb)
}

/// What the keys of one index start with.
pub open spec fn index_base(ns: Seq<char>, db: Seq<char>, tb: Seq<char>, ix: Seq<char>) -> Seq<
    u8,
> {
    table_base(ns, db, tb) + seq![PLUS] + str_key(ix)
}

/// Starts a key of a database.
pub fn put_database_base(buf: &mut Vec<u8>, ns: &str, db: &str)
    ensures
        final(buf)@ == old(buf)@ + database_base(ns@, db@),
{
    buf.push(SLASH);
    buf.push(STAR);
    put_str(buf, ns);
    buf.push(STAR);
    put_str(buf, db);
    assert(buf@ =~= old(buf)@ + database_base(ns@, db@));
}

/// Starts a key of a table.
pub fn put_table_base(buf: &mut Vec<u8>, ns: &str, db: &str, tb: &str)
    ensures
        final(buf)@ == old(buf)@ + table_base(ns@, db@, tb@),
{
    put_database_base(buf, ns, db);
    buf.push(STAR);
    put_str(buf, tb);
    assert(buf@ =~= old(buf)@ + table_base(ns@, db@, tb@));
}

/// Starts a key of an index.
pub fn put_index_base(buf: &mut Vec<u8>, ns: &str, db: &str, tb: &str, ix: &str)
    ensures
        final(buf)@ == old(buf)@ + index_base(ns@, db@, tb@, ix@),
{
    put_table_base(buf, ns, db, tb);
    buf.push(PLUS);
    put_str(buf, ix);
    assert(buf@ =~= old(buf)@ + index_base(ns@, db@, tb@, ix@));
}

} // verus!
