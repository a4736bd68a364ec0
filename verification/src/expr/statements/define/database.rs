//! `DEFINE DATABASE`.

use vstd::prelude::*;
use crate::dbs::Options;
use crate::err::Error;
use crate::expr::changefeed::ChangeFeed;
use crate::expr::statements::define::namespace::ids_moved;
use crate::expr::statements::define::{Verdict, copy_text, define_verdict, name_and_comment};
use crate::idg::U32;
use crate::key::namespace::db::db_key;
use crate::kvs::Key;
use crate::val::{Value, ValueView};

verus! {

/// The definition of a database.
#[derive(Clone, Debug, PartialEq, Eq)]
pub struct DefineDatabaseStatement {
    pub id: Option<u32>,
    pub name: String,
    pub comment: Option<String>,
    pub changefeed: Option<ChangeFeed>,
    pub if_not_exists: bool,
    pub overwrite: bool,
}

impl DefineDatabaseStatement {
    /// The definition of the database `name`, with nothing else said.
    pub fn new(name: String) -> (r: Self)
        ensures
            r == (DefineDatabaseStatement {
                id: None,
                name,
                comment: None,
                changefeed: None,
                if_not_exists: false,
                overwrite: false,
            }),
    {
        DefineDatabaseStatement {
            id: None,
            name,
            comment: None,
            changefeed: None,
            if_not_exists: false,
            overwrite: false,
        }
    }

    /// What is stored for the statement: the definition with the given id,
    /// and without the clauses that say what to do where it exists.
    pub open spec fn stored(&self, id: Option<u32>) -> DefineDatabaseStatement {
        DefineDatabaseStatement {
            id,
            name: self.name,
            comment: self.comment,
            changefeed: self.changefeed,
            if_not_exists: false,
            overwrite: false,
        }
    }

    /// Decides what the statement writes.
    ///
    /// `exists` tells whether the database is defined, `ns_id` is the id of
    /// the namespace, and `ids` hands out the ids of its databases. Where the
    /// database is defined, the statement writes nothing if it says
    /// `IF NOT EXISTS`, and fails unless it says `OVERWRITE` or is part of an
    /// import. Otherwise the definition is written: with the id of the
    /// statement, or with a new id where the namespace has one, or without.
    pub fn compute(&self, opt: &Options, exists: bool, ns_id: Option<u32>, ids: &mut U32) -> (r:
        Result<Option<(Key, DefineDatabaseStatement)>, Error>)
        requires
            self.id is None && ns_id is Some ==> old(ids).can_allocate(),
        ensures
            if opt.ns is None {
                r == Err::<Option<(Key, DefineDatabaseStatement)>, Error>(Error::NsEmpty) && *final(ids)
                    == *old(ids)
            } else {
                match define_verdict(exists, self.if_not_exists, self.overwrite, opt.import) {
                    Verdict::Keep => r == Ok::<Option<(Key, DefineDatabaseStatement)>, Error>(None)
                        && *final(ids) == *old(ids),
                    Verdict::Refuse => *final(ids) == *old(ids) && (r matches Err(
                        Error::DbAlreadyExists { name },
                    ) && name == self.name),
                    Verdict::Write => r matches Ok(Some((key, d))) && key@ == db_key(
                        opt.ns->0@,
                        self.name@,
                    ) && if self.id is None && ns_id is Some {
                        d.id is Some && d == self.stored(d.id) && ids_moved(
                            *old(ids),
                            *final(ids),
                            d.id->0,
                        )
                    } else {
                        d == self.stored(self.id) && *final(ids) == *old(ids)
                    },
                }
            },
    {
        // Get the NS
        let ns = opt.ns()?;
        // Check if the definition exists
        if exists {
            if self.if_not_exists {
                return Ok(None);
            } else if !self.overwrite && !opt.import {
                return Err(Error::DbAlreadyExists { name: self.name.clone() });
            }
        }
        // Process the statement
        let key = crate::key::namespace::db::new(ns, self.name.as_str()).encode_key();
        let id = match (self.id, ns_id) {
            (Some(id), _) => Some(id),
            (None, Some(_)) => Some(ids.get_next_id()),
            (None, None) => None,
        };
        Ok(
            Some(
                (
                    key,
                    DefineDatabaseStatement {
                        id,
                        name: self.name.clone(),
                        comment: copy_text(&self.comment),
                        changefeed: self.changefeed,
                        // Don't persist the `IF NOT EXISTS` clause to schema
                        if_not_exists: false,
                        overwrite: false,
                    },
                ),
            ),
        )
    }

    /// The definition as a value: its name and, where it has one, its
    /// comment.
    pub fn structure(self) -> (r: Value)
        ensures
            r@ == ValueView::Object(
                match self.comment {
                    Some(c) => seq![("comment"@, ValueView::Strand(c@)), ("name"@, ValueView::Strand(self.name@))],
                    None => seq![("name"@, ValueView::Strand(self.name@))],
                },
            ),
    {
        name_and_comment(self.name, self.comment)
    }
}

} // verus!
