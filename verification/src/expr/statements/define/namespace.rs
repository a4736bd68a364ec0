//! `DEFINE NAMESPACE`.

use vstd::prelude::*;
use crate::dbs::Options;
use crate::err::Error;
use crate::expr::statements::define::{Verdict, copy_text, define_verdict, name_and_comment};
use crate::idg::{U32, has_ids, is_least};
use crate::key::root::ns::ns_key;
use crate::kvs::Key;
use crate::val::{Value, ValueView};

verus! {

/// The definition of a namespace.
#[derive(Clone, Debug, PartialEq, Eq)]
pub struct DefineNamespaceStatement {
    pub id: Option<u32>,
    pub name: String,
    pub comment: Option<String>,
    pub if_not_exists: bool,
    pub overwrite: bool,
}

impl DefineNamespaceStatement {
    /// The definition of the namespace `name`, with nothing else said.
    pub fn new(name: String) -> (r: Self)
        ensures
            r == (DefineNamespaceStatement {
                id: None,
                name,
                comment: None,
                if_not_exists: false,
                overwrite: false,
            }),
    {
        DefineNamespaceStatement {
            id: None,
            name,
            comment: None,
            if_not_exists: false,
            overwrite: false,
        }
    }

    /// What is stored for the statement: the definition with the given id,
    /// and without the clauses that say what to do where it exists.
    pub open spec fn stored(&self, id: Option<u32>) -> DefineNamespaceStatement {
        DefineNamespaceStatement {
            id,
            name: self.name,
            comment: self.comment,
            if_not_exists: false,
            overwrite: false,
        }
    }

    /// Decides what the statement writes.
    ///
    /// `exists` tells whether the namespace is defined, and `ids` hands out
    /// the ids of namespaces. Where the namespace is defined, the statement
    /// writes nothing if it says `IF NOT EXISTS`, and fails unless it says
    /// `OVERWRITE` or is part of an import. Otherwise the definition is
    /// written, with a new id where the statement gives none.
    pub fn compute(&self, opt: &Options, exists: bool, ids: &mut U32) -> (r: Result<
        Option<(Key, DefineNamespaceStatement)>,
        Error,
    >)
        requires
            self.id is None ==> old(ids).can_allocate(),
        ensures
            match define_verdict(exists, self.if_not_exists, self.overwrite, opt.import) {
                Verdict::Keep => r == Ok::<Option<(Key, DefineNamespaceStatement)>, Error>(None)
                    && *final(ids) == *old(ids),
                Verdict::Refuse => *final(ids) == *old(ids) && (r matches Err(
                    Error::NsAlreadyExists { name },
                ) && name == self.name),
                Verdict::Write => r matches Ok(Some((key, d))) && key@ == ns_key(self.name@)
                    && match self.id {
                    Some(id) => d == self.stored(Some(id)) && *final(ids) == *old(ids),
                    None => d.id is Some && d == self.stored(d.id) && ids_moved(
                        *old(ids),
                        *final(ids),
                        d.id->0,
                    ),
                },
            },
    {
        // Check if the definition exists
        if exists {
            if self.if_not_exists {
                return Ok(None);
            } else if !self.overwrite && !opt.import {
                return Err(Error::NsAlreadyExists { name: self.name.clone() });
            }
        }
        // Process the statement
        let id = match self.id {
            Some(id) => Some(id),
            None => Some(ids.get_next_id()),
        };
        let key = crate::key::root::ns::new(self.name.as_str()).encode_key();
        Ok(
            Some(
                (
                    key,
                    DefineNamespaceStatement {
                        id,
                        name: self.name.clone(),
                        comment: copy_text(&self.comment),
                        // Don't persist the `IF NOT EXISTS` clause to schema
                        if_not_exists: false,
                        overwrite: false,
                    },
                ),
            ),
        )
    }

    /// The definition as a value: its name and, where it has one, its
    /// comment.
    pub fn structure(self) -> (r: Value)
        ensures
            r@ == ValueView::Object(
                match self.comment {
                    Some(c) => seq![("comment"@, ValueView::Strand(c@)), ("name"@, ValueView::Strand(self.name@))],
                    None => seq![("name"@, ValueView::Strand(self.name@))],
                },
            ),
    {
        name_and_comment(self.name, self.comment)
    }
}

/// Whether the allocator handed out `id` between `before` and `after`.
pub open spec fn ids_moved(before: U32, after: U32, id: u32) -> bool {
    &&& after.state_key() == before.state_key()
    &&& after.updated()
    &&& if has_ids(before.available()) {
        &&& is_least(before.available(), id)
        &&& after.available() == before.available().remove(id)
        &&& after.next_id() == before.next_id()
    } else {
        &&& id == before.next_id()
        &&& after.next_id() == before.next_id() + 1
        &&& after.freed() == before.freed()
    }
}

} // verus!
