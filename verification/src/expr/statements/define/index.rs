//! `DEFINE INDEX`.

use vstd::prelude::*;
use crate::dbs::Options;
use crate::err::Error;
use crate::expr::index::Index;
use crate::expr::part::{Idioms, Part};
use crate::expr::statements::define::table::DefineTableStatement;
use crate::expr::statements::define::{Verdict, define_verdict};
use crate::idx::builder::IndexBuilder;
use crate::key::table::ix::ix_key;
use crate::kvs::Key;

verus! {

/// The definition of an index: its name, the table it belongs to, its
/// columns in order, and its kind.
#[derive(Clone, Debug, PartialEq, Eq)]
pub struct DefineIndexStatement {
    pub name: String,
    pub what: String,
    pub cols: Idioms,
    pub index: Index,
    pub comment: Option<String>,
    pub if_not_exists: bool,
    pub overwrite: bool,
    pub concurrently: bool,
}

/// What a `DEFINE INDEX` statement writes.
#[derive(Debug, PartialEq, Eq)]
pub struct IndexWrite {
    /// Whether the index was defined before: what is cached of it is to be
    /// dropped.
    pub replaces: bool,
    /// The key under which the definition is stored.
    pub key: Key,
    /// The definition to store.
    pub definition: DefineIndexStatement,
    /// Whether the statement waits for the index to be built.
    pub blocking: bool,
}

/// Whether `name` is among the names.
pub open spec fn is_defined(fields: Seq<String>, name: Seq<char>) -> bool {
    exists|i: int| 0 <= i < fields.len() && (#[trigger] fields[i])@ == name
}

/// The field that column `c` starts with, where it starts with one.
pub open spec fn first_field(cols: Idioms, c: int) -> Option<Seq<char>> {
    if cols.0@[c].0@.len() > 0 && cols.0@[c].0@[0] is Field {
        Some(cols.0@[c].0@[0]->Field_0@)
    } else {
        None
    }
}

/// The first column from position `c` on that starts with a field that is
/// not defined.
pub open spec fn first_undefined(cols: Idioms, fields: Seq<String>, c: int) -> Option<int>
    decreases cols.0@.len() - c,
{
    if c < 0 || c >= cols.0@.len() {
        None
    } else if first_field(cols, c) is Some && !is_defined(fields, first_field(cols, c)->0) {
        Some(c)
    } else {
        first_undefined(cols, fields, c + 1)
    }
}

/// Whether `name` is among the names.
fn defined(fields: &Vec<String>, name: &String) -> (r: bool)
    ensures
        r == is_defined(fields@, name@),
{
    let mut i: usize = 0;
    while i < fields.len()
        invariant
            i <= fields.len(),
            forall|j: int| 0 <= j < i ==> (#[trigger] fields[j])@ != name@,
        decreases fields.len() - i,
    {
        if fields[i] == *name {
            return true;
        }
        i += 1;
    }
    false
}

/// What a statement that waited for a build received.
#[derive(Debug, PartialEq, Eq)]
pub enum Received {
    /// The build was cancelled: it sent nothing.
    Cancelled,
    /// The build came to its end with this result.
    Ended(Result<(), Error>),
}

impl DefineIndexStatement {
    /// What is stored for the statement: the definition without the clauses
    /// that say what to do where it exists and how to build it.
    pub open spec fn stored(&self) -> DefineIndexStatement {
        DefineIndexStatement {
            name: self.name,
            what: self.what,
            cols: self.cols,
            index: self.index,
            comment: self.comment,
            if_not_exists: false,
            overwrite: false,
            concurrently: false,
        }
    }

    /// Decides what the statement writes.
    ///
    /// `exists` tells whether the index is defined, `table` is what the
    /// lookup of the table gave, and `fields` are the names of the fields
    /// that are defined on the table.
    ///
    /// Where the index is defined, the statement writes nothing if it says
    /// `IF NOT EXISTS`, and fails unless it says `OVERWRITE` or is part of an
    /// import. An error of the lookup of the table is handed on, but that the
    /// table does not exist. On a table that accepts only defined fields,
    /// every column that starts with a field needs that field: the first
    /// that is not defined ends the statement.
    #[verifier::loop_isolation(false)]
    #[verifier::spinoff_prover]
    pub fn compute(
        self,
        opt: &Options,
        exists: bool,
        table: Result<&DefineTableStatement, Error>,
        fields: &Vec<String>,
    ) -> (r: Result<Option<IndexWrite>, Error>)
        ensures
            if !opt.has_ns_db() {
                r == Err::<Option<IndexWrite>, Error>(opt.ns_db_error())
            } else {
                match define_verdict(exists, self.if_not_exists, self.overwrite, opt.import) {
                    Verdict::Keep => r matches Ok(None),
                    Verdict::Refuse => r matches Err(Error::IxAlreadyExists { name }) && name
                        == self.name,
                    Verdict::Write => match table {
                        Err(e) if !(e is TbNotFound) => r == Err::<Option<IndexWrite>, Error>(e),
                        Ok(tb) if tb.full && first_undefined(self.cols, fields@, 0) is Some => r matches Err(
                            Error::FdNotFound { name },
                        ) && Some(name@) == first_field(
                            self.cols,
                            first_undefined(self.cols, fields@, 0)->0,
                        ),
                        _ => r matches Ok(Some(w)) && w.replaces == exists && w.key@ == ix_key(
                            opt.ns->0@,
                            opt.db->0@,
                            self.what@,
                            self.name@,
                        ) && w.definition == self.stored() && w.blocking == !self.concurrently,
                    },
                }
            },
    {
        // Get the NS and DB
        let (ns, db) = opt.ns_db()?;
        // Check if the definition exists
        if exists {
            if self.if_not_exists {
                return Ok(None);
            } else if !self.overwrite && !opt.import {
                return Err(Error::IxAlreadyExists { name: self.name.clone() });
            }
        }
        // Does the table exist?
        match table {
            Ok(tb) => {
                // Are we SchemaFull?
                if tb.full {
                    // Check that the fields exist
                    let mut c: usize = 0;
                    while c < self.cols.0.len()
                        invariant
                            c <= self.cols.0.len(),
                            first_undefined(self.cols, fields@, 0) == first_undefined(
                                self.cols,
                                fields@,
                                c as int,
                            ),
                        decreases self.cols.0.len() - c,
                    {
                        let idiom = &self.cols.0[c];
                        if idiom.0.len() > 0 {
                            if let Part::Field(first) = &idiom.0[0] {
                                if !defined(fields, first) {
                                    return Err(Error::FdNotFound { name: first.clone() });
                                }
                            }
                        }
                        c += 1;
                    }
                }
            },
            Err(e) => {
                let missing = match &e {
                    Error::TbNotFound { .. } => true,
                    _ => false,
                };
                if !missing {
                    return Err(e);
                }
            },
        }
        // Process the statement
        let key = crate::key::table::ix::new(
            ns,
            db,
            self.what.as_str(),
            self.name.as_str(),
        ).encode_key();
        let blocking = !self.concurrently;
        let definition = DefineIndexStatement {
            // Don't persist the `IF NOT EXISTS`, `OVERWRITE` and `CONCURRENTLY` clause to schema
            if_not_exists: false,
            overwrite: false,
            concurrently: false,
            ..self
        };
        Ok(Some(IndexWrite { replaces: exists, key, definition, blocking }))
    }

    /// Starts the build of the index.
    ///
    /// `ib` is the index builder, where there is one; that there is none is
    /// an error.
    pub fn async_index(&self, ib: &mut Option<IndexBuilder>) -> (r: Result<(), Error>)
        ensures
            match *old(ib) {
                Some(b) => r is Ok && *final(ib) is Some && final(ib)->0.queue() == b.queue()
                    && forall|tb: Seq<char>, name: Seq<char>|
                    final(ib)->0.is_building(tb, name) == (b.is_building(tb, name) || (tb
                        == self.what@ && name == self.name@)),
                None => r == Err::<(), Error>(Error::NoIndexBuilder) && *final(ib) is None,
            },
    {
        match ib {
            Some(b) => {
                b.build(self);
                Ok(())
            },
            None => Err(Error::NoIndexBuilder),
        }
    }

    /// What the end of a build means for the statement that started it.
    ///
    /// `completion` is `None` where the statement did not wait for the
    /// build. A build that was cancelled is an error of its own, and the
    /// result of a build that came to its end is handed on as it is.
    pub fn build_result(completion: Option<Received>) -> (r: Result<(), Error>)
        ensures
            r == (match completion {
                None => Ok::<(), Error>(()),
                Some(Received::Cancelled) => Err::<(), Error>(Error::IndexingBuildingCancelled),
                Some(Received::Ended(res)) => res,
            }),
    {
        match completion {
            None => Ok(()),
            Some(Received::Cancelled) => Err(Error::IndexingBuildingCancelled),
            Some(Received::Ended(res)) => res,
        }
    }
}

} // verus!
