//! The options under which a statement runs.

use vstd::prelude::*;
use crate::err::Error;
use crate::expr::statements::define::DefineIndexStatement;

verus! {

/// Whether indexes are written even where a document did not change.
#[derive(Clone, Debug, PartialEq, Eq)]
pub enum Force {
    /// Every index of the table is written.
    All,
    /// Indexes are written where the document changed.
    Changed,
    /// These indexes are written, and no others.
    Index(Vec<DefineIndexStatement>),
}

/// The options under which a statement runs.
#[derive(Clone, Debug, PartialEq, Eq)]
pub struct Options {
    /// The selected namespace.
    pub ns: Option<String>,
    /// The selected database.
    pub db: Option<String>,
    /// Whether indexes are written where nothing changed.
    pub force: Force,
    /// Whether the statement is part of an import.
    pub import: bool,
    /// Whether missing namespaces, databases and tables are an error.
    pub strict: bool,
    /// The version under which the statement writes, where it names one.
    pub version: Option<u64>,
}

impl Options {
    /// Options with nothing selected.
    pub fn new() -> (r: Options)
        ensures
            r.ns is None,
            r.db is None,
            r.force is Changed,
            !r.import,
            !r.strict,
            r.version is None,
    {
        Options {
            ns: None,
            db: None,
            force: Force::Changed,
            import: false,
            strict: false,
            version: None,
        }
    }

    /// Whether a namespace and a database are selected.
    pub open spec fn has_ns_db(&self) -> bool {
        self.ns is Some && self.db is Some
    }

    /// The error that tells what is not selected.
    pub open spec fn ns_db_error(&self) -> Error {
        if self.ns is None {
            Error::NsEmpty
        } else {
            Error::DbEmpty
        }
    }

    /// The selected namespace.
    pub fn ns(&self) -> (r: Result<&str, Error>)
        ensures
            match r {
                Ok(ns) => self.ns matches Some(n) && n@ == ns@,
                Err(e) => self.ns is None && e == Error::NsEmpty,
            },
    {
        match &self.ns {
            Some(n) => Ok(n.as_str()),
            None => Err(Error::NsEmpty),
        }
    }

    /// The selected database.
    pub fn db(&self) -> (r: Result<&str, Error>)
        ensures
            match r {
                Ok(db) => self.db matches Some(d) && d@ == db@,
                Err(e) => self.db is None && e == Error::DbEmpty,
            },
    {
        match &self.db {
            Some(d) => Ok(d.as_str()),
            None => Err(Error::DbEmpty),
        }
    }

    /// The selected namespace and database.
    pub fn ns_db(&self) -> (r: Result<(&str, &str), Error>)
        ensures
            match r {
                Ok((ns, db)) => self.has_ns_db() && self.ns->0@ == ns@ && self.db->0@ == db@,
                Err(e) => !self.has_ns_db() && e == self.ns_db_error(),
            },
    {
        match (&self.ns, &self.db) {
            (Some(n), Some(d)) => Ok((n.as_str(), d.as_str())),
            (None, _) => Err(Error::NsEmpty),
            (Some(_), None) => Err(Error::DbEmpty),
        }
    }
}

} // verus!
