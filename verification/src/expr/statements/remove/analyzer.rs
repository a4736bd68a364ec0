//! `REMOVE ANALYZER`.

use vstd::prelude::*;
use crate::dbs::Options;
use crate::err::Error;
use crate::key::database::az::az_key;
use crate::kvs::Key;

verus! {

/// The removal of an analyzer.
#[derive(Clone, Debug, PartialEq, Eq)]
pub struct RemoveAnalyzerStatement {
    pub name: String,
    pub if_exists: bool,
}

impl RemoveAnalyzerStatement {
    /// Decides what the statement removes.
    ///
    /// `found` is what the lookup of the analyzer gave: the name under which
    /// it is defined, or the error of the lookup. That the analyzer is not
    /// defined is no error where the statement says `IF EXISTS`; every other
    /// error of the lookup is handed on. Otherwise the key of the definition
    /// is handed back, to be removed.
    pub fn compute(&self, opt: &Options, found: Result<String, Error>) -> (r: Result<
        Option<Key>,
        Error,
    >)
        ensures
            if !opt.has_ns_db() {
                r == Err::<Option<Key>, Error>(opt.ns_db_error())
            } else {
                match found {
                    Ok(name) => r matches Ok(Some(key)) && key@ == az_key(
                        opt.ns->0@,
                        opt.db->0@,
                        name@,
                    ),
                    Err(e) => if self.if_exists && e is AzNotFound {
                        r matches Ok(None)
                    } else {
                        r == Err::<Option<Key>, Error>(e)
                    },
                }
            },
    {
        let (ns, db) = opt.ns_db()?;
        // Get the definition
        let az = match found {
            Ok(x) => x,
            Err(e) => {
                let missing = match &e {
                    Error::AzNotFound { .. } => true,
                    _ => false,
                };
                if self.if_exists && missing {
                    return Ok(None);
                } else {
                    return Err(e);
                }
            },
        };
        // Delete the definition
        Ok(Some(crate::key::database::az::new(ns, db, az.as_str()).encode_key()))
    }
}

} // verus!
