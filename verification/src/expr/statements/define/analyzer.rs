//! `DEFINE ANALYZER`.

use vstd::prelude::*;
use crate::dbs::Options;
use crate::err::Error;
use crate::expr::filter::Filter;
use crate::expr::statements::define::{Verdict, copy_text, define_verdict};
use crate::expr::tokenizer::Tokenizer;
use crate::key::database::az::az_key;
use crate::kvs::Key;

verus! {

/// The definition of an analyzer.
#[derive(Clone, Debug, PartialEq, Eq)]
pub struct DefineAnalyzerStatement {
    pub name: String,
    pub function: Option<String>,
    pub tokenizers: Option<Vec<Tokenizer>>,
    pub filters: Option<Vec<Filter>>,
    pub comment: Option<String>,
    pub if_not_exists: bool,
    pub overwrite: bool,
}

/// The tokenizers of a list, in order.
pub open spec fn tokenizers_view(t: Option<Vec<Tokenizer>>) -> Option<Seq<Tokenizer>> {
    match t {
        Some(v) => Some(v@),
        None => None,
    }
}

/// The filters of a list, in order.
pub open spec fn filters_view(f: Option<Vec<Filter>>) -> Option<Seq<Filter>> {
    match f {
        Some(v) => Some(v@),
        None => None,
    }
}

/// A copy of a list of tokenizers.
fn copy_tokenizers(t: &Option<Vec<Tokenizer>>) -> (r: Option<Vec<Tokenizer>>)
    ensures
        tokenizers_view(r) == tokenizers_view(*t),
{
    match t {
        None => None,
        Some(v) => {
            let mut out: Vec<Tokenizer> = Vec::new();
            let mut i: usize = 0;
            while i < v.len()
                invariant
                    i <= v.len(),
                    out@ == v@.subrange(0, i as int),
                decreases v.len() - i,
            {
                out.push(v[i]);
                i += 1;
                assert(out@ =~= v@.subrange(0, i as int));
            }
            assert(v@.subrange(0, i as int) =~= v@);
            Some(out)
        },
    }
}

/// A copy of a filter.
fn copy_filter(f: &Filter) -> (r: Filter)
    ensures
        r == *f,
{
    match f {
        Filter::Ascii => Filter::Ascii,
        Filter::EdgeNgram(a, b) => Filter::EdgeNgram(*a, *b),
        Filter::Lowercase => Filter::Lowercase,
        Filter::Ngram(a, b) => Filter::Ngram(*a, *b),
        Filter::Snowball(l) => Filter::Snowball(*l),
        Filter::Uppercase => Filter::Uppercase,
        Filter::Mapper(path) => Filter::Mapper(path.clone()),
    }
}

/// A copy of a list of filters.
fn copy_filters(f: &Option<Vec<Filter>>) -> (r: Option<Vec<Filter>>)
    ensures
        filters_view(r) == filters_view(*f),
{
    match f {
        None => None,
        Some(v) => {
            let mut out: Vec<Filter> = Vec::new();
            let mut i: usize = 0;
            while i < v.len()
                invariant
                    i <= v.len(),
                    out@ == v@.subrange(0, i as int),
                decreases v.len() - i,
            {
                out.push(copy_filter(&v[i]));
                i += 1;
                assert(out@ =~= v@.subrange(0, i as int));
            }
            assert(v@.subrange(0, i as int) =~= v@);
            Some(out)
        },
    }
}

impl DefineAnalyzerStatement {
    /// The definition of the analyzer `name`, with nothing else said.
    pub fn new(name: String) -> (r: Self)
        ensures
            r == (DefineAnalyzerStatement {
                name,
                function: None,
                tokenizers: None,
                filters: None,
                comment: None,
                if_not_exists: false,
                overwrite: false,
            }),
    {
        DefineAnalyzerStatement {
            name,
            function: None,
            tokenizers: None,
            filters: None,
            comment: None,
            if_not_exists: false,
            overwrite: false,
        }
    }

    /// Whether `d` is what is stored for the statement: the definition
    /// without the clauses that say what to do where it exists.
    pub open spec fn is_stored_as(&self, d: &DefineAnalyzerStatement) -> bool {
        &&& d.name == self.name
        &&& d.function == self.function
        &&& tokenizers_view(d.tokenizers) == tokenizers_view(self.tokenizers)
        &&& filters_view(d.filters) == filters_view(self.filters)
        &&& d.comment == self.comment
        &&& !d.if_not_exists
        &&& !d.overwrite
    }

    /// Decides what the statement writes.
    ///
    /// `exists` tells whether the analyzer is defined. Where it is, the
    /// statement writes nothing if it says `IF NOT EXISTS`, and fails unless
    /// it says `OVERWRITE` or is part of an import. Otherwise the definition
    /// is written.
    pub fn compute(&self, opt: &Options, exists: bool) -> (r: Result<
        Option<(Key, DefineAnalyzerStatement)>,
        Error,
    >)
        ensures
            if !opt.has_ns_db() {
                r == Err::<Option<(Key, DefineAnalyzerStatement)>, Error>(opt.ns_db_error())
            } else {
                match define_verdict(exists, self.if_not_exists, self.overwrite, opt.import) {
                    Verdict::Keep => r matches Ok(None),
                    Verdict::Refuse => r matches Err(Error::AzAlreadyExists { name }) && name
                        == self.name,
                    Verdict::Write => r matches Ok(Some((key, d))) && key@ == az_key(
                        opt.ns->0@,
                        opt.db->0@,
                        self.name@,
                    ) && self.is_stored_as(&d),
                }
            },
    {
        let (ns, db) = opt.ns_db()?;
        // Check if the definition exists
        if exists {
            if self.if_not_exists {
                return Ok(None);
            } else if !self.overwrite && !opt.import {
                return Err(Error::AzAlreadyExists { name: self.name.clone() });
            }
        }
        // Process the statement
        let key = crate::key::database::az::new(ns, db, self.name.as_str()).encode_key();
        let az = DefineAnalyzerStatement {
            name: self.name.clone(),
            function: copy_text(&self.function),
            tokenizers: copy_tokenizers(&self.tokenizers),
            filters: copy_filters(&self.filters),
            comment: copy_text(&self.comment),
            // Don't persist the `IF NOT EXISTS` clause to schema
            if_not_exists: false,
            overwrite: false,
        };
        Ok(Some((key, az)))
    }
}

} // verus!
