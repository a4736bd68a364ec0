//! The `DEFINE` statements.

use vstd::prelude::*;
use crate::val::{Value, ValueView, fields_view, lemma_object_view};

pub mod access;
pub mod analyzer;
pub mod config;
pub mod database;
pub mod field;
pub mod index;
pub mod namespace;
pub mod sequence;
pub mod table;
pub mod user;

pub use access::DefineAccessStatement;
pub use analyzer::DefineAnalyzerStatement;
pub use config::DefineConfigStatement;
pub use database::DefineDatabaseStatement;
pub use field::DefineFieldStatement;
pub use index::DefineIndexStatement;
pub use namespace::DefineNamespaceStatement;
pub use sequence::DefineSequenceStatement;
pub use table::DefineTableStatement;
pub use user::DefineUserStatement;

verus! {

/// What a `DEFINE` statement does.
#[derive(Clone, Copy, Debug, PartialEq, Eq, Structural)]
pub enum Verdict {
    /// What is defined stays as it is, and the statement ends well.
    Keep,
    /// The statement fails: what it defines exists already.
    Refuse,
    /// The definition is written.
    Write,
}

/// What a `DEFINE` statement does, given whether what it defines exists,
/// whether it says `IF NOT EXISTS` or `OVERWRITE`, and whether it is part of
/// an import.
pub open spec fn define_verdict(exists: bool, if_not_exists: bool, overwrite: bool, import: bool) -> Verdict {
    if exists && if_not_exists {
        Verdict::Keep
    } else if exists && !overwrite && !import {
        Verdict::Refuse
    } else {
        Verdict::Write
    }
}

/// What a `DEFINE` statement does.
pub fn verdict(exists: bool, if_not_exists: bool, overwrite: bool, import: bool) -> (r: Verdict)
    ensures
        r == define_verdict(exists, if_not_exists, overwrite, import),
{
    // Check if the definition exists
    if exists {
        if if_not_exists {
            return Verdict::Keep;
        } else if !overwrite && !import {
            return Verdict::Refuse;
        }
    }
    Verdict::Write
}

/// A copy of an optional text.
pub fn copy_text(t: &Option<String>) -> (r: Option<String>)
    ensures
        r == *t,
{
    match t {
        Some(s) => Some(s.clone()),
        None => None,
    }
}

/// The object that holds a name and, where there is one, a comment.
pub fn name_and_comment(name: String, comment: Option<String>) -> (r: Value)
    ensures
        r@ == ValueView::Object(
            match comment {
                Some(c) => seq![("comment"@, ValueView::Strand(c@)), ("name"@, ValueView::Strand(name@))],
                None => seq![("name"@, ValueView::Strand(name@))],
            },
        ),
{
    let mut fields: Vec<(String, Value)> = Vec::new();
    if let Some(c) = comment {
        fields.push(("comment".to_owned(), Value::Strand(c)));
    }
    fields.push(("name".to_owned(), Value::Strand(name)));
    proof {
        lemma_object_view(fields);
        assert(fields_view(fields@) =~= match comment {
            Some(c) => seq![("comment"@, ValueView::Strand(c@)), ("name"@, ValueView::Strand(name@))],
            None => seq![("name"@, ValueView::Strand(name@))],
        });
    }
    Value::Object(fields)
}

} // verus!
