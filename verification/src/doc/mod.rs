//! What happens to the indexes and the graph when a document is written.

use vstd::prelude::*;
use crate::err::Error;
use crate::val::{Thing, Value, ValueView};

pub mod combinator;
pub mod edges;
pub mod index;
pub mod laws;

verus! {

/// A view of a record at one point in time.
#[derive(Debug, PartialEq, Eq)]
pub struct CursorDoc {
    /// The id of the record, where it is known.
    pub rid: Option<Thing>,
    /// The fields of the record; `None` where there is no record.
    pub doc: Option<Value>,
}

impl CursorDoc {
    /// The model of the fields of the record.
    pub open spec fn doc_view(&self) -> Option<ValueView> {
        match self.doc {
            Some(d) => Some(d@),
            None => None,
        }
    }
}

/// What a statement brings along for a document.
#[derive(Debug, PartialEq, Eq)]
pub enum Workable {
    /// Nothing.
    Normal,
    /// The content to insert.
    Insert(Value),
    /// The two records that a relation connects, and the content to insert.
    Relate(Thing, Thing, Option<Value>),
}

/// A record while it is written: as it was and as it will be.
#[derive(Debug, PartialEq, Eq)]
pub struct Document {
    /// The id of the record.
    pub id: Option<Thing>,
    /// What the statement brought along.
    pub extras: Workable,
    /// The record before the statement.
    pub initial: CursorDoc,
    /// The record after the statement.
    pub current: CursorDoc,
}

/// Whether two optional values are the same.
pub fn same_doc(a: &Option<Value>, b: &Option<Value>) -> (r: bool)
    ensures
        r == (match (a, b) {
            (Some(x), Some(y)) => x@ == y@,
            (None, None) => true,
            _ => false,
        }),
{
    match (a, b) {
        (Some(x), Some(y)) => x.equals(y),
        (None, None) => true,
        _ => false,
    }
}

impl Document {
    /// A document with the given states.
    pub fn new(id: Option<Thing>, extras: Workable, initial: CursorDoc, current: CursorDoc) -> (r:
        Document)
        ensures
            r == (Document { id, extras, initial, current }),
    {
        Document { id, extras, initial, current }
    }

    /// The id of the record.
    pub fn id(&self) -> (r: Result<Thing, Error>)
        ensures
            match r {
                Ok(t) => self.id matches Some(id) && t@ == id@,
                Err(e) => self.id is None && e == Error::IdMissing,
            },
    {
        match &self.id {
            Some(id) => Ok(id.duplicate()),
            None => Err(Error::IdMissing),
        }
    }

    /// Whether the statement changed the record.
    pub open spec fn is_changed(&self) -> bool {
        self.initial.doc_view() != self.current.doc_view()
    }

    /// Whether the statement changed the record.
    pub fn changed(&self) -> (r: bool)
        ensures
            r == self.is_changed(),
    {
        !same_doc(&self.initial.doc, &self.current.doc)
    }
}

} // verus!
