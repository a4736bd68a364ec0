//! The types of table.

use vstd::prelude::*;
use crate::expr::kind::Kind;

verus! {

/// What a relation table connects, and whether the records that an edge
/// connects must exist.
#[derive(Debug, PartialEq, Eq)]
pub struct Relation {
    pub from: Option<Kind>,
    pub to: Option<Kind>,
    pub enforced: bool,
}

/// The type of a table.
#[derive(Debug, PartialEq, Eq)]
pub enum TableType {
    Any,
    Normal,
    Relation(Relation),
}

impl TableType {
    /// Whether the table holds the edges of an enforced relation.
    pub open spec fn is_enforced(&self) -> bool {
        self matches TableType::Relation(r) && r.enforced
    }

    /// Whether the table holds the edges of an enforced relation.
    pub fn enforced(&self) -> (r: bool)
        ensures
            r == self.is_enforced(),
    {
        match self {
            TableType::Relation(r) => r.enforced,
            _ => false,
        }
    }
}

} // verus!
