//! The categories of keys.

use vstd::prelude::*;

verus! {

/// What the value under a key is.
#[derive(Clone, Copy, Debug, PartialEq, Eq, Structural)]
pub enum Category {
    /// The definition of a namespace.
    Namespace,
    /// The definition of a database.
    Database,
    /// The definition of an analyzer.
    DatabaseAnalyzer,
    /// The definition of a table.
    DatabaseTable,
    /// The definition of a field.
    TableField,
    /// The definition of an index.
    TableIndex,
    /// A record.
    Thing,
    /// A pointer of a graph edge.
    Graph,
    /// An entry of an index.
    Index,
    /// The documents of a term of a full-text index.
    IndexTermDocList,
    /// The records of a vector of a similarity index.
    IndexHnswVec,
}

} // verus!
