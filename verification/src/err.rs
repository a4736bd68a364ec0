//! The errors that the library reports.

use vstd::prelude::*;
use crate::val::{Thing, Value};

verus! {

/// What can go wrong while a document is written.
#[derive(Debug, PartialEq, Eq)]
pub enum Error {
    /// The transaction was committed or cancelled before.
    TxFinished,
    /// The transaction does not accept writes.
    TxReadonly,
    /// The value under a key is not the one that a conditional write expected.
    TxConditionNotMet,
    /// There is a value under a key that had to be absent.
    TxKeyAlreadyExists,
    /// No namespace was selected.
    NsEmpty,
    /// No database was selected.
    DbEmpty,
    /// The document has no record id.
    IdMissing,
    /// A unique index holds the tuple `value` already, for the record `thing`.
    IndexExists { thing: Thing, index: String, value: Value },
    /// An entry of a unique index does not hold a record id.
    IndexCorrupted { index: String },
    /// An enforced relation refers to the record `rid`, which does not exist.
    IdNotFound { rid: Thing },
    /// The build of an index was cancelled before it ended.
    IndexingBuildingCancelled,
    /// An index was to be built and no index builder is there.
    NoIndexBuilder,
    /// An index engine reported what it cannot report in the state that the
    /// maintenance is in.
    Unreachable,
    /// The state of an id allocator cannot be read or written.
    Serialization,
    /// The namespace exists already.
    NsAlreadyExists { name: String },
    /// The database exists already.
    DbAlreadyExists { name: String },
    /// The analyzer exists already.
    AzAlreadyExists { name: String },
    /// The analyzer does not exist.
    AzNotFound { name: String },
    /// The index exists already.
    IxAlreadyExists { name: String },
    /// The field exists already.
    FdAlreadyExists { name: String },
    /// The field does not exist.
    FdNotFound { name: String },
    /// The table does not exist.
    TbNotFound { name: String },
    /// The limit of a query is not an integer from 0 to 4294967295.
    InvalidLimit { value: Value },
    /// Some of the kinds of a field are references and some are not.
    RefsMismatchingVariants,
    /// A field whose kind is a reference has a clause that it cannot have.
    RefsTypeConflict { clause: RefsClause },
    /// A field with a `REFERENCE` clause has a kind that holds no record.
    ReferenceTypeConflict,
    /// The field `in` or `out` of a relation has a kind that is no record.
    RelationEndNotRecord { end: RelationEnd },
}

/// The ends of a relation.
#[derive(Clone, Copy, Debug, PartialEq, Eq, Structural)]
pub enum RelationEnd {
    /// The field `in`: where the edges come from.
    In,
    /// The field `out`: where the edges go to.
    Out,
}

/// The clauses that a field whose kind is a reference cannot have.
#[derive(Clone, Copy, Debug, PartialEq, Eq, Structural)]
pub enum RefsClause {
    Reference,
    Default,
    Value,
    Assert,
    Flexible,
    Readonly,
}

} // verus!
