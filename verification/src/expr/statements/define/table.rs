//! `DEFINE TABLE`.

use vstd::prelude::*;
use crate::expr::table_type::TableType;

verus! {

/// The definition of a table.
#[derive(Debug, PartialEq, Eq)]
pub struct DefineTableStatement {
    pub id: Option<u32>,
    pub name: String,
    /// Whether the table keeps no records: it is a view, or it drops what is
    /// written to it.
    pub drop: bool,
    /// Whether the table accepts only the fields that are defined.
    pub full: bool,
    pub kind: TableType,
    pub comment: Option<String>,
    pub if_not_exists: bool,
    pub overwrite: bool,
}

} // verus!
