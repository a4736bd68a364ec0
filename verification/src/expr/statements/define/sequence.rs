//! `DEFINE SEQUENCE`.

use vstd::prelude::*;

verus! {

/// The definition of a sequence: how many numbers a node takes at once, the
/// first number, and how long a node waits for its numbers, in seconds.
#[derive(Clone, Debug, PartialEq, Eq)]
pub struct DefineSequenceStatement {
    pub name: String,
    pub if_not_exists: bool,
    pub overwrite: bool,
    pub batch: u32,
    pub start: i64,
    pub timeout: Option<u64>,
}

} // verus!
