//! The change feed of a database or a table.

use vstd::prelude::*;

verus! {

/// How long the changes are kept, in seconds, and whether the state before a
/// change is kept with it.
#[derive(Clone, Copy, Debug, PartialEq, Eq, Structural)]
pub struct ChangeFeed {
    pub expiry: u64,
    pub store_diff: bool,
}

} // verus!
