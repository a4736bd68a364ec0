//! The levels at which something is defined.

use vstd::prelude::*;

verus! {

/// The level at which a user or an access method is defined.
#[derive(Clone, Debug, PartialEq, Eq)]
pub enum Base {
    Root,
    Ns,
    Db,
    /// A scope of a database, as older versions of the language had them.
    Sc(String),
}

} // verus!
