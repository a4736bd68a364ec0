//! The `REFERENCE` clause of a field.

use vstd::prelude::*;
use crate::val::Value;

verus! {

/// What happens to a record when a record that it refers to is deleted.
#[derive(Debug, PartialEq, Eq)]
pub enum ReferenceDeleteStrategy {
    Reject,
    Ignore,
    Cascade,
    Unset,
    Custom(Value),
}

/// The `REFERENCE` clause of a field.
#[derive(Debug, PartialEq, Eq)]
pub struct Reference {
    pub on_delete: ReferenceDeleteStrategy,
}

} // verus!
