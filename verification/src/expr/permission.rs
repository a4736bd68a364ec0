//! Who may do what with a table or a field.

use vstd::prelude::*;
use crate::val::Value;

verus! {

/// Whether something is permitted.
#[derive(Debug, PartialEq, Eq)]
pub enum Permission {
    /// To nobody.
    Nobody,
    /// To everybody.
    Full,
    /// Where this condition holds.
    Specific(Value),
}

/// The permissions for the four kinds of access.
#[derive(Debug, PartialEq, Eq)]
pub struct Permissions {
    pub select: Permission,
    pub create: Permission,
    pub update: Permission,
    pub delete: Permission,
}

impl Permissions {
    /// Everything is permitted to everybody.
    pub fn full() -> (r: Permissions)
        ensures
            r.select is Full,
            r.create is Full,
            r.update is Full,
            r.delete is Full,
    {
        Permissions {
            select: Permission::Full,
            create: Permission::Full,
            update: Permission::Full,
            delete: Permission::Full,
        }
    }
}

} // verus!
