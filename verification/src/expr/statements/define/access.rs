//! `DEFINE ACCESS`.

use vstd::prelude::*;
use crate::expr::access_type::{AccessDuration, AccessType};
use crate::expr::base::Base;
use crate::val::Value;

verus! {

/// The definition of an access method.
#[derive(Debug, PartialEq, Eq)]
pub struct DefineAccessStatement {
    pub name: String,
    pub base: Base,
    pub kind: AccessType,
    pub authenticate: Option<Value>,
    pub duration: AccessDuration,
    pub comment: Option<String>,
    pub if_not_exists: bool,
    pub overwrite: bool,
}

} // verus!
