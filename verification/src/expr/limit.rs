//! The `LIMIT` clause.

use vstd::prelude::*;
use crate::err::Error;
use crate::val::Value;

verus! {

/// The greatest number of records that a query returns.
#[derive(Debug, PartialEq, Eq)]
pub struct Limit(pub Value);

impl Limit {
    /// The limit as a number: the value of the clause, where it is an integer
    /// from 0 to 4294967295. Every other value is an error that holds it.
    pub fn process(&self) -> (r: Result<u32, Error>)
        ensures
            match r {
                Ok(n) => self.0@ == crate::val::ValueView::Number(n as i64),
                Err(e) => !(self.0@ matches crate::val::ValueView::Number(v) && 0 <= v <= u32::MAX)
                    && (e matches Error::InvalidLimit { value } && value@ == self.0@),
            },
    {
        match &self.0 {
            // This is a valid limiting number
            Value::Number(v) if *v >= 0 => {
                if *v > u32::MAX as i64 {
                    Err(Error::InvalidLimit { value: self.0.duplicate() })
                } else {
                    Ok(*v as u32)
                }
            },
            // An invalid value was specified
            v => Err(Error::InvalidLimit { value: v.duplicate() }),
        }
    }
}

} // verus!
