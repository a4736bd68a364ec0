//! How an analyzer splits a text into tokens.

use vstd::prelude::*;

verus! {

/// A rule that splits a text into tokens.
#[derive(Clone, Copy, Debug, PartialEq, Eq, Structural)]
pub enum Tokenizer {
    Blank,
    Camel,
    Class,
    Punct,
}

} // verus!
