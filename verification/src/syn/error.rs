//! The errors of the parser.

use vstd::prelude::*;
use crate::syn::token::Keyword;

verus! {

/// What the parser looked for.
#[derive(Clone, Copy, Debug, PartialEq, Eq, Structural)]
pub enum Expected {
    Keyword(Keyword),
    Identifier,
    Strand,
    /// A whole number that fits the place.
    Integer,
    Duration,
    OpenParen,
    CloseParen,
    Comma,
    PathSeparator,
    Language,
    /// `NAMESPACE`, `DATABASE`, `ROOT` or, where it is allowed, `SCOPE`.
    Base,
    /// The keyword that names what a statement defines.
    DefineKeyword,
    /// `API` or `GRAPHQL`.
    ConfigKind,
    /// The name of a table.
    TableConfig,
    /// `NONE`, `AUTO`, `INCLUDE` or `EXCLUDE`.
    Selection,
    Filter,
    Tokenizer,
    /// `Viewer`, `Editor` or `Owner`.
    Role,
    /// A duration: a token cannot last for ever.
    TokenDuration,
    /// `ALGORITHM` or `URL`.
    AlgorithmOrUrl,
    /// The name of an algorithm.
    ValidAlgorithm,
    /// The name of an algorithm, or `JWKS`.
    AlgorithmOrJwks,
    /// The algorithm that verifies, or none.
    CompatibleAlgorithm,
    /// The key that verifies, or none.
    SymmetricKey,
}

/// A token that the parser did not look for.
#[derive(Clone, Copy, Debug, PartialEq, Eq, Structural)]
pub struct SyntaxError {
    /// The position of the token among the tokens; their number at the end of
    /// the input.
    pub at: usize,
    /// What the parser looked for.
    pub expected: Expected,
}

} // verus!
