//! The tokens that the parser reads.

use vstd::prelude::*;
use crate::expr::algorithm::Algorithm;
use crate::expr::filter::Language;

verus! {

/// A word of the language.
#[derive(Clone, Copy, Debug, PartialEq, Eq, Structural)]
pub enum Keyword {
    Access,
    Algorithm,
    Analyzer,
    Api,
    Ascii,
    Auto,
    Batch,
    Blank,
    Bucket,
    Camel,
    Changefeed,
    Class,
    Comment,
    Config,
    Database,
    Duration,
    Edgengram,
    Enforced,
    Event,
    Exclude,
    Exists,
    Field,
    Filters,
    Fn,
    For,
    From,
    Function,
    Functions,
    Graphql,
    If,
    In,
    Include,
    Index,
    Issuer,
    Jwks,
    Key,
    Lowercase,
    Mapper,
    Namespace,
    Ngram,
    Nothing,
    Not,
    On,
    Original,
    Out,
    Overwrite,
    Param,
    Passhash,
    Password,
    Punct,
    Roles,
    Root,
    Scope,
    Sequence,
    Session,
    Snowball,
    Start,
    Table,
    Tables,
    Timeout,
    To,
    Token,
    Tokenizers,
    Type,
    Uppercase,
    Url,
    User,
    Value,
    With,
}

/// What a token is.
#[derive(Clone, Debug, PartialEq, Eq)]
pub enum TokenKind {
    Keyword(Keyword),
    Algorithm(Algorithm),
    Language(Language),
    /// A name.
    Identifier(String),
    /// A text between quotes.
    Strand(String),
    /// A whole number.
    Integer(i64),
    /// A length of time, in seconds.
    Duration(u64),
    /// `(`
    OpenParen,
    /// `)`
    CloseParen,
    /// `,`
    Comma,
    /// `|`
    Pipe,
    /// `::`
    PathSeparator,
    /// What the lexer could not read.
    Invalid,
    /// The end of the input.
    Eof,
}

/// A token and the place where it stands in the source.
#[derive(Clone, Debug, PartialEq, Eq)]
pub struct Token {
    pub kind: TokenKind,
    pub offset: u32,
    pub len: u32,
}

/// What token `i` is; the end of the input where there is none.
pub open spec fn kind_at(tokens: Seq<Token>, i: int) -> TokenKind {
    if 0 <= i < tokens.len() {
        tokens[i].kind
    } else {
        TokenKind::Eof
    }
}

/// Whether token `i` is the keyword `k`.
pub open spec fn is_keyword(tokens: Seq<Token>, i: int, k: Keyword) -> bool {
    kind_at(tokens, i) == TokenKind::Keyword(k)
}

} // verus!
