//! How an analyzer changes its tokens.

use vstd::prelude::*;

verus! {

/// A language that the stemmer knows.
#[derive(Clone, Copy, Debug, PartialEq, Eq, Structural)]
pub enum Language {
    Arabic,
    Danish,
    Dutch,
    English,
    French,
    German,
    Greek,
    Hungarian,
    Italian,
    Norwegian,
    Portuguese,
    Romanian,
    Russian,
    Spanish,
    Swedish,
    Tamil,
    Turkish,
}

/// A rule that changes the tokens of a text.
#[derive(Clone, Debug, PartialEq, Eq)]
pub enum Filter {
    Ascii,
    EdgeNgram(u16, u16),
    Lowercase,
    Ngram(u16, u16),
    Snowball(Language),
    Uppercase,
    Mapper(String),
}

} // verus!
