//! The parsers of statements.

pub mod define;
pub mod grammar;
