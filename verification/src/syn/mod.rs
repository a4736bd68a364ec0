//! The parser of the statements that define schema objects.

pub mod error;
pub mod parser;
pub mod token;
