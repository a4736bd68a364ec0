//! The parts of the query language that the document pipeline works on.

pub mod access_type;
pub mod algorithm;
pub mod base;
pub mod changefeed;
pub mod filter;
pub mod index;
pub mod kind;
pub mod limit;
pub mod part;
pub mod permission;
pub mod reference;
pub mod statements;
pub mod table_type;
pub mod tokenizer;
pub mod user;
