//! Index maintenance, edge materialisation, key encoding and id allocation
//! for a multi-model document store.

pub mod dbs;
pub mod doc;
pub mod err;
pub mod expr;
pub mod idg;
pub mod idx;
pub mod key;
pub mod kvs;
pub mod syn;
pub mod val;
