//! Keys of the objects that belong to a table.

pub mod fd;
pub mod ix;
