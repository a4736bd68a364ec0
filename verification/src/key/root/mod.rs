//! Keys of the objects that belong to no namespace.

pub mod ns;
