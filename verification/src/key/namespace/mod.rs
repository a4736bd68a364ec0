//! Keys of the objects that belong to a namespace.

pub mod db;
