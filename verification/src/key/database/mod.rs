//! Keys of the objects that belong to a database.

pub mod az;
pub mod tb;
