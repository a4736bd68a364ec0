//! Statements that define and remove schema objects.

pub mod define;
pub mod remove;
