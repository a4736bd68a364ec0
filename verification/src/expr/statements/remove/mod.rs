//! The `REMOVE` statements.

pub mod analyzer;

pub use analyzer::RemoveAnalyzerStatement;
