//! What the index engines and the index builder share with the document
//! pipeline.

pub mod builder;
pub mod vector;
