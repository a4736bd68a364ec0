//! The kinds of index and their parameters.

use vstd::prelude::*;

verus! {

/// How a full-text index scores a match. The parameters of the BM25 formula
/// are held by their IEEE 754 bit patterns.
#[derive(Clone, Copy, Debug, PartialEq, Eq, Structural)]
pub enum Scoring {
    Bm { k1: u32, b: u32 },
    Vs,
}

/// How a similarity index measures the distance of two vectors.
#[derive(Clone, Copy, Debug, PartialEq, Eq, Structural)]
pub enum Distance {
    Chebyshev,
    Cosine,
    Euclidean,
    Hamming,
    Jaccard,
    Manhattan,
    Minkowski(i64),
    Pearson,
}

/// The type of the components of the vectors of a similarity index.
#[derive(Clone, Copy, Debug, PartialEq, Eq, Structural)]
pub enum VectorType {
    F64,
    F32,
    I64,
    I32,
    I16,
}

/// The parameters of a legacy full-text index.
#[derive(Clone, Debug, PartialEq, Eq)]
pub struct SearchParams {
    pub az: String,
    pub hl: bool,
    pub sc: Scoring,
    pub doc_ids_order: u32,
    pub doc_lengths_order: u32,
    pub postings_order: u32,
    pub terms_order: u32,
    pub doc_ids_cache: u32,
    pub doc_lengths_cache: u32,
    pub postings_cache: u32,
    pub terms_cache: u32,
}

/// The parameters of a full-text index.
#[derive(Clone, Debug, PartialEq, Eq)]
pub struct FullTextParams {
    pub az: String,
    pub hl: bool,
    pub sc: Scoring,
}

/// The parameters of an M-tree index.
#[derive(Clone, Copy, Debug, PartialEq, Eq, Structural)]
pub struct MTreeParams {
    pub dimension: u16,
    pub distance: Distance,
    pub vector_type: VectorType,
    pub capacity: u16,
    pub doc_ids_order: u32,
    pub doc_ids_cache: u32,
    pub mtree_cache: u32,
}

/// The parameters of an HNSW index. The level multiplier `ml` is held by its
/// IEEE 754 bit pattern.
#[derive(Clone, Copy, Debug, PartialEq, Eq, Structural)]
pub struct HnswParams {
    pub dimension: u16,
    pub distance: Distance,
    pub vector_type: VectorType,
    pub m: u8,
    pub m0: u8,
    pub ml: u64,
    pub ef_construction: u16,
    pub extend_candidates: bool,
    pub keep_pruned_connections: bool,
}

/// The kind of an index.
#[derive(Clone, Debug, PartialEq, Eq)]
pub enum Index {
    /// Entries ordered by value; a value may belong to many records.
    Idx,
    /// Entries ordered by value; a value belongs to one record.
    Uniq,
    /// The legacy inverted full-text index.
    Search(SearchParams),
    /// An M-tree over vectors.
    MTree(MTreeParams),
    /// An HNSW graph over vectors.
    Hnsw(HnswParams),
    /// The inverted full-text index.
    FullText(FullTextParams),
}

} // verus!
