//! Chunk rows of the older file-based index.
use vstd::prelude::*;

verus! {

/// A stored chunk of a file.
#[derive(Debug, Clone)]
pub struct Chunk {
    pub chunk_id: i64,
    pub file_path: String,
    pub chunk_index: i64,
    pub chunk_text: Option<String>,
    pub token_count: Option<i64>,
    /// Little-endian `f32` embedding bytes.
    pub embedding: Vec<u8>,
}

/// Row inserted for a chunk.
#[derive(Debug, Clone)]
pub struct ChunkInsertRow {
    pub chunk_index: i64,
    pub text: String,
    pub tokens: i64,
    /// Little-endian `f32` embedding bytes.
    pub embedding: Vec<u8>,
}

/// A named kind of chunk.
#[derive(Debug, Clone)]
pub struct ChunkKind {
    pub name: String,
}

} // verus!
