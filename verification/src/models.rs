//! The records of the corpus, as plain values.

use vstd::prelude::*;

verus! {

/// A point in time: whole seconds since the Unix epoch, and the nanoseconds
/// within that second.
#[derive(Debug, Clone, Copy, PartialEq, Eq, Structural)]
pub struct Timestamp {
    pub secs: i64,
    pub nanos: u32,
}

/// A single ingested document (file).
#[derive(Debug, Clone)]
pub struct Document {
    /// The document's identifier, as the 128-bit value of a UUID.
    pub id: u128,
    pub path: String,
    pub created_at: Timestamp,
}

/// A chunk of a document before it has an embedding.
#[derive(Debug, Clone)]
pub struct PendingChunk {
    pub doc_id: u128,
    pub chunk_index: i32,
    pub start_char: i32,
    pub end_char: i32,
    pub text: String,
}

/// A chunk of text derived from a document, with its embedding. The
/// embedding is carried as it comes from the embedding backend: the records
/// do not look inside it.
#[derive(Debug, Clone)]
pub struct Chunk<E> {
    pub id: u128,
    pub doc_id: u128,
    pub chunk_index: i32,
    pub text: String,
    pub embedding: E,
    pub start_char: i32,
    pub end_char: i32,
}

/// Result of a similarity search: a chunk, the path of its document, and
/// its similarity score as the bit pattern of a single-precision number.
#[derive(Debug, Clone)]
pub struct SearchResult<E> {
    pub chunk: Chunk<E>,
    pub document_path: String,
    pub score_bits: u32,
}

} // verus!
