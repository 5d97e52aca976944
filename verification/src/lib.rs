//! Retrieval pipeline core: character windows over document text, embedding
//! backends with a checked batching contract and a hashed bag-of-words
//! embedder, the stored text forms of the records, and top-k ranking by
//! score.

pub mod chunker;
pub mod cli;
pub mod embedder;
pub mod ingest;
pub mod models;
pub mod query;
pub mod ranking;
pub mod rows;
pub mod text;
