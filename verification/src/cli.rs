//! The command line, as plain data: what a run was asked to do.

use vstd::prelude::*;

verus! {

/// `std::path::PathBuf`, carried through as it is.
#[verifier::external_type_specification]
#[verifier::external_body]
pub struct ExPathBuf(std::path::PathBuf);

/// The options common to all commands, and the command itself.
#[derive(Debug)]
pub struct Cli {
    /// Path to the database file.
    pub db: std::path::PathBuf,
    /// Key for the remote embedding provider; without it the local embedder is used.
    pub openai_api_key: Option<String>,
    /// Model identifier for the remote embedding provider.
    pub openai_model: String,
    pub command: Commands,
}

/// What to do.
#[derive(Debug)]
pub enum Commands {
    /// Ingest documents into the store.
    Ingest {
        /// Files or directories to ingest.
        paths: Vec<std::path::PathBuf>,
        /// Target chunk size in characters.
        chunk_size: usize,
        /// Overlap between consecutive chunks in characters.
        overlap: usize,
    },
    /// Query the corpus.
    Query {
        /// Natural-language question.
        question: String,
        /// Number of chunks to retrieve.
        top_k: usize,
        /// Only show raw chunks.
        raw_only: bool,
    },
    /// Show corpus statistics.
    Stats {},
}

/// The embedding backend that a run uses.
#[derive(Debug)]
pub enum Backend {
    /// The remote provider, with its key and model identifier.
    Remote { api_key: String, model: String },
    /// The local hash embedder with `dim` buckets.
    Local { dim: usize },
}

/// What `Cli::backend` chooses: the remote provider when a key is at hand,
/// the key of the command line before that of the environment; without a key
/// the local embedder with 256 buckets.
pub open spec fn chosen_backend(
    cli_key: Option<String>,
    env_key: Option<String>,
    model: String,
) -> Backend {
    match cli_key {
        Some(k) => Backend::Remote { api_key: k, model },
        None => match env_key {
            Some(k) => Backend::Remote { api_key: k, model },
            None => Backend::Local { dim: 256 },
        },
    }
}

impl Cli {
    /// Chooses the embedding backend, given the key found in the
    /// environment, if any.
    pub fn backend(&self, env_key: Option<String>) -> (b: Backend)
        ensures
            b == chosen_backend(self.openai_api_key, env_key, self.openai_model),
    {
        match &self.openai_api_key {
            Some(k) => Backend::Remote { api_key: k.clone(), model: self.openai_model.clone() },
            None => match env_key {
                Some(k) => Backend::Remote { api_key: k, model: self.openai_model.clone() },
                None => Backend::Local { dim: 256 },
            },
        }
    }
}

} // verus!
