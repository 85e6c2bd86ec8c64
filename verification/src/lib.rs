//! Embedding-and-indexing engine: turns text into dense and sparse vector
//! representations and plans consistent writes and nearest-neighbour reads
//! against a remote vector store.
//!
//! The crate owns the pure logic of the engine: sparse BM25-style encoding
//! with deterministic deduplication, alignment of batched embeddings with
//! their originating items, point construction keyed by UUID, mapping of
//! store query responses to caller-facing results, and the collection
//! bootstrap decisions. Network transport and the embedding-model runtime
//! sit outside, behind narrow trusted calls or the surrounding binary.

pub mod engine;
pub mod payload;
pub mod sparse;
pub mod uuidfmt;

pub use engine::Engine;
pub use engine::Item;
pub use engine::Point;
pub use engine::ScoredPoint;
pub use engine::SearchResult;
pub use payload::Value;
pub use sparse::Bm25Params;
pub use sparse::SparseVector;
