//! An in-memory nearest-neighbour search library over dense numeric vectors.
//!
//! Clients store vectors (optionally with an attached text payload), retrieve
//! them by identifier, and issue similarity queries that return the k most
//! similar stored vectors, ranked descending by similarity score.
//!
//! Similarity scores enter the core as order-preserving unsigned keys (a
//! larger key means "more similar"), and the components of a stored vector
//! are carried as opaque 32-bit encodings. Producing a score key from two
//! raw vectors is the similarity metric's concern and happens outside the
//! verified core; everything downstream of the scores — the bounded top-k
//! selection, the store, and the scan — is verified here.

pub mod data_structures;
pub mod nearest_neighbours;
pub mod search;
pub mod settings;
pub mod similarity;
pub mod store;
pub mod types;

pub use types::{Embedding, EmbeddingEntry, Neighbour};
