//! Client-side data-ingestion augmentation for a columnar table store.
//!
//! Callers register named embedding functions in a registry, declare one of a
//! table's columns as an embedding column, and wrap any pull-based batch
//! source in a decorator that appends the computed embedding column to every
//! batch it yields.

pub mod embeddings;
pub mod error;
pub mod registry;
pub mod remote;
pub mod schema;
pub mod source;
pub mod table;

pub use error::Error;

