//! Batch submission with `sbatch`: command lines, job tracking and its caches.
pub mod cmd;
pub mod env;
pub mod error;
pub mod handle;
pub mod manager;
pub mod parse;
pub mod query_cache;
pub mod query_shape;
pub mod tail;
