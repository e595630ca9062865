//! Planning of the versioned write: shards, chunks, retries and statements.

pub mod plan;
pub mod query_builder;
pub mod retry;
pub mod rows;
