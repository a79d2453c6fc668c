//! Writing to Meilisearch.

pub mod adapter;
pub mod circuit_breaker;
pub mod protected;
pub mod meilisearch;
