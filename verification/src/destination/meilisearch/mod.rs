//! The Meilisearch destination.

pub mod adapter;
pub mod batch_processor;
