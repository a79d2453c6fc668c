//! Configuration of the bridge.

pub mod api;
pub mod error_handling;
pub mod logging;
pub mod monitoring;
pub mod meilisearch;
pub mod redis;
pub mod source;
pub mod performance;
pub mod pipeline;
pub mod sync_task;
pub mod app;
pub mod validation;
pub mod loader;
