//! The dead letter queue: events that failed, kept for a later retry.

pub mod memory;
pub mod redis_storage;
pub mod queue;
