//! Stages of the event pipeline.

pub mod soft_delete;
pub mod filter;
pub mod cdc_coordinator;
pub mod memory_monitor;
pub mod streaming_processor;
pub mod adaptive_batching;
pub mod backpressure;
pub mod parallel_processor;
pub mod exactly_once_helpers;
pub mod startup_check;
pub mod mapper;
pub mod transformer;
pub mod orchestrator;
pub mod batch_delivery;
