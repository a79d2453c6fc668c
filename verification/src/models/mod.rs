//! The data that flows through the bridge.

pub mod event;
pub mod stream_event;
pub mod progress;
pub mod runtime;
