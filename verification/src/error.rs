//! The error type of the bridge and whether an error is worth retrying.

pub mod retry;

use vstd::prelude::*;
use crate::text::{concat2, contains_str, seq_contains};

verus! {

/// Errors of the bridge. Errors that come from outside libraries (I/O,
/// JSON, YAML, environment) carry their message text.
#[derive(Debug, Clone)]
pub enum MeiliBridgeError {
    Config(String),
    Configuration(String),
    Io(String),
    Serialization(String),
    Yaml(String),
    EnvVar(String),
    Validation(String),
    Source(String),
    Database(String),
    Meilisearch(String),
    Plugin(String),
    ChannelSend,
    ChannelReceive,
    Pipeline(String),
    NotFound(String),
    Redis(String),
    ResourceExhausted(String),
}

/// The message of an error, as its `Display` writes it.
pub open spec fn error_text(e: MeiliBridgeError) -> Seq<char> {
    match e {
        MeiliBridgeError::Config(m) => "Configuration error: "@ + m@,
        MeiliBridgeError::Configuration(m) => "Configuration error: "@ + m@,
        MeiliBridgeError::Io(m) => "IO error: "@ + m@,
        MeiliBridgeError::Serialization(m) => "Serialization error: "@ + m@,
        MeiliBridgeError::Yaml(m) => "YAML parsing error: "@ + m@,
        MeiliBridgeError::EnvVar(m) => "Environment variable error: "@ + m@,
        MeiliBridgeError::Validation(m) => "Validation error: "@ + m@,
        MeiliBridgeError::Source(m) => "Source error: "@ + m@,
        MeiliBridgeError::Database(m) => "Database error: "@ + m@,
        MeiliBridgeError::Meilisearch(m) => "Meilisearch error: "@ + m@,
        MeiliBridgeError::Plugin(m) => "Plugin error: "@ + m@,
        MeiliBridgeError::ChannelSend => "Channel send error"@,
        MeiliBridgeError::ChannelReceive => "Channel receive error"@,
        MeiliBridgeError::Pipeline(m) => "Pipeline error: "@ + m@,
        MeiliBridgeError::NotFound(m) => "Not found: "@ + m@,
        MeiliBridgeError::Redis(m) => "Redis error: "@ + m@,
        MeiliBridgeError::ResourceExhausted(m) => "Resource exhausted: "@ + m@,
    }
}

/// Whether a Meilisearch error message tells of a passing condition.
pub open spec fn transient_message(m: Seq<char>) -> bool {
    seq_contains(m, "timeout"@) || seq_contains(m, "connection"@) || seq_contains(m, "unavailable"@)
        || seq_contains(m, "Too Many Requests"@)
}

/// Whether an error is worth retrying: I/O and database errors always,
/// Meilisearch errors when the message tells of a passing condition.
pub open spec fn error_retryable(e: MeiliBridgeError) -> bool {
    match e {
        MeiliBridgeError::Io(_) => true,
        MeiliBridgeError::Database(_) => true,
        MeiliBridgeError::Meilisearch(m) => transient_message(m@),
        _ => false,
    }
}

impl MeiliBridgeError {
    /// The message of the error.
    pub fn message(&self) -> (r: String)
        ensures
            r@ == error_text(*self),
    {
        match self {
            MeiliBridgeError::Config(m) => concat2("Configuration error: ", m.as_str()),
            MeiliBridgeError::Configuration(m) => concat2("Configuration error: ", m.as_str()),
            MeiliBridgeError::Io(m) => concat2("IO error: ", m.as_str()),
            MeiliBridgeError::Serialization(m) => concat2("Serialization error: ", m.as_str()),
            MeiliBridgeError::Yaml(m) => concat2("YAML parsing error: ", m.as_str()),
            MeiliBridgeError::EnvVar(m) => concat2("Environment variable error: ", m.as_str()),
            MeiliBridgeError::Validation(m) => concat2("Validation error: ", m.as_str()),
            MeiliBridgeError::Source(m) => concat2("Source error: ", m.as_str()),
            MeiliBridgeError::Database(m) => concat2("Database error: ", m.as_str()),
            MeiliBridgeError::Meilisearch(m) => concat2("Meilisearch error: ", m.as_str()),
            MeiliBridgeError::Plugin(m) => concat2("Plugin error: ", m.as_str()),
            MeiliBridgeError::ChannelSend => "Channel send error".to_owned(),
            MeiliBridgeError::ChannelReceive => "Channel receive error".to_owned(),
            MeiliBridgeError::Pipeline(m) => concat2("Pipeline error: ", m.as_str()),
            MeiliBridgeError::NotFound(m) => concat2("Not found: ", m.as_str()),
            MeiliBridgeError::Redis(m) => concat2("Redis error: ", m.as_str()),
            MeiliBridgeError::ResourceExhausted(m) => concat2("Resource exhausted: ", m.as_str()),
        }
    }
}

/// Errors that can say whether retrying the failed operation may help.
pub trait Retryable {
    /// Whether the failed operation may succeed when tried again.
    fn is_retryable(&self) -> bool;
}

impl Retryable for MeiliBridgeError {
    fn is_retryable(&self) -> (r: bool)
        ensures
            r == error_retryable(*self),
    {
        match self {
            MeiliBridgeError::Io(_) => true,
            MeiliBridgeError::Database(_) => true,
            MeiliBridgeError::Meilisearch(m) => {
                contains_str(m.as_str(), "timeout") || contains_str(m.as_str(), "connection")
                    || contains_str(m.as_str(), "unavailable")
                    || contains_str(m.as_str(), "Too Many Requests")
            },
            _ => false,
        }
    }
}

} // verus!
