//! Meilisearch destination settings.

use vstd::prelude::*;

verus! {

/// Meilisearch configuration.
#[derive(Debug, Clone)]
pub struct MeilisearchConfig {
    pub url: String,
    pub api_key: Option<String>,
    /// Request timeout in seconds.
    pub timeout: u64,
    pub max_connections: usize,
    pub index_settings: IndexSettings,
    pub primary_key: Option<String>,
    pub batch_size: usize,
    pub auto_create_index: bool,
    pub circuit_breaker: CircuitBreakerConfig,
}

/// Circuit breaker configuration of the Meilisearch client.
#[derive(Debug, Clone)]
pub struct CircuitBreakerConfig {
    pub enabled: bool,
    /// Error rate threshold between 0.0 and 1.0 (binary64 bits).
    pub error_rate: u64,
    pub min_request_count: u64,
    pub consecutive_failures: u64,
    /// Seconds before the breaker half-opens.
    pub timeout_secs: u64,
}

impl CircuitBreakerConfig {
    /// The values that `CircuitBreakerConfig::default()` gives.
    pub open spec fn is_default(&self) -> bool {
        &&& self.enabled
        &&& self.error_rate == 0x3FE0_0000_0000_0000u64
        &&& self.min_request_count == 10
        &&& self.consecutive_failures == 5
        &&& self.timeout_secs == 60
    }
}

impl Default for CircuitBreakerConfig {
    fn default() -> (r: Self)
        ensures
            r.is_default(),
    {
        CircuitBreakerConfig {
            enabled: default_circuit_breaker_enabled(),
            error_rate: default_error_rate(),
            min_request_count: default_min_request_count(),
            consecutive_failures: default_consecutive_failures(),
            timeout_secs: default_circuit_timeout(),
        }
    }
}

/// Index settings template.
#[derive(Debug, Clone)]
pub struct IndexSettings {
    pub searchable_attributes: Option<Vec<String>>,
    pub displayed_attributes: Option<Vec<String>>,
    pub filterable_attributes: Option<Vec<String>>,
    pub sortable_attributes: Option<Vec<String>>,
    pub ranking_rules: Option<Vec<String>>,
    pub stop_words: Option<Vec<String>>,
    /// Synonyms of each word.
    pub synonyms: Option<Vec<(String, Vec<String>)>>,
}

impl IndexSettings {
    /// The values that `IndexSettings::default()` gives: nothing set.
    pub open spec fn is_default(&self) -> bool {
        &&& self.searchable_attributes is None
        &&& self.displayed_attributes is None
        &&& self.filterable_attributes is None
        &&& self.sortable_attributes is None
        &&& self.ranking_rules is None
        &&& self.stop_words is None
        &&& self.synonyms is None
    }
}

impl Default for IndexSettings {
    fn default() -> (r: Self)
        ensures
            r.is_default(),
    {
        IndexSettings {
            searchable_attributes: None,
            displayed_attributes: None,
            filterable_attributes: None,
            sortable_attributes: None,
            ranking_rules: None,
            stop_words: None,
            synonyms: None,
        }
    }
}

/// Default request timeout, in seconds.
pub fn default_timeout() -> (r: u64)
    ensures
        r == 30,
{
    30
}

/// Default connection pool size.
pub fn default_connections() -> (r: usize)
    ensures
        r == 10,
{
    10
}

/// Default bulk batch size.
pub fn default_batch_size() -> (r: usize)
    ensures
        r == 1000,
{
    1000
}

/// Indexes are created when missing, by default.
pub fn default_auto_create_index() -> (r: bool)
    ensures
        r,
{
    true
}

/// The circuit breaker is on by default.
pub fn default_circuit_breaker_enabled() -> (r: bool)
    ensures
        r,
{
    true
}

/// Default error rate threshold, 0.5 (binary64 bits).
pub fn default_error_rate() -> (r: u64)
    ensures
        r == 0x3FE0_0000_0000_0000u64,
{
    0x3FE0_0000_0000_0000u64
}

/// Default number of requests before the breaker judges.
pub fn default_min_request_count() -> (r: u64)
    ensures
        r == 10,
{
    10
}

/// Default number of consecutive failures that open the breaker.
pub fn default_consecutive_failures() -> (r: u64)
    ensures
        r == 5,
{
    5
}

/// Default seconds before the breaker half-opens.
pub fn default_circuit_timeout() -> (r: u64)
    ensures
        r == 60,
{
    60
}

} // verus!
