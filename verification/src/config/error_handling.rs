//! Retry, dead-letter and circuit-breaker settings.

use vstd::prelude::*;

verus! {

/// Error handling configuration.
#[derive(Debug, Clone)]
pub struct ErrorHandlingConfig {
    pub retry: RetryConfig,
    pub dead_letter_queue: DeadLetterQueueConfig,
    pub circuit_breaker: ErrorHandlingCircuitBreakerConfig,
}

impl ErrorHandlingConfig {
    /// The values that `ErrorHandlingConfig::default()` gives.
    pub open spec fn is_default(&self) -> bool {
        &&& self.retry.is_default()
        &&& self.dead_letter_queue.is_default()
        &&& self.circuit_breaker.is_default()
    }
}

impl Default for ErrorHandlingConfig {
    fn default() -> (r: Self)
        ensures
            r.is_default(),
    {
        ErrorHandlingConfig {
            retry: RetryConfig::default(),
            dead_letter_queue: DeadLetterQueueConfig::default(),
            circuit_breaker: ErrorHandlingCircuitBreakerConfig::default(),
        }
    }
}

/// Retry configuration. The two ratios are held as the bits of their
/// IEEE-754 binary64 values.
#[derive(Debug, Clone)]
pub struct RetryConfig {
    pub enabled: bool,
    pub max_attempts: u32,
    pub initial_backoff_ms: u64,
    pub max_backoff_ms: u64,
    /// Backoff multiplier (binary64 bits).
    pub backoff_multiplier: u64,
    /// Jitter factor between 0.0 and 1.0 (binary64 bits).
    pub jitter_factor: u64,
}

impl RetryConfig {
    /// The values that `RetryConfig::default()` gives.
    pub open spec fn is_default(&self) -> bool {
        &&& self.enabled
        &&& self.max_attempts == 3
        &&& self.initial_backoff_ms == 100
        &&& self.max_backoff_ms == 30000
        &&& self.backoff_multiplier == 0x4000_0000_0000_0000u64
        &&& self.jitter_factor == 0x3FB9_9999_9999_999Au64
    }
}

impl Default for RetryConfig {
    fn default() -> (r: Self)
        ensures
            r.is_default(),
    {
        RetryConfig {
            enabled: default_true(),
            max_attempts: default_max_retries(),
            initial_backoff_ms: default_initial_backoff_ms(),
            max_backoff_ms: default_max_backoff_ms(),
            backoff_multiplier: default_backoff_multiplier(),
            jitter_factor: default_jitter_factor(),
        }
    }
}

/// Dead letter queue configuration.
#[derive(Debug, Clone)]
pub struct DeadLetterQueueConfig {
    pub enabled: bool,
    pub storage: String,
    pub max_entries_per_task: usize,
    pub retention_hours: u64,
    pub auto_reprocess_interval_minutes: u64,
}

impl DeadLetterQueueConfig {
    /// The values that `DeadLetterQueueConfig::default()` gives.
    pub open spec fn is_default(&self) -> bool {
        &&& self.enabled
        &&& self.storage@ == "memory"@
        &&& self.max_entries_per_task == 10000
        &&& self.retention_hours == 24
        &&& self.auto_reprocess_interval_minutes == 0
    }
}

impl Default for DeadLetterQueueConfig {
    fn default() -> (r: Self)
        ensures
            r.is_default(),
    {
        DeadLetterQueueConfig {
            enabled: default_true(),
            storage: default_dlq_storage(),
            max_entries_per_task: default_max_entries(),
            retention_hours: default_retention_hours(),
            auto_reprocess_interval_minutes: 0,
        }
    }
}

/// Circuit breaker configuration of the error handler.
#[derive(Debug, Clone)]
pub struct ErrorHandlingCircuitBreakerConfig {
    pub enabled: bool,
    pub failure_threshold_percent: u8,
    pub min_requests: u32,
    pub reset_timeout_seconds: u64,
    pub half_open_max_requests: u32,
}

impl ErrorHandlingCircuitBreakerConfig {
    /// The values that `ErrorHandlingCircuitBreakerConfig::default()` gives.
    pub open spec fn is_default(&self) -> bool {
        &&& !self.enabled
        &&& self.failure_threshold_percent == 50
        &&& self.min_requests == 10
        &&& self.reset_timeout_seconds == 60
        &&& self.half_open_max_requests == 5
    }
}

impl Default for ErrorHandlingCircuitBreakerConfig {
    fn default() -> (r: Self)
        ensures
            r.is_default(),
    {
        ErrorHandlingCircuitBreakerConfig {
            enabled: false,
            failure_threshold_percent: default_failure_threshold(),
            min_requests: default_min_requests(),
            reset_timeout_seconds: default_reset_timeout(),
            half_open_max_requests: default_half_open_requests(),
        }
    }
}

/// `true`.
pub fn default_true() -> (r: bool)
    ensures
        r,
{
    true
}

/// Default number of retry attempts.
pub fn default_max_retries() -> (r: u32)
    ensures
        r == 3,
{
    3
}

/// Default first backoff, in milliseconds.
pub fn default_initial_backoff_ms() -> (r: u64)
    ensures
        r == 100,
{
    100
}

/// Default longest backoff, in milliseconds.
pub fn default_max_backoff_ms() -> (r: u64)
    ensures
        r == 30000,
{
    30000
}

/// Default backoff multiplier, 2.0 (binary64 bits).
pub fn default_backoff_multiplier() -> (r: u64)
    ensures
        r == 0x4000_0000_0000_0000u64,
{
    0x4000_0000_0000_0000u64
}

/// Default jitter factor, 0.1 (binary64 bits).
pub fn default_jitter_factor() -> (r: u64)
    ensures
        r == 0x3FB9_9999_9999_999Au64,
{
    0x3FB9_9999_9999_999Au64
}

/// Default dead letter storage backend.
pub fn default_dlq_storage() -> (r: String)
    ensures
        r@ == "memory"@,
{
    "memory".to_owned()
}

/// Default number of dead letter entries per task.
pub fn default_max_entries() -> (r: usize)
    ensures
        r == 10000,
{
    10000
}

/// Default retention, in hours.
pub fn default_retention_hours() -> (r: u64)
    ensures
        r == 24,
{
    24
}

/// Default failure threshold, in percent.
pub fn default_failure_threshold() -> (r: u8)
    ensures
        r == 50,
{
    50
}

/// Default number of requests before the breaker judges.
pub fn default_min_requests() -> (r: u32)
    ensures
        r == 10,
{
    10
}

/// Default reset timeout, in seconds.
pub fn default_reset_timeout() -> (r: u64)
    ensures
        r == 60,
{
    60
}

/// Default number of requests let through when half open.
pub fn default_half_open_requests() -> (r: u32)
    ensures
        r == 5,
{
    5
}

} // verus!
