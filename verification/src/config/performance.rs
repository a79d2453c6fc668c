//! Performance settings.

use vstd::prelude::*;

verus! {

/// Performance configuration.
#[derive(Debug, Clone)]
pub struct PerformanceConfig {
    pub connection_pool: ConnectionPoolConfig,
    pub batch_processing: BatchProcessingConfig,
    pub parallel_processing: ParallelProcessingConfig,
    pub memory: MemoryConfig,
    pub rate_limits: RateLimitConfig,
}

impl PerformanceConfig {
    /// The values that `PerformanceConfig::default()` gives.
    pub open spec fn is_default(&self) -> bool {
        &&& self.connection_pool.is_default()
        &&& self.batch_processing.is_default()
        &&& self.parallel_processing.is_default()
        &&& self.memory.is_default()
        &&& self.rate_limits.is_default()
    }
}

impl Default for PerformanceConfig {
    fn default() -> (r: Self)
        ensures
            r.is_default(),
    {
        PerformanceConfig {
            connection_pool: ConnectionPoolConfig::default(),
            batch_processing: BatchProcessingConfig::default(),
            parallel_processing: ParallelProcessingConfig::default(),
            memory: MemoryConfig::default(),
            rate_limits: RateLimitConfig::default(),
        }
    }
}

/// Connection pool settings.
#[derive(Debug, Clone)]
pub struct ConnectionPoolConfig {
    pub max_connections: u32,
    pub min_connections: u32,
    pub connection_timeout: u64,
    pub idle_timeout: u64,
}

impl ConnectionPoolConfig {
    /// The values that `ConnectionPoolConfig::default()` gives.
    pub open spec fn is_default(&self) -> bool {
        &&& self.max_connections == 20
        &&& self.min_connections == 5
        &&& self.connection_timeout == 30
        &&& self.idle_timeout == 600
    }
}

impl Default for ConnectionPoolConfig {
    fn default() -> (r: Self)
        ensures
            r.is_default(),
    {
        ConnectionPoolConfig {
            max_connections: default_max_connections(),
            min_connections: default_min_connections(),
            connection_timeout: default_connection_timeout(),
            idle_timeout: default_idle_timeout(),
        }
    }
}

/// Batch processing settings.
#[derive(Debug, Clone)]
pub struct BatchProcessingConfig {
    pub default_batch_size: usize,
    pub max_batch_size: usize,
    pub min_batch_size: usize,
    pub batch_timeout_ms: u64,
    pub adaptive_batching: bool,
    pub adaptive_config: AdaptiveBatchingConfig,
}

impl BatchProcessingConfig {
    /// The values that `BatchProcessingConfig::default()` gives.
    pub open spec fn is_default(&self) -> bool {
        &&& self.default_batch_size == 100
        &&& self.max_batch_size == 1000
        &&& self.min_batch_size == 10
        &&& self.batch_timeout_ms == 5000
        &&& self.adaptive_batching
        &&& self.adaptive_config.is_default()
    }
}

impl Default for BatchProcessingConfig {
    fn default() -> (r: Self)
        ensures
            r.is_default(),
    {
        BatchProcessingConfig {
            default_batch_size: default_batch_size(),
            max_batch_size: default_max_batch_size(),
            min_batch_size: default_min_batch_size(),
            batch_timeout_ms: default_batch_timeout_ms(),
            adaptive_batching: default_true(),
            adaptive_config: AdaptiveBatchingConfig::default(),
        }
    }
}

/// Adaptive batching settings.
#[derive(Debug, Clone)]
pub struct AdaptiveBatchingConfig {
    pub target_latency_ms: u64,
    /// Adjustment factor between 0.0 and 1.0 (binary64 bits).
    pub adjustment_factor: u64,
    pub metric_window_size: usize,
    pub adjustment_interval_ms: u64,
    /// Memory pressure threshold in percent (binary64 bits).
    pub memory_pressure_threshold: u64,
    pub per_table_optimization: bool,
}

impl AdaptiveBatchingConfig {
    /// The values that `AdaptiveBatchingConfig::default()` gives.
    pub open spec fn is_default(&self) -> bool {
        &&& self.target_latency_ms == 1000
        &&& self.adjustment_factor == 0x3FC9_9999_9999_999Au64
        &&& self.metric_window_size == 10
        &&& self.adjustment_interval_ms == 5000
        &&& self.memory_pressure_threshold == 0x4054_0000_0000_0000u64
        &&& self.per_table_optimization
    }
}

impl Default for AdaptiveBatchingConfig {
    fn default() -> (r: Self)
        ensures
            r.is_default(),
    {
        AdaptiveBatchingConfig {
            target_latency_ms: default_target_latency_ms(),
            adjustment_factor: default_adjustment_factor(),
            metric_window_size: default_metric_window_size(),
            adjustment_interval_ms: default_adjustment_interval_ms(),
            memory_pressure_threshold: default_memory_pressure_threshold(),
            per_table_optimization: default_true(),
        }
    }
}

/// Parallel processing settings.
#[derive(Debug, Clone)]
pub struct ParallelProcessingConfig {
    pub enabled: bool,
    pub workers_per_table: usize,
    pub max_concurrent_events: usize,
    pub work_stealing: bool,
    pub work_steal_interval_ms: u64,
    pub work_steal_threshold: usize,
}

impl ParallelProcessingConfig {
    /// The values that `ParallelProcessingConfig::default()` gives.
    pub open spec fn is_default(&self) -> bool {
        &&& self.enabled
        &&& self.workers_per_table == 4
        &&& self.max_concurrent_events == 1000
        &&& self.work_stealing
        &&& self.work_steal_interval_ms == 100
        &&& self.work_steal_threshold == 50
    }
}

impl Default for ParallelProcessingConfig {
    fn default() -> (r: Self)
        ensures
            r.is_default(),
    {
        ParallelProcessingConfig {
            enabled: default_true(),
            workers_per_table: default_workers_per_table(),
            max_concurrent_events: default_max_concurrent_events(),
            work_stealing: default_true(),
            work_steal_interval_ms: default_steal_interval_ms(),
            work_steal_threshold: default_steal_threshold(),
        }
    }
}

/// Memory limits.
#[derive(Debug, Clone)]
pub struct MemoryConfig {
    pub max_queue_memory_mb: usize,
    pub max_checkpoint_memory_mb: usize,
    pub monitor_memory_pressure: bool,
}

impl MemoryConfig {
    /// The values that `MemoryConfig::default()` gives.
    pub open spec fn is_default(&self) -> bool {
        &&& self.max_queue_memory_mb == 512
        &&& self.max_checkpoint_memory_mb == 128
        &&& self.monitor_memory_pressure
    }
}

impl Default for MemoryConfig {
    fn default() -> (r: Self)
        ensures
            r.is_default(),
    {
        MemoryConfig {
            max_queue_memory_mb: default_max_queue_memory_mb(),
            max_checkpoint_memory_mb: default_max_checkpoint_memory_mb(),
            monitor_memory_pressure: default_true(),
        }
    }
}

/// Rate limits.
#[derive(Debug, Clone)]
pub struct RateLimitConfig {
    pub enabled: bool,
    pub max_events_per_second: u64,
    pub max_api_requests_per_second: u64,
    pub burst_capacity: u64,
}

impl RateLimitConfig {
    /// The values that `RateLimitConfig::default()` gives.
    pub open spec fn is_default(&self) -> bool {
        &&& !self.enabled
        &&& self.max_events_per_second == 0
        &&& self.max_api_requests_per_second == 1000
        &&& self.burst_capacity == 100
    }
}

impl Default for RateLimitConfig {
    fn default() -> (r: Self)
        ensures
            r.is_default(),
    {
        RateLimitConfig {
            enabled: false,
            max_events_per_second: 0,
            max_api_requests_per_second: default_max_api_requests(),
            burst_capacity: default_burst_capacity(),
        }
    }
}

/// Default maximum connections.
pub fn default_max_connections() -> (r: u32)
    ensures
        r == 20,
{
    20
}

/// Default minimum connections.
pub fn default_min_connections() -> (r: u32)
    ensures
        r == 5,
{
    5
}

/// Default connection timeout, in seconds.
pub fn default_connection_timeout() -> (r: u64)
    ensures
        r == 30,
{
    30
}

/// Default idle timeout, in seconds.
pub fn default_idle_timeout() -> (r: u64)
    ensures
        r == 600,
{
    600
}

/// Default batch size.
pub fn default_batch_size() -> (r: usize)
    ensures
        r == 100,
{
    100
}

/// Default largest batch.
pub fn default_max_batch_size() -> (r: usize)
    ensures
        r == 1000,
{
    1000
}

/// Default smallest batch.
pub fn default_min_batch_size() -> (r: usize)
    ensures
        r == 10,
{
    10
}

/// Default batch timeout, in milliseconds.
pub fn default_batch_timeout_ms() -> (r: u64)
    ensures
        r == 5000,
{
    5000
}

/// `true`.
pub fn default_true() -> (r: bool)
    ensures
        r,
{
    true
}

/// Default workers per table.
pub fn default_workers_per_table() -> (r: usize)
    ensures
        r == 4,
{
    4
}

/// Default events in flight.
pub fn default_max_concurrent_events() -> (r: usize)
    ensures
        r == 1000,
{
    1000
}

/// Default work stealing interval, in milliseconds.
pub fn default_steal_interval_ms() -> (r: u64)
    ensures
        r == 100,
{
    100
}

/// Default queue size threshold for work stealing.
pub fn default_steal_threshold() -> (r: usize)
    ensures
        r == 50,
{
    50
}

/// Default event queue memory, in MB.
pub fn default_max_queue_memory_mb() -> (r: usize)
    ensures
        r == 512,
{
    512
}

/// Default checkpoint memory, in MB.
pub fn default_max_checkpoint_memory_mb() -> (r: usize)
    ensures
        r == 128,
{
    128
}

/// Default API requests per second.
pub fn default_max_api_requests() -> (r: u64)
    ensures
        r == 1000,
{
    1000
}

/// Default burst capacity.
pub fn default_burst_capacity() -> (r: u64)
    ensures
        r == 100,
{
    100
}

/// Default target latency, in milliseconds.
pub fn default_target_latency_ms() -> (r: u64)
    ensures
        r == 1000,
{
    1000
}

/// Default adjustment factor, 0.2 (binary64 bits).
pub fn default_adjustment_factor() -> (r: u64)
    ensures
        r == 0x3FC9_9999_9999_999Au64,
{
    0x3FC9_9999_9999_999Au64
}

/// Default metric window.
pub fn default_metric_window_size() -> (r: usize)
    ensures
        r == 10,
{
    10
}

/// Default time between adjustments, in milliseconds.
pub fn default_adjustment_interval_ms() -> (r: u64)
    ensures
        r == 5000,
{
    5000
}

/// Default memory pressure threshold, 80.0 percent (binary64 bits).
pub fn default_memory_pressure_threshold() -> (r: u64)
    ensures
        r == 0x4054_0000_0000_0000u64,
{
    0x4054_0000_0000_0000u64
}

} // verus!
