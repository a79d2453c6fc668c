//! Redis state store settings.

use vstd::prelude::*;

verus! {

/// Redis configuration.
#[derive(Debug, Clone)]
pub struct RedisConfig {
    pub url: String,
    pub password: Option<String>,
    pub database: u8,
    pub key_prefix: String,
    pub pool: RedisPoolConfig,
    pub checkpoint_retention: CheckpointRetentionConfig,
}

/// How many checkpoints are kept.
#[derive(Debug, Clone)]
pub struct CheckpointRetentionConfig {
    pub max_checkpoints_per_task: usize,
    pub cleanup_on_memory_pressure: bool,
    /// Memory pressure threshold in percent (binary64 bits).
    pub memory_pressure_threshold: u64,
}

impl CheckpointRetentionConfig {
    /// The values that `CheckpointRetentionConfig::default()` gives.
    pub open spec fn is_default(&self) -> bool {
        &&& self.max_checkpoints_per_task == 10
        &&& self.cleanup_on_memory_pressure
        &&& self.memory_pressure_threshold == 0x4054_0000_0000_0000u64
    }
}

impl Default for CheckpointRetentionConfig {
    fn default() -> (r: Self)
        ensures
            r.is_default(),
    {
        CheckpointRetentionConfig {
            max_checkpoints_per_task: default_max_checkpoints_per_task(),
            cleanup_on_memory_pressure: default_cleanup_on_memory_pressure(),
            memory_pressure_threshold: default_memory_pressure_threshold(),
        }
    }
}

/// Redis connection pool settings.
#[derive(Debug, Clone)]
pub struct RedisPoolConfig {
    pub max_size: u32,
    pub min_idle: u32,
    pub connection_timeout: u64,
}

impl RedisPoolConfig {
    /// The values that `RedisPoolConfig::default()` gives.
    pub open spec fn is_default(&self) -> bool {
        &&& self.max_size == 10
        &&& self.min_idle == 1
        &&& self.connection_timeout == 5
    }
}

impl Default for RedisPoolConfig {
    fn default() -> (r: Self)
        ensures
            r.is_default(),
    {
        RedisPoolConfig {
            max_size: default_redis_pool_size(),
            min_idle: default_redis_min_idle(),
            connection_timeout: default_redis_timeout(),
        }
    }
}

/// Default key prefix.
pub fn default_key_prefix() -> (r: String)
    ensures
        r@ == "meilibridge"@,
{
    "meilibridge".to_owned()
}

/// Default Redis pool size.
pub fn default_redis_pool_size() -> (r: u32)
    ensures
        r == 10,
{
    10
}

/// Default idle Redis connections.
pub fn default_redis_min_idle() -> (r: u32)
    ensures
        r == 1,
{
    1
}

/// Default Redis connection timeout, in seconds.
pub fn default_redis_timeout() -> (r: u64)
    ensures
        r == 5,
{
    5
}

/// Default number of checkpoints kept per task.
pub fn default_max_checkpoints_per_task() -> (r: usize)
    ensures
        r == 10,
{
    10
}

/// Checkpoints are cleaned up under memory pressure, by default.
pub fn default_cleanup_on_memory_pressure() -> (r: bool)
    ensures
        r,
{
    true
}

/// Default memory pressure threshold, 80.0 percent (binary64 bits).
pub fn default_memory_pressure_threshold() -> (r: u64)
    ensures
        r == 0x4054_0000_0000_0000u64,
{
    0x4054_0000_0000_0000u64
}

} // verus!
