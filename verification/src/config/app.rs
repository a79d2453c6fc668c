//! The whole configuration and its application-level parts.

use vstd::prelude::*;
use crate::config::api::ApiConfig;
use crate::config::error_handling::ErrorHandlingConfig;
use crate::config::logging::LoggingConfig;
use crate::config::meilisearch::MeilisearchConfig;
use crate::config::monitoring::MonitoringConfig;
use crate::config::performance::PerformanceConfig;
use crate::config::redis::RedisConfig;
use crate::config::source::{NamedSourceConfig, SourceConfig};
use crate::config::sync_task::SyncTaskConfig;
use crate::ids::new_uuid_string;

verus! {

/// The configuration of the bridge.
#[derive(Debug)]
pub struct Config {
    pub app: AppConfig,
    /// A single source (older form).
    pub source: Option<SourceConfig>,
    /// Named sources.
    pub sources: Vec<NamedSourceConfig>,
    pub meilisearch: MeilisearchConfig,
    pub sync_tasks: Vec<SyncTaskConfig>,
    pub redis: RedisConfig,
    pub api: ApiConfig,
    pub logging: LoggingConfig,
    pub monitoring: MonitoringConfig,
    pub error_handling: ErrorHandlingConfig,
    pub plugins: PluginConfig,
    pub features: FeatureFlags,
    pub performance: PerformanceConfig,
    pub exactly_once_delivery: ExactlyOnceDeliveryConfig,
}

/// Application metadata.
#[derive(Debug, Clone)]
pub struct AppConfig {
    pub name: String,
    pub instance_id: String,
    /// Free-form tags.
    pub tags: Vec<(String, String)>,
}

impl Default for AppConfig {
    fn default() -> (r: Self)
        ensures
            r.name@.len() == 0,
            r.instance_id@.len() == 0,
            r.tags@.len() == 0,
    {
        AppConfig { name: String::new(), instance_id: String::new(), tags: Vec::new() }
    }
}

/// Plugin settings.
#[derive(Debug, Clone)]
pub struct PluginConfig {
    pub directory: Option<String>,
    pub enabled: Vec<String>,
}

impl Default for PluginConfig {
    fn default() -> (r: Self)
        ensures
            r.directory is None,
            r.enabled@.len() == 0,
    {
        PluginConfig { directory: None, enabled: Vec::new() }
    }
}

/// Feature switches.
#[derive(Debug, Clone, Copy)]
pub struct FeatureFlags {
    pub auto_recovery: bool,
    pub health_checks: bool,
    pub metrics_export: bool,
    pub distributed_mode: bool,
}

impl Default for FeatureFlags {
    fn default() -> (r: Self)
        ensures
            !r.auto_recovery,
            !r.health_checks,
            !r.metrics_export,
            !r.distributed_mode,
    {
        FeatureFlags { auto_recovery: false, health_checks: false, metrics_export: false, distributed_mode: false }
    }
}

/// Exactly-once delivery settings.
#[derive(Debug, Clone, Copy)]
pub struct ExactlyOnceDeliveryConfig {
    pub enabled: bool,
    /// Number of events the deduplication window holds.
    pub deduplication_window: usize,
    pub transaction_timeout_secs: u64,
    pub two_phase_commit: bool,
    pub checkpoint_before_write: bool,
}

impl Default for ExactlyOnceDeliveryConfig {
    fn default() -> (r: Self)
        ensures
            r.enabled,
            r.deduplication_window == 10000,
            r.transaction_timeout_secs == 30,
            r.two_phase_commit,
            r.checkpoint_before_write,
    {
        ExactlyOnceDeliveryConfig {
            enabled: true,
            deduplication_window: default_deduplication_window(),
            transaction_timeout_secs: default_transaction_timeout(),
            two_phase_commit: true,
            checkpoint_before_write: true,
        }
    }
}

/// Default application name.
pub fn default_name() -> (r: String)
    ensures
        r@ == "meilibridge"@,
{
    "meilibridge".to_owned()
}

/// A fresh random instance id.
pub fn default_instance_id() -> (r: String)
    ensures
        crate::ids::uuid_v4_text(r@),
{
    new_uuid_string()
}

/// `true`.
pub fn default_true() -> (r: bool)
    ensures
        r,
{
    true
}

/// Default deduplication window.
pub fn default_deduplication_window() -> (r: usize)
    ensures
        r == 10000,
{
    10000
}

/// Default transaction timeout, in seconds.
pub fn default_transaction_timeout() -> (r: u64)
    ensures
        r == 30,
{
    30
}

} // verus!
