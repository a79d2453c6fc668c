//! Metrics, health check and tracing settings.

use vstd::prelude::*;

verus! {

/// Monitoring configuration.
#[derive(Debug, Clone)]
pub struct MonitoringConfig {
    pub metrics_enabled: bool,
    pub metrics_interval_seconds: u64,
    pub health_checks_enabled: bool,
    pub health_check_interval_seconds: u64,
    pub tracing_enabled: bool,
    pub tracing_backend: String,
    pub tracing_endpoint: Option<String>,
}

impl MonitoringConfig {
    /// The values that `MonitoringConfig::default()` gives.
    pub open spec fn is_default(&self) -> bool {
        &&& self.metrics_enabled
        &&& self.metrics_interval_seconds == 60
        &&& self.health_checks_enabled
        &&& self.health_check_interval_seconds == 30
        &&& !self.tracing_enabled
        &&& self.tracing_backend@ == "otlp"@
        &&& self.tracing_endpoint is None
    }
}

impl Default for MonitoringConfig {
    fn default() -> (r: Self)
        ensures
            r.is_default(),
    {
        MonitoringConfig {
            metrics_enabled: default_true(),
            metrics_interval_seconds: default_metrics_interval(),
            health_checks_enabled: default_true(),
            health_check_interval_seconds: default_health_check_interval(),
            tracing_enabled: false,
            tracing_backend: default_tracing_backend(),
            tracing_endpoint: None,
        }
    }
}

/// `true`.
pub fn default_true() -> (r: bool)
    ensures
        r,
{
    true
}

/// Default metrics export interval, in seconds.
pub fn default_metrics_interval() -> (r: u64)
    ensures
        r == 60,
{
    60
}

/// Default health check interval, in seconds.
pub fn default_health_check_interval() -> (r: u64)
    ensures
        r == 30,
{
    30
}

/// Default tracing backend.
pub fn default_tracing_backend() -> (r: String)
    ensures
        r@ == "otlp"@,
{
    "otlp".to_owned()
}

} // verus!
