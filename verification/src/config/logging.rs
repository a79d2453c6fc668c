//! Logging settings.

use vstd::prelude::*;

verus! {

/// Logging configuration.
#[derive(Debug, Clone)]
pub struct LoggingConfig {
    pub level: String,
    pub format: LogFormat,
    pub outputs: Vec<LogOutput>,
}

impl LoggingConfig {
    /// The values that `LoggingConfig::default()` gives: level `info`, text
    /// format, one output to stdout.
    pub open spec fn is_default(&self) -> bool {
        &&& self.level@ == "info"@
        &&& self.format == LogFormat::Text
        &&& self.outputs@.len() == 1
        &&& self.outputs@[0] == (LogOutput::Stdout { format: None, filter: None })
    }
}

impl Default for LoggingConfig {
    fn default() -> (r: Self)
        ensures
            r.is_default(),
    {
        let mut outputs = Vec::new();
        outputs.push(LogOutput::Stdout { format: None, filter: None });
        LoggingConfig { level: default_log_level(), format: default_log_format(), outputs }
    }
}

/// Log line format.
#[derive(Debug, Clone, Copy, PartialEq, Eq, Structural)]
pub enum LogFormat {
    Text,
    Json,
    Pretty,
}

/// Where log lines go.
#[derive(Debug, Clone)]
pub enum LogOutput {
    Stdout { format: Option<LogFormat>, filter: Option<String> },
    Stderr { format: Option<LogFormat>, filter: Option<String> },
    File { path: String, format: Option<LogFormat>, rotation: LogRotation, filter: Option<String> },
}

/// When a log file is rotated.
#[derive(Debug, Clone, Copy, PartialEq, Eq, Structural)]
pub enum LogRotation {
    Never,
    Daily,
    Hourly,
    Size(u64),
}

impl Default for LogRotation {
    fn default() -> (r: Self)
        ensures
            r == LogRotation::Daily,
    {
        LogRotation::Daily
    }
}

/// Default log level.
pub fn default_log_level() -> (r: String)
    ensures
        r@ == "info"@,
{
    "info".to_owned()
}

/// Default log format.
pub fn default_log_format() -> (r: LogFormat)
    ensures
        r == LogFormat::Text,
{
    LogFormat::Text
}

} // verus!
