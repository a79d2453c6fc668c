//! The running state of the bridge: sources, tasks and counters.

use vstd::prelude::*;
use crate::clock::now_micros;
use crate::config::source::SourceConfig;
use crate::config::sync_task::SyncTaskConfig;
use crate::json::JsonValue;
use crate::keyed::KeyedMap;
use crate::models::progress::Progress;

verus! {

/// Where a source's connection stands.
#[derive(Debug, Clone, Copy, PartialEq, Eq, Structural)]
pub enum SourceStatus {
    Connecting,
    Connected,
    Disconnected,
    Error,
}

/// Where a sync task stands.
#[derive(Debug, Clone, Copy, PartialEq, Eq, Structural)]
pub enum TaskStatus {
    Starting,
    Running,
    Paused,
    Stopping,
    Stopped,
    Error,
}

/// An error as it is reported.
#[derive(Debug)]
pub struct ErrorInfo {
    pub code: String,
    pub message: String,
    pub details: Option<JsonValue>,
    /// When it happened, in microseconds since the epoch.
    pub timestamp: i64,
}

impl ErrorInfo {
    /// An error with a code and a message, without details, stamped now.
    pub fn new(code: String, message: String) -> (r: Self)
        ensures
            r.code == code,
            r.message == message,
            r.details is None,
    {
        ErrorInfo { code, message, details: None, timestamp: now_micros() }
    }

    /// The error with details.
    pub fn with_details(self, details: JsonValue) -> (r: Self)
        ensures
            r == (ErrorInfo { details: Some(details), ..self }),
    {
        ErrorInfo { details: Some(details), ..self }
    }
}

/// A source and its connection.
#[derive(Debug)]
pub struct SourceState {
    pub id: String,
    pub config: SourceConfig,
    pub status: SourceStatus,
    /// When it connected, in microseconds since the epoch.
    pub connected_at: Option<i64>,
    pub last_error: Option<ErrorInfo>,
}

/// The rates of a task, held as the bits of their binary64 values.
#[derive(Debug, Clone, Copy)]
pub struct TaskMetrics {
    pub events_per_second: u64,
    pub lag_seconds: u64,
    pub error_rate: u64,
    /// When they were measured, in microseconds since the epoch.
    pub last_update: i64,
}

impl TaskMetrics {
    /// All rates zero, measured now.
    pub fn new() -> (r: Self)
        ensures
            r.events_per_second == 0,
            r.lag_seconds == 0,
            r.error_rate == 0,
    {
        TaskMetrics { events_per_second: 0, lag_seconds: 0, error_rate: 0, last_update: now_micros() }
    }
}

/// A sync task and its progress.
#[derive(Debug)]
pub struct TaskState {
    pub id: String,
    pub config: SyncTaskConfig,
    pub status: TaskStatus,
    pub progress: Progress,
    pub metrics: TaskMetrics,
}

/// Counters of the whole bridge. Like the atomic counters they stand for,
/// they wrap around at `u64::MAX`.
#[derive(Debug)]
pub struct Metrics {
    pub total_events: u64,
    pub total_errors: u64,
    pub total_bytes: u64,
    /// When the bridge started, in microseconds since the epoch.
    pub start_time: i64,
}

/// `a + b` wrapped around at `2^64`.
pub open spec fn wrapped(a: u64, b: u64) -> u64 {
    if a + b > u64::MAX {
        (a + b - 0x1_0000_0000_0000_0000) as u64
    } else {
        (a + b) as u64
    }
}

/// Whole seconds from `start` to `now` (microseconds), rounded toward
/// zero.
pub open spec fn whole_seconds(start: i64, now: i64) -> int {
    if now >= start {
        (now - start) / 1_000_000
    } else {
        -((start - now) / 1_000_000)
    }
}

impl Metrics {
    /// All counters zero, started now.
    pub fn new() -> (r: Self)
        ensures
            r.total_events == 0,
            r.total_errors == 0,
            r.total_bytes == 0,
    {
        Metrics { total_events: 0, total_errors: 0, total_bytes: 0, start_time: now_micros() }
    }

    /// Counts one event of `bytes` bytes.
    pub fn record_event(&mut self, bytes: u64)
        ensures
            final(self).total_events == wrapped(old(self).total_events, 1),
            final(self).total_bytes == wrapped(old(self).total_bytes, bytes),
            final(self).total_errors == old(self).total_errors,
            final(self).start_time == old(self).start_time,
    {
        self.total_events = self.total_events.wrapping_add(1);
        self.total_bytes = self.total_bytes.wrapping_add(bytes);
    }

    /// Counts one error.
    pub fn record_error(&mut self)
        ensures
            final(self).total_errors == wrapped(old(self).total_errors, 1),
            final(self).total_events == old(self).total_events,
            final(self).total_bytes == old(self).total_bytes,
            final(self).start_time == old(self).start_time,
    {
        self.total_errors = self.total_errors.wrapping_add(1);
    }

    /// Whole seconds from the start to `now` (microseconds since the
    /// epoch), rounded toward zero.
    pub fn uptime_seconds_at(&self, now: i64) -> (r: i64)
        ensures
            r == whole_seconds(self.start_time, now),
    {
        let d: i128 = now as i128 - self.start_time as i128;
        if d >= 0 {
            (d / 1_000_000) as i64
        } else {
            let e: i128 = 0i128 - d;
            (0i128 - e / 1_000_000) as i64
        }
    }

    /// Whole seconds since the start, rounded toward zero: the uptime at
    /// the instant of the call (`uptime_seconds_at` of the current time).
    pub fn uptime_seconds(&self) -> (r: i64)
        ensures
            exists|now: i64| r == whole_seconds(self.start_time, now),
    {
        let now = now_micros();
        self.uptime_seconds_at(now)
    }
}

/// The sources, tasks and counters of the running bridge.
pub struct RuntimeState {
    pub sources: KeyedMap<SourceState>,
    pub tasks: KeyedMap<TaskState>,
    pub metrics: Metrics,
}

impl RuntimeState {
    /// No sources, no tasks, counters at zero.
    pub fn new() -> (r: Self)
        ensures
            r.sources.wf(),
            r.tasks.wf(),
            r.sources@ == Map::<Seq<char>, SourceState>::empty(),
            r.tasks@ == Map::<Seq<char>, TaskState>::empty(),
            r.metrics.total_events == 0,
            r.metrics.total_errors == 0,
            r.metrics.total_bytes == 0,
    {
        RuntimeState { sources: KeyedMap::new(), tasks: KeyedMap::new(), metrics: Metrics::new() }
    }
}

} // verus!
