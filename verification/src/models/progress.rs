//! Progress of a sync task and checkpoints.

use vstd::prelude::*;
use crate::clock::now_micros;
use crate::ids::new_uuid_string;
use crate::json::{jview, JsonValue, JsonView};
use crate::position::Position;

verus! {

/// Counters of a task's progress.
#[derive(Debug, Clone, Copy)]
pub struct ProgressStats {
    pub events_processed: u64,
    pub events_failed: u64,
    pub bytes_processed: u64,
    /// When the last event was processed, in microseconds since the epoch.
    pub last_event_at: Option<i64>,
}

impl ProgressStats {
    /// All counters at zero.
    pub fn new() -> (r: Self)
        ensures
            r == (ProgressStats { events_processed: 0, events_failed: 0, bytes_processed: 0, last_event_at: None }),
    {
        ProgressStats { events_processed: 0, events_failed: 0, bytes_processed: 0, last_event_at: None }
    }

    /// Counts one processed event of `bytes` bytes and notes the time.
    pub fn record_event(&mut self, bytes: u64)
        requires
            old(self).events_processed < u64::MAX,
            old(self).bytes_processed + bytes <= u64::MAX,
        ensures
            final(self).events_processed == old(self).events_processed + 1,
            final(self).bytes_processed == old(self).bytes_processed + bytes,
            final(self).events_failed == old(self).events_failed,
            final(self).last_event_at is Some,
    {
        self.events_processed = self.events_processed + 1;
        self.bytes_processed = self.bytes_processed + bytes;
        self.last_event_at = Some(now_micros());
    }

    /// Counts one failed event.
    pub fn record_failure(&mut self)
        requires
            old(self).events_failed < u64::MAX,
        ensures
            *final(self) == (ProgressStats { events_failed: (old(self).events_failed + 1) as u64, ..*old(self) }),
    {
        self.events_failed = self.events_failed + 1;
    }
}

impl Default for ProgressStats {
    fn default() -> (r: Self)
        ensures
            r == (ProgressStats { events_processed: 0, events_failed: 0, bytes_processed: 0, last_event_at: None }),
    {
        ProgressStats::new()
    }
}

/// Where a task has got to.
#[derive(Debug, Clone)]
pub struct Progress {
    pub task_id: String,
    pub position: Position,
    /// When the checkpoint was taken, in microseconds since the epoch.
    pub checkpoint_at: i64,
    pub stats: ProgressStats,
}

/// A consistent state that a task can be restored to.
#[derive(Debug)]
pub struct Checkpoint {
    pub id: String,
    pub task_id: String,
    pub position: Position,
    /// Microseconds since the Unix epoch.
    pub created_at: i64,
    pub stats: ProgressStats,
    pub metadata: JsonValue,
}

/// The abstract form of a checkpoint.
pub struct CheckpointView {
    pub id: Seq<char>,
    pub task_id: Seq<char>,
    pub position: Position,
    pub created_at: i64,
    pub stats: ProgressStats,
    pub metadata: JsonView,
}

impl View for Checkpoint {
    type V = CheckpointView;

    open spec fn view(&self) -> CheckpointView {
        CheckpointView {
            id: self.id@,
            task_id: self.task_id@,
            position: self.position,
            created_at: self.created_at,
            stats: self.stats,
            metadata: jview(self.metadata),
        }
    }
}

impl Checkpoint {
    /// A checkpoint of a task at a position, with a fresh identifier, the
    /// current time, zero counters and no metadata.
    pub fn new(task_id: String, position: Position) -> (r: Self)
        ensures
            crate::ids::uuid_v4_text(r.id@),
            r.task_id == task_id,
            r.position == position,
            r.stats == ProgressStats::new_spec(),
            r.metadata is Null,
    {
        Checkpoint {
            id: new_uuid_string(),
            task_id,
            position,
            created_at: now_micros(),
            stats: ProgressStats::new(),
            metadata: JsonValue::Null,
        }
    }

    /// A copy of the checkpoint.
    pub fn copy(&self) -> (r: Self)
        ensures
            r@ == self@,
    {
        Checkpoint {
            id: self.id.clone(),
            task_id: self.task_id.clone(),
            position: self.position.copy(),
            created_at: self.created_at,
            stats: self.stats,
            metadata: crate::json::json_copy(&self.metadata),
        }
    }
}

impl ProgressStats {
    /// Zero counters and no last event.
    pub open spec fn new_spec() -> ProgressStats {
        ProgressStats { events_processed: 0, events_failed: 0, bytes_processed: 0, last_event_at: None }
    }
}

} // verus!
