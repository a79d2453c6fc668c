//! The outcome of syncing a batch.

use vstd::prelude::*;
use crate::position::Position;
use crate::text::texts;

verus! {

/// The outcome of a sync operation.
#[derive(Debug, Clone)]
pub struct SyncResult {
    /// Documents synced.
    pub success_count: usize,
    /// Documents that failed.
    pub failed_count: usize,
    /// The last position processed.
    pub last_position: Option<Position>,
    /// The errors met, in order.
    pub errors: Vec<String>,
}

impl SyncResult {
    /// Nothing synced, nothing failed.
    pub fn new() -> (r: Self)
        ensures
            r.success_count == 0,
            r.failed_count == 0,
            r.last_position is None,
            r.errors@.len() == 0,
    {
        SyncResult { success_count: 0, failed_count: 0, last_position: None, errors: Vec::new() }
    }

    /// Counts one synced document.
    pub fn add_success(&mut self)
        requires
            old(self).success_count < usize::MAX,
        ensures
            final(self).success_count == old(self).success_count + 1,
            final(self).failed_count == old(self).failed_count,
            final(self).last_position == old(self).last_position,
            final(self).errors == old(self).errors,
    {
        self.success_count = self.success_count + 1;
    }

    /// Counts one failed document and records its error.
    pub fn add_failure(&mut self, error: String)
        requires
            old(self).failed_count < usize::MAX,
        ensures
            final(self).failed_count == old(self).failed_count + 1,
            final(self).success_count == old(self).success_count,
            final(self).last_position == old(self).last_position,
            final(self).errors@ == old(self).errors@.push(error),
    {
        self.failed_count = self.failed_count + 1;
        self.errors.push(error);
    }

    /// Whether nothing failed.
    pub fn is_successful(&self) -> (r: bool)
        ensures
            r == (self.failed_count == 0),
    {
        self.failed_count == 0
    }
}

impl Default for SyncResult {
    /// As `SyncResult::new`: nothing synced, nothing failed.
    fn default() -> (r: Self)
        ensures
            r.success_count == 0,
            r.failed_count == 0,
            r.last_position is None,
            r.errors@.len() == 0,
    {
        SyncResult::new()
    }
}

} // verus!
