//! Exactly-once delivery: deduplication and two-phase commits.

pub mod transaction;
pub mod checkpoint;

use vstd::prelude::*;
use crate::dedup::{model_add, DeduplicationKey, EventDeduplicator};
use crate::delivery::transaction::{
    commit_outcome, prepare_outcome, CheckpointPrepare, Transaction, TransactionCoordinator, TransactionState,
};
use crate::error::MeiliBridgeError;
use crate::position::Position;

verus! {

/// How exactly-once delivery is run.
#[derive(Debug, Clone, Copy)]
pub struct ExactlyOnceConfig {
    /// Whether events are deduplicated.
    pub enabled: bool,
    /// How many event keys the deduplication window holds.
    pub deduplication_window: usize,
    /// Seconds after which an uncommitted transaction is stale.
    pub transaction_timeout_secs: u64,
    /// Whether batches go through the two-phase commit.
    pub two_phase_commit: bool,
    /// Whether the checkpoint is written before the documents.
    pub checkpoint_before_write: bool,
}

impl Default for ExactlyOnceConfig {
    fn default() -> (r: Self)
        ensures
            r.enabled,
            r.deduplication_window == 10000,
            r.transaction_timeout_secs == 30,
            r.two_phase_commit,
            r.checkpoint_before_write,
    {
        ExactlyOnceConfig {
            enabled: true,
            deduplication_window: 10000,
            transaction_timeout_secs: 30,
            two_phase_commit: true,
            checkpoint_before_write: true,
        }
    }
}

/// Deduplication of events and coordinated transactions, each switched on
/// by the configuration.
pub struct ExactlyOnceManager {
    pub config: ExactlyOnceConfig,
    pub deduplicator: EventDeduplicator,
    pub transaction_coordinator: TransactionCoordinator,
}

impl ExactlyOnceManager {
    /// The parts are well kept.
    pub open spec fn wf(&self) -> bool {
        self.deduplicator.wf() && self.transaction_coordinator.wf()
    }

    /// A manager with an empty window of the configured size and a
    /// coordinator with the configured timeout.
    pub fn new(config: ExactlyOnceConfig) -> (r: Self)
        ensures
            r.wf(),
            r.config == config,
            r.deduplicator.model().window == config.deduplication_window,
            r.deduplicator.model().queue.len() == 0,
            r.deduplicator.model().total == 0,
            r.transaction_coordinator.two_phase_commit.txns() == Map::<Seq<char>, Transaction>::empty(),
            r.transaction_coordinator.two_phase_commit.timeout() == config.transaction_timeout_secs,
            r.transaction_coordinator.checkpoint_handler is None,
    {
        ExactlyOnceManager {
            config,
            deduplicator: EventDeduplicator::new(config.deduplication_window),
            transaction_coordinator: TransactionCoordinator::new(config.transaction_timeout_secs),
        }
    }

    /// Whether an event was processed already; never when deduplication
    /// is off.
    pub fn is_duplicate(&self, key: &DeduplicationKey) -> (r: bool)
        requires
            self.wf(),
        ensures
            r == (self.config.enabled && self.deduplicator.model().counts.contains_key(key@)),
    {
        if !self.config.enabled {
            return false;
        }
        self.deduplicator.contains(key)
    }

    /// Records an event as processed; nothing when deduplication is off.
    pub fn mark_processed(&mut self, key: DeduplicationKey)
        requires
            old(self).wf(),
            old(self).deduplicator.model().total < u64::MAX,
        ensures
            final(self).wf(),
            final(self).config == old(self).config,
            final(self).transaction_coordinator == old(self).transaction_coordinator,
            final(self).deduplicator.model() == (if old(self).config.enabled {
                model_add(old(self).deduplicator.model(), key@)
            } else {
                old(self).deduplicator.model()
            }),
    {
        if !self.config.enabled {
            return;
        }
        self.deduplicator.add(key);
    }

    /// Starts a transaction of a task; without two-phase commit the id is
    /// empty and nothing starts.
    pub fn begin_transaction(&mut self, task_id: &String) -> (r: Result<String, MeiliBridgeError>)
        requires
            old(self).wf(),
        ensures
            final(self).wf(),
            final(self).config == old(self).config,
            final(self).deduplicator == old(self).deduplicator,
            !old(self).config.two_phase_commit ==> (r matches Ok(id) && id@.len() == 0)
                && final(self).transaction_coordinator == old(self).transaction_coordinator,
            old(self).config.two_phase_commit ==> match r {
                Ok(id) => {
                    let t = final(self).transaction_coordinator.two_phase_commit.txns()[id@];
                    &&& id@.take(task_id@.len() as int) == task_id@
                    &&& final(self).transaction_coordinator.two_phase_commit.txns()
                        == old(self).transaction_coordinator.two_phase_commit.txns().insert(id@, t)
                    &&& !old(self).transaction_coordinator.two_phase_commit.txns().contains_key(id@)
                    &&& t.task_id == *task_id
                    &&& t.state == TransactionState::Started
                },
                Err(_) => final(self).transaction_coordinator.two_phase_commit.txns()
                    == old(self).transaction_coordinator.two_phase_commit.txns(),
            },
    {
        if !self.config.two_phase_commit {
            return Ok(String::new());
        }
        self.transaction_coordinator.begin(task_id)
    }

    /// Finishes the prepare phase given what the checkpoint participant
    /// did; without two-phase commit the answer is `true` at once.
    pub fn prepare(
        &mut self,
        transaction_id: &String,
        position: Position,
        checkpoint: CheckpointPrepare,
    ) -> (r: Result<bool, MeiliBridgeError>)
        requires
            old(self).wf(),
        ensures
            final(self).wf(),
            final(self).config == old(self).config,
            final(self).deduplicator == old(self).deduplicator,
            !old(self).config.two_phase_commit ==> r == Ok::<bool, MeiliBridgeError>(true)
                && final(self).transaction_coordinator == old(self).transaction_coordinator,
            old(self).config.two_phase_commit && checkpoint == CheckpointPrepare::NotPrepared ==> r == Ok::<
                bool,
                MeiliBridgeError,
            >(false) && final(self).transaction_coordinator.two_phase_commit.txns()
                == old(self).transaction_coordinator.two_phase_commit.txns(),
            old(self).config.two_phase_commit && checkpoint != CheckpointPrepare::NotPrepared ==> prepare_outcome(
                old(self).transaction_coordinator.two_phase_commit.txns(),
                final(self).transaction_coordinator.two_phase_commit.txns(),
                transaction_id@,
                position,
                r,
            ),
    {
        if !self.config.two_phase_commit {
            return Ok(true);
        }
        self.transaction_coordinator.finish_prepare(transaction_id, position, checkpoint)
    }

    /// Commits a transaction; nothing without two-phase commit.
    pub fn commit(&mut self, transaction_id: &String) -> (r: Result<(), MeiliBridgeError>)
        requires
            old(self).wf(),
        ensures
            final(self).wf(),
            final(self).config == old(self).config,
            final(self).deduplicator == old(self).deduplicator,
            !old(self).config.two_phase_commit ==> r is Ok && final(self).transaction_coordinator
                == old(self).transaction_coordinator,
            old(self).config.two_phase_commit ==> commit_outcome(
                old(self).transaction_coordinator.two_phase_commit.txns(),
                final(self).transaction_coordinator.two_phase_commit.txns(),
                transaction_id@,
                r,
            ),
    {
        if !self.config.two_phase_commit {
            return Ok(());
        }
        self.transaction_coordinator.finish_commit(transaction_id)
    }

    /// Rolls a transaction back; nothing without two-phase commit.
    pub fn rollback(&mut self, transaction_id: &String) -> (r: Result<(), MeiliBridgeError>)
        requires
            old(self).wf(),
        ensures
            final(self).wf(),
            final(self).config == old(self).config,
            final(self).deduplicator == old(self).deduplicator,
            r is Ok,
            !old(self).config.two_phase_commit ==> final(self).transaction_coordinator
                == old(self).transaction_coordinator,
            old(self).config.two_phase_commit ==> final(self).transaction_coordinator.two_phase_commit.txns()
                == old(self).transaction_coordinator.two_phase_commit.txns().remove(transaction_id@),
    {
        if !self.config.two_phase_commit {
            return Ok(());
        }
        self.transaction_coordinator.finish_rollback(transaction_id)
    }
}

} // verus!
