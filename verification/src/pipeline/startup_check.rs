//! Checks made before the pipeline starts: how change-only tables will
//! fare, and what a failed connection to Meilisearch reports.

use vstd::prelude::*;
use crate::config::app::Config;
use crate::config::sync_task::SyncTaskConfig;
use crate::config::validation::cdc_only;
use crate::error::MeiliBridgeError;
use crate::text::{concat2, concat3};

verus! {

/// Whether a task or the destination names a primary key: a non-empty
/// task key, else a non-empty global one.
pub open spec fn primary_key_configured(t: SyncTaskConfig, global: Option<String>) -> bool {
    t.primary_key@.len() > 0 || (global matches Some(g) && g@.len() > 0)
}

/// Whether a task syncs changes only, without a full sync at start.
pub fn is_cdc_only(task: &SyncTaskConfig) -> (r: bool)
    ensures
        r == cdc_only(*task),
{
    match task.full_sync_on_start {
        Some(b) => !b,
        None => true,
    }
}

/// Whether a task or the destination names a primary key.
pub fn has_primary_key_configured(task: &SyncTaskConfig, global: &Option<String>) -> (r: bool)
    ensures
        r == primary_key_configured(*task, *global),
{
    !task.primary_key.as_str().is_empty() || match global {
        Some(g) => !g.as_str().is_empty(),
        None => false,
    }
}

/// A warning about a change-only task.
#[derive(Debug, Clone, Copy, PartialEq, Eq, Structural)]
pub enum CdcOnlyWarning {
    /// Its index must exist: indexes are not created.
    IndexMustExist,
    /// No primary key: its deletes will fail.
    NoPrimaryKey,
}

/// The warnings about a change-only task: its index must exist when
/// indexes are not created, and its deletes fail without a primary key.
pub open spec fn task_warnings(t: SyncTaskConfig, auto_create_index: bool, global: Option<String>) -> Seq<CdcOnlyWarning> {
    (if auto_create_index {
        seq![]
    } else {
        seq![CdcOnlyWarning::IndexMustExist]
    }) + (if primary_key_configured(t, global) {
        seq![]
    } else {
        seq![CdcOnlyWarning::NoPrimaryKey]
    })
}

/// Checks made before the pipeline starts.
pub struct StartupChecker {
    pub config: Config,
}

impl StartupChecker {
    /// A checker of a configuration.
    pub fn new(config: Config) -> (r: Self)
        ensures
            r.config == config,
    {
        StartupChecker { config }
    }

    /// The change-only tasks, by index, each with its warnings.
    pub fn check_cdc_only_tables(&self) -> (r: Vec<(usize, Vec<CdcOnlyWarning>)>)
        ensures
            forall|i: int| 0 <= i < r@.len() ==> (#[trigger] r@[i]).0 < self.config.sync_tasks@.len()
                && cdc_only(self.config.sync_tasks@[r@[i].0 as int]) && r@[i].1@ == task_warnings(
                self.config.sync_tasks@[r@[i].0 as int],
                self.config.meilisearch.auto_create_index,
                self.config.meilisearch.primary_key,
            ),
            forall|i: int, j: int| 0 <= i < j < r@.len() ==> #[trigger] r@[i].0 < #[trigger] r@[j].0,
            forall|t: int| 0 <= t < self.config.sync_tasks@.len() && cdc_only(#[trigger] self.config.sync_tasks@[t])
                ==> exists|i: int| 0 <= i < r@.len() && r@[i].0 == t,
    {
        let tasks = &self.config.sync_tasks;
        let mut r: Vec<(usize, Vec<CdcOnlyWarning>)> = Vec::new();
        let mut t: usize = 0;
        while t < tasks.len()
            invariant
                tasks == &self.config.sync_tasks,
                t <= tasks@.len(),
                forall|i: int| 0 <= i < r@.len() ==> (#[trigger] r@[i]).0 < t && cdc_only(tasks@[r@[i].0 as int])
                    && r@[i].1@ == task_warnings(
                    tasks@[r@[i].0 as int],
                    self.config.meilisearch.auto_create_index,
                    self.config.meilisearch.primary_key,
                ),
                forall|i: int, j: int| 0 <= i < j < r@.len() ==> #[trigger] r@[i].0 < #[trigger] r@[j].0,
                forall|u: int| 0 <= u < t && cdc_only(#[trigger] tasks@[u]) ==> exists|i: int| 0 <= i < r@.len() && r@[i].0 == u,
            decreases tasks@.len() - t,
        {
            if is_cdc_only(&tasks[t]) {
                let mut w: Vec<CdcOnlyWarning> = Vec::new();
                if !self.config.meilisearch.auto_create_index {
                    w.push(CdcOnlyWarning::IndexMustExist);
                }
                if !has_primary_key_configured(&tasks[t], &self.config.meilisearch.primary_key) {
                    w.push(CdcOnlyWarning::NoPrimaryKey);
                }
                assert(w@ =~= task_warnings(
                    tasks@[t as int],
                    self.config.meilisearch.auto_create_index,
                    self.config.meilisearch.primary_key,
                ));
                let ghost r0 = r@;
                r.push((t, w));
                assert forall|u: int| 0 <= u < t + 1 && cdc_only(#[trigger] tasks@[u]) implies exists|i: int|
                    0 <= i < r@.len() && r@[i].0 == u by {
                    if u < t {
                        let i = choose|i: int| 0 <= i < r0.len() && r0[i].0 == u;
                        assert(r@[i] == r0[i]);
                    } else {
                        assert(r@[r0.len() as int].0 == u);
                    }
                }
            }
            t = t + 1;
        }
        r
    }
}

/// The error of a failed connection to Meilisearch at `url`.
pub fn connection_error(url: &str, cause: &MeiliBridgeError) -> (r: MeiliBridgeError)
    ensures
        r matches MeiliBridgeError::Meilisearch(m) && m@ == "Failed to connect to Meilisearch at "@ + url@ + ": "@
            + crate::error::error_text(*cause),
{
    let mut m = concat3("Failed to connect to Meilisearch at ", url, ": ");
    crate::text::append_str(&mut m, cause.message().as_str());
    MeiliBridgeError::Meilisearch(m)
}

} // verus!
