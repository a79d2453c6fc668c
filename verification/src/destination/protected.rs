//! The decisions of the protected Meilisearch client: what a closed circuit
//! answers, and how the calls of a Meilisearch task follow each other.

use vstd::prelude::*;
use crate::destination::circuit_breaker::CircuitBreakerError;
use crate::error::MeiliBridgeError;
use crate::text::concat2;

verus! {

/// A call that the circuit breaker guards.
#[derive(Debug, Clone, Copy, PartialEq, Eq, Structural)]
pub enum ProtectedOperation {
    TestConnection,
    GetVersion,
    AccessIndex,
    AddDocuments,
    DeleteDocuments,
}

/// The message when the breaker is open.
pub open spec fn open_circuit_text(op: ProtectedOperation) -> Seq<char> {
    match op {
        ProtectedOperation::TestConnection => "Circuit breaker is open, cannot test connection"@,
        ProtectedOperation::GetVersion => "Circuit breaker is open, cannot get version"@,
        ProtectedOperation::AccessIndex => "Circuit breaker is open, cannot access index"@,
        ProtectedOperation::AddDocuments => "Circuit breaker is open, cannot add documents"@,
        ProtectedOperation::DeleteDocuments => "Circuit breaker is open, cannot delete documents"@,
    }
}

/// The error for a call the open breaker refused.
pub fn open_circuit_error(op: ProtectedOperation) -> (r: MeiliBridgeError)
    ensures
        r matches MeiliBridgeError::Meilisearch(m) && m@ == open_circuit_text(op),
{
    let m = match op {
        ProtectedOperation::TestConnection => "Circuit breaker is open, cannot test connection",
        ProtectedOperation::GetVersion => "Circuit breaker is open, cannot get version",
        ProtectedOperation::AccessIndex => "Circuit breaker is open, cannot access index",
        ProtectedOperation::AddDocuments => "Circuit breaker is open, cannot add documents",
        ProtectedOperation::DeleteDocuments => "Circuit breaker is open, cannot delete documents",
    };
    MeiliBridgeError::Meilisearch(m.to_owned())
}

/// The result of a guarded call: what the operation gave, or the open
/// breaker's error.
pub fn guarded_result<T>(
    op: ProtectedOperation,
    r: Result<T, CircuitBreakerError<MeiliBridgeError>>,
) -> (out: Result<T, MeiliBridgeError>)
    ensures
        match r {
            Ok(v) => out == Ok::<T, MeiliBridgeError>(v),
            Err(CircuitBreakerError::OperationError(e)) => out == Err::<T, MeiliBridgeError>(e),
            Err(CircuitBreakerError::CircuitOpen) => out matches Err(MeiliBridgeError::Meilisearch(m)) && m@
                == open_circuit_text(op),
        },
{
    match r {
        Ok(v) => Ok(v),
        Err(CircuitBreakerError::OperationError(e)) => Err(e),
        Err(CircuitBreakerError::CircuitOpen) => Err(open_circuit_error(op)),
    }
}

/// The result of a guarded health check: the health, and `false` when the
/// breaker is open or the check failed.
pub fn guarded_health(r: Result<bool, CircuitBreakerError<MeiliBridgeError>>) -> (out: bool)
    ensures
        out == (r matches Ok(h) && h),
{
    match r {
        Ok(h) => h,
        Err(_) => false,
    }
}

/// A Meilisearch operation that runs as a task.
#[derive(Debug, Clone, Copy, PartialEq, Eq, Structural)]
pub enum TaskKind {
    /// Get an index, creating it when it cannot be got.
    GetOrCreateIndex,
    AddDocuments,
    DeleteDocuments,
    DeleteIndex,
}

/// Where a task-based operation stands.
#[derive(Debug, Clone, Copy, PartialEq, Eq, Structural)]
pub enum TaskStage {
    /// Asked for an existing index.
    Looking,
    /// Submitted the task.
    Submitting,
    /// Waiting for the task to finish.
    Waiting,
    /// Asked for the index the task created.
    Fetching,
}

/// The next call of a task-based operation, or its result.
#[derive(Debug)]
pub enum TaskAction {
    GetIndex,
    Submit,
    WaitForTask,
    /// Done: success (with the index last got, for index operations) or
    /// the error.
    Finish(Result<(), MeiliBridgeError>),
}

/// What the last call gave back.
#[derive(Debug)]
pub enum TaskReply {
    /// An index was got.
    Index,
    /// A task was accepted.
    Task,
    /// The task finished; `details` is its report.
    TaskInfo { success: bool, details: String },
    /// The call failed; the text is the error's `Debug` text.
    Failed(String),
}

/// The message prefix when a task finishes without success.
pub open spec fn task_failure_prefix(kind: TaskKind) -> Seq<char> {
    match kind {
        TaskKind::GetOrCreateIndex => "Failed to create index: "@,
        TaskKind::AddDocuments => "Add documents failed: "@,
        TaskKind::DeleteDocuments => "Delete documents failed: "@,
        TaskKind::DeleteIndex => "Index deletion failed: "@,
    }
}

/// Whether a reply can follow the call made at a stage.
pub open spec fn reply_fits(stage: TaskStage, reply: TaskReply) -> bool {
    match stage {
        TaskStage::Looking | TaskStage::Fetching => reply is Index || reply is Failed,
        TaskStage::Submitting => reply is Task || reply is Failed,
        TaskStage::Waiting => reply is TaskInfo || reply is Failed,
    }
}

/// Whether `a` finishes with the Meilisearch error whose text is `m`.
pub open spec fn fails_with(a: TaskAction, m: Seq<char>) -> bool {
    a matches TaskAction::Finish(Err(MeiliBridgeError::Meilisearch(t))) && t@ == m
}

/// The first call of an operation: index lookups start by asking for the
/// index, the others by submitting their task.
pub fn start_task(kind: TaskKind) -> (r: (TaskStage, TaskAction))
    ensures
        kind == TaskKind::GetOrCreateIndex ==> r.0 == TaskStage::Looking && r.1 is GetIndex,
        kind != TaskKind::GetOrCreateIndex ==> r.0 == TaskStage::Submitting && r.1 is Submit,
{
    match kind {
        TaskKind::GetOrCreateIndex => (TaskStage::Looking, TaskAction::GetIndex),
        _ => (TaskStage::Submitting, TaskAction::Submit),
    }
}

/// The next step after a reply. An index that cannot be got is created; a
/// created index is got again; a task that finishes without success fails
/// the operation with its report; a failed call fails it with the error.
pub fn next_task_step(kind: TaskKind, stage: TaskStage, reply: TaskReply) -> (r: (TaskStage, TaskAction))
    requires
        reply_fits(stage, reply),
    ensures
        match (stage, reply) {
            (TaskStage::Looking, TaskReply::Index) => r.1 matches TaskAction::Finish(Ok(())),
            (TaskStage::Looking, TaskReply::Failed(_)) => r.0 == TaskStage::Submitting && r.1 is Submit,
            (TaskStage::Submitting, TaskReply::Task) => r.0 == TaskStage::Waiting && r.1 is WaitForTask,
            (TaskStage::Waiting, TaskReply::TaskInfo { success, details }) => if !success {
                fails_with(r.1, task_failure_prefix(kind) + details@)
            } else if kind == TaskKind::GetOrCreateIndex {
                r.0 == TaskStage::Fetching && r.1 is GetIndex
            } else {
                r.1 matches TaskAction::Finish(Ok(()))
            },
            (TaskStage::Fetching, TaskReply::Index) => r.1 matches TaskAction::Finish(Ok(())),
            (_, TaskReply::Failed(e)) => fails_with(r.1, e@),
            _ => false,
        },
{
    match (stage, reply) {
        (TaskStage::Looking, TaskReply::Index) => (stage, TaskAction::Finish(Ok(()))),
        (TaskStage::Looking, TaskReply::Failed(_)) => (TaskStage::Submitting, TaskAction::Submit),
        (TaskStage::Submitting, TaskReply::Task) => (TaskStage::Waiting, TaskAction::WaitForTask),
        (TaskStage::Waiting, TaskReply::TaskInfo { success, details }) => {
            if !success {
                let prefix = match kind {
                    TaskKind::GetOrCreateIndex => "Failed to create index: ",
                    TaskKind::AddDocuments => "Add documents failed: ",
                    TaskKind::DeleteDocuments => "Delete documents failed: ",
                    TaskKind::DeleteIndex => "Index deletion failed: ",
                };
                (stage, TaskAction::Finish(Err(MeiliBridgeError::Meilisearch(concat2(prefix, details.as_str())))))
            } else if kind == TaskKind::GetOrCreateIndex {
                (TaskStage::Fetching, TaskAction::GetIndex)
            } else {
                (stage, TaskAction::Finish(Ok(())))
            }
        },
        (TaskStage::Fetching, TaskReply::Index) => (stage, TaskAction::Finish(Ok(()))),
        (_, TaskReply::Failed(e)) => (stage, TaskAction::Finish(Err(MeiliBridgeError::Meilisearch(e)))),
        (_, _) => (stage, TaskAction::Finish(Ok(()))),
    }
}

} // verus!
