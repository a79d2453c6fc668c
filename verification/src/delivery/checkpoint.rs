//! Checkpoints written as part of a transaction: saved before the write to
//! Meilisearch, marked committed after it.

use vstd::prelude::*;
use crate::clock::now_micros;
use crate::error::MeiliBridgeError;
use crate::json::{json_get, jget, jview, lookup, JsonValue, JsonView};
use crate::keyed::KeyedMap;
use crate::models::progress::{Checkpoint, ProgressStats};
use crate::position::Position;
use crate::text::append_str;

verus! {

/// A checkpoint transaction of a task.
#[derive(Debug)]
pub struct CheckpointTransaction {
    pub transaction_id: String,
    pub task_id: String,
    pub position: Position,
    pub prepared: bool,
    pub committed: bool,
    /// Microseconds since the Unix epoch.
    pub created_at: i64,
}

/// What to do next with a transaction that is being prepared.
#[derive(Debug)]
pub enum PrepareStep {
    /// Nothing to write: the answer is known.
    Done(bool),
    /// Save this checkpoint, then report with `finish_prepare`.
    Save(Checkpoint),
}

/// What to do next with a transaction that is being committed.
#[derive(Debug)]
pub enum CommitStep {
    /// Nothing to write: already committed.
    Done,
    /// Read the saved checkpoint of the named sync task, pass it through
    /// `committed_checkpoint`, save the result, then call `finish_commit`.
    LoadAndMark(String),
}

/// The metadata of a checkpoint saved in the prepare phase.
pub open spec fn prepared_metadata(transaction_id: Seq<char>) -> JsonView {
    JsonView::Object(
        seq![
            ("transaction_id"@, JsonView::String(transaction_id)),
            ("prepared"@, JsonView::Bool(true)),
            ("committed"@, JsonView::Bool(false)),
        ],
    )
}

/// The metadata of a committed checkpoint; `committed_at` is the commit
/// time as text.
pub open spec fn committed_metadata(transaction_id: Seq<char>, committed_at: Seq<char>) -> JsonView {
    JsonView::Object(
        seq![
            ("transaction_id"@, JsonView::String(transaction_id)),
            ("prepared"@, JsonView::Bool(true)),
            ("committed"@, JsonView::Bool(true)),
            ("committed_at"@, JsonView::String(committed_at)),
        ],
    )
}

fn metadata_object(transaction_id: &String, committed: bool, committed_at: Option<String>) -> (r: JsonValue)
    ensures
        committed_at is None ==> jview(r) == JsonView::Object(
            seq![
                ("transaction_id"@, JsonView::String(transaction_id@)),
                ("prepared"@, JsonView::Bool(true)),
                ("committed"@, JsonView::Bool(committed)),
            ],
        ),
        committed_at matches Some(t) ==> jview(r) == JsonView::Object(
            seq![
                ("transaction_id"@, JsonView::String(transaction_id@)),
                ("prepared"@, JsonView::Bool(true)),
                ("committed"@, JsonView::Bool(committed)),
                ("committed_at"@, JsonView::String(t@)),
            ],
        ),
{
    let mut ms: Vec<(String, JsonValue)> = Vec::new();
    ms.push(("transaction_id".to_owned(), JsonValue::String(transaction_id.clone())));
    ms.push(("prepared".to_owned(), JsonValue::Bool(true)));
    ms.push(("committed".to_owned(), JsonValue::Bool(committed)));
    match committed_at {
        Some(t) => {
            ms.push(("committed_at".to_owned(), JsonValue::String(t)));
        },
        None => {},
    }
    let r = crate::json::object_of(ms);
    assert(crate::json::members_view(ms@) =~= match committed_at {
        Some(t) => seq![
            ("transaction_id"@, JsonView::String(transaction_id@)),
            ("prepared"@, JsonView::Bool(true)),
            ("committed"@, JsonView::Bool(committed)),
            ("committed_at"@, JsonView::String(t@)),
        ],
        None => seq![
            ("transaction_id"@, JsonView::String(transaction_id@)),
            ("prepared"@, JsonView::Bool(true)),
            ("committed"@, JsonView::Bool(committed)),
        ],
    });
    r
}

fn not_found(transaction_id: &String, rest: &str) -> (r: MeiliBridgeError)
    ensures
        r matches MeiliBridgeError::Pipeline(m) && m@ == "Transaction "@ + transaction_id@ + rest@,
{
    let mut m = "Transaction ".to_owned();
    append_str(&mut m, transaction_id.as_str());
    append_str(&mut m, rest);
    MeiliBridgeError::Pipeline(m)
}

/// Whether a stored checkpoint is marked committed: its metadata has
/// `committed` set to `true`.
pub open spec fn marked_committed(c: Checkpoint) -> bool {
    jget(jview(c.metadata), "committed"@) == Some(JsonView::Bool(true))
}

/// The checkpoint transactions in progress; the caller does the storage
/// work each step asks for.
pub struct TransactionalCheckpoint {
    transactions: KeyedMap<CheckpointTransaction>,
}

impl TransactionalCheckpoint {
    /// The transactions by id.
    pub closed spec fn txns(&self) -> Map<Seq<char>, CheckpointTransaction> {
        self.transactions@
    }

    /// The inner map is well formed, and no transaction in it is marked
    /// committed: a commit drops the transaction instead.
    pub closed spec fn wf(&self) -> bool {
        &&& self.transactions.wf()
        &&& forall|k: Seq<char>| #[trigger] self.transactions@.contains_key(k) ==> !self.transactions@[k].committed
    }

    /// A transaction in progress is never marked committed.
    pub proof fn lemma_none_committed(&self)
        requires
            self.wf(),
        ensures
            forall|k: Seq<char>| #[trigger] self.txns().contains_key(k) ==> !self.txns()[k].committed,
    {
    }

    /// No transactions.
    pub fn new() -> (r: Self)
        ensures
            r.wf(),
            r.txns() == Map::<Seq<char>, CheckpointTransaction>::empty(),
    {
        TransactionalCheckpoint { transactions: KeyedMap::new() }
    }

    /// Starts a transaction to checkpoint a task at a position; fails if the
    /// id is taken.
    pub fn begin_transaction(
        &mut self,
        transaction_id: String,
        task_id: String,
        position: Position,
    ) -> (r: Result<(), MeiliBridgeError>)
        requires
            old(self).wf(),
        ensures
            final(self).wf(),
            old(self).txns().contains_key(transaction_id@) ==> final(self).txns() == old(self).txns() && (r matches Err(
                MeiliBridgeError::Pipeline(m),
            ) && m@ == "Transaction "@ + transaction_id@ + " already exists"@),
            !old(self).txns().contains_key(transaction_id@) ==> {
                let t = final(self).txns()[transaction_id@];
                &&& r is Ok
                &&& final(self).txns() == old(self).txns().insert(transaction_id@, t)
                &&& t.transaction_id == transaction_id
                &&& t.task_id == task_id
                &&& t.position == position
                &&& !t.prepared
                &&& !t.committed
            },
    {
        if self.transactions.contains_key(&transaction_id) {
            return Err(not_found(&transaction_id, " already exists"));
        }
        let t = CheckpointTransaction {
            transaction_id: transaction_id.clone(),
            task_id,
            position,
            prepared: false,
            committed: false,
            created_at: now_micros(),
        };
        self.transactions.insert(transaction_id, t);
        Ok(())
    }

    /// The first step of preparing: an unknown transaction fails, a
    /// prepared one answers `true` at once, else the checkpoint of its task
    /// and position, marked prepared, is to be saved.
    pub fn prepare(&self, transaction_id: &String) -> (r: Result<PrepareStep, MeiliBridgeError>)
        requires
            self.wf(),
        ensures
            !self.txns().contains_key(transaction_id@) ==> (r matches Err(MeiliBridgeError::Pipeline(m)) && m@
                == "Transaction "@ + transaction_id@ + " not found"@),
            self.txns().contains_key(transaction_id@) && self.txns()[transaction_id@].prepared ==> (r matches Ok(
                PrepareStep::Done(b),
            ) && b),
            self.txns().contains_key(transaction_id@) && !self.txns()[transaction_id@].prepared ==> (r matches Ok(
                PrepareStep::Save(c),
            ) && c.task_id == self.txns()[transaction_id@].task_id && c.position
                == self.txns()[transaction_id@].position && c.stats == ProgressStats::new_spec() && jview(c.metadata)
                == prepared_metadata(transaction_id@)),
    {
        match self.transactions.get(transaction_id) {
            None => Err(not_found(transaction_id, " not found")),
            Some(t) => {
                if t.prepared {
                    return Ok(PrepareStep::Done(true));
                }
                let mut c = Checkpoint::new(t.task_id.clone(), t.position.copy());
                c.metadata = metadata_object(transaction_id, false, None);
                Ok(PrepareStep::Save(c))
            },
        }
    }

    /// The last step of preparing: marks the transaction prepared when the
    /// checkpoint was saved; the answer is whether it was.
    pub fn finish_prepare(&mut self, transaction_id: &String, saved: bool) -> (r: bool)
        requires
            old(self).wf(),
        ensures
            final(self).wf(),
            r == saved,
            saved && old(self).txns().contains_key(transaction_id@) ==> final(self).txns() == old(self).txns().insert(
                transaction_id@,
                CheckpointTransaction { prepared: true, ..old(self).txns()[transaction_id@] },
            ),
            !(saved && old(self).txns().contains_key(transaction_id@)) ==> final(self).txns() == old(self).txns(),
    {
        if saved {
            match self.transactions.take(transaction_id) {
                Some(t) => {
                    let t2 = CheckpointTransaction { prepared: true, ..t };
                    self.transactions.insert(transaction_id.clone(), t2);
                },
                None => {
                    assert(self.txns() =~= old(self).txns());
                },
            }
        }
        saved
    }

    /// The first step of committing: an unknown or unprepared transaction
    /// fails; a committed one is done; else the task's stored checkpoint is
    /// to be marked committed.
    pub fn commit(&self, transaction_id: &String) -> (r: Result<CommitStep, MeiliBridgeError>)
        requires
            self.wf(),
        ensures
            !self.txns().contains_key(transaction_id@) ==> (r matches Err(MeiliBridgeError::Pipeline(m)) && m@
                == "Transaction "@ + transaction_id@ + " not found"@),
            self.txns().contains_key(transaction_id@) && !self.txns()[transaction_id@].prepared ==> (r matches Err(
                MeiliBridgeError::Pipeline(m),
            ) && m@ == "Transaction "@ + transaction_id@ + " not prepared"@),
            self.txns().contains_key(transaction_id@) && self.txns()[transaction_id@].prepared
                && self.txns()[transaction_id@].committed ==> r matches Ok(CommitStep::Done),
            self.txns().contains_key(transaction_id@) && self.txns()[transaction_id@].prepared
                && !self.txns()[transaction_id@].committed ==> (r matches Ok(CommitStep::LoadAndMark(task))
                && task == self.txns()[transaction_id@].task_id),
            !(r matches Ok(CommitStep::Done)),
    {
        match self.transactions.get(transaction_id) {
            None => Err(not_found(transaction_id, " not found")),
            Some(t) => {
                if !t.prepared {
                    return Err(not_found(transaction_id, " not prepared"));
                }
                if t.committed {
                    return Ok(CommitStep::Done);
                }
                Ok(CommitStep::LoadAndMark(t.task_id.clone()))
            },
        }
    }

    /// The stored checkpoint marked committed at `committed_at` (the commit
    /// time as text), or the error when storage held none for the task.
    pub fn committed_checkpoint(
        transaction_id: &String,
        task_id: &String,
        stored: Option<Checkpoint>,
        committed_at: String,
    ) -> (r: Result<Checkpoint, MeiliBridgeError>)
        ensures
            stored is None ==> (r matches Err(MeiliBridgeError::Pipeline(m)) && m@ == "Checkpoint not found for task "@
                + task_id@),
            stored matches Some(c) ==> (r matches Ok(d) && d.id == c.id && d.task_id == c.task_id && d.position
                == c.position && d.created_at == c.created_at && d.stats == c.stats && jview(d.metadata)
                == committed_metadata(transaction_id@, committed_at@)),
    {
        match stored {
            None => {
                let mut m = "Checkpoint not found for task ".to_owned();
                append_str(&mut m, task_id.as_str());
                Err(MeiliBridgeError::Pipeline(m))
            },
            Some(c) => {
                let mut d = c;
                d.metadata = metadata_object(transaction_id, true, Some(committed_at));
                Ok(d)
            },
        }
    }

    /// The last step of committing: the transaction is done and dropped.
    pub fn finish_commit(&mut self, transaction_id: &String)
        requires
            old(self).wf(),
        ensures
            final(self).wf(),
            final(self).txns() == old(self).txns().remove(transaction_id@),
    {
        self.transactions.remove(transaction_id);
    }

    /// Rolls a transaction back: an unknown one fails; else it is dropped,
    /// and the answer names the task whose stored checkpoint must be deleted
    /// when it was prepared but not committed.
    pub fn rollback(&mut self, transaction_id: &String) -> (r: Result<Option<String>, MeiliBridgeError>)
        requires
            old(self).wf(),
        ensures
            final(self).wf(),
            final(self).txns() == old(self).txns().remove(transaction_id@),
            !old(self).txns().contains_key(transaction_id@) ==> (r matches Err(MeiliBridgeError::Pipeline(m)) && m@
                == "Transaction "@ + transaction_id@ + " not found"@),
            old(self).txns().contains_key(transaction_id@) ==> {
                let t = old(self).txns()[transaction_id@];
                if t.prepared && !t.committed {
                    r matches Ok(Some(task)) && task == t.task_id
                } else {
                    r matches Ok(None)
                }
            },
    {
        match self.transactions.take(transaction_id) {
            None => Err(not_found(transaction_id, " not found")),
            Some(t) => {
                if t.prepared && !t.committed {
                    Ok(Some(t.task_id))
                } else {
                    Ok(None)
                }
            },
        }
    }

    /// The latest checkpoint storage holds for a task, when it is marked
    /// committed.
    pub fn get_latest_committed(stored: Option<Checkpoint>) -> (r: Option<Checkpoint>)
        ensures
            match stored {
                Some(c) => if marked_committed(c) {
                    r == Some(c)
                } else {
                    r is None
                },
                None => r is None,
            },
    {
        match stored {
            Some(c) => {
                let committed = match json_get(&c.metadata, "committed") {
                    Some(JsonValue::Bool(b)) => *b,
                    _ => false,
                };
                if committed {
                    Some(c)
                } else {
                    None
                }
            },
            None => None,
        }
    }
}

/// Committing a prepared transaction marks the task's stored checkpoint
/// committed: the checkpoint `committed_checkpoint` makes is one that
/// `get_latest_committed` gives back, and the transaction is gone after
/// `finish_commit`.
pub proof fn law_commit_marks_checkpoint(
    before: Map<Seq<char>, CheckpointTransaction>,
    after: Map<Seq<char>, CheckpointTransaction>,
    transaction_id: Seq<char>,
    committed_at: Seq<char>,
    d: Checkpoint,
)
    requires
        jview(d.metadata) == committed_metadata(transaction_id, committed_at),
        after == before.remove(transaction_id),
    ensures
        marked_committed(d),
        !after.contains_key(transaction_id),
{
    reveal_strlit("committed");
    reveal_strlit("transaction_id");
    reveal_strlit("prepared");
    let ms = seq![
        ("transaction_id"@, JsonView::String(transaction_id)),
        ("prepared"@, JsonView::Bool(true)),
        ("committed"@, JsonView::Bool(true)),
        ("committed_at"@, JsonView::String(committed_at)),
    ];
    assert(ms.drop_first().drop_first() =~= ms.subrange(2, 4));
    assert("transaction_id"@.len() != "committed"@.len());
    assert("prepared"@.len() != "committed"@.len());
    assert(ms[0].0 != "committed"@);
    assert(ms.drop_first()[0].0 != "committed"@);
    assert(ms.drop_first().drop_first()[0].0 == "committed"@);
    let k = "committed"@;
    assert(lookup(ms.drop_first().drop_first(), k) == Some(JsonView::Bool(true)));
    assert(lookup(ms.drop_first(), k) == lookup(ms.drop_first().drop_first(), k));
    assert(lookup(ms, k) == lookup(ms.drop_first(), k));
    assert(committed_metadata(transaction_id, committed_at) == JsonView::Object(ms));
}

} // verus!
