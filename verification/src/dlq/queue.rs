//! The dead letter queue: storing failed events and sending them back to
//! the pipeline.

use vstd::prelude::*;
use crate::dlq::memory::{kind_count, newest_of, oldest_of, task_count, DeadLetterEntry, DlqStatistics, InMemoryDlqStorage};
use crate::error::{error_text, MeiliBridgeError};
use crate::models::event::Event;

verus! {

/// The entry after one more retry: the count is one higher and the time
/// of the last retry is set; the rest is as it was.
pub open spec fn retried(a: DeadLetterEntry, b: DeadLetterEntry) -> bool {
    &&& b.retry_count == a.retry_count + 1
    &&& b.last_retry_at is Some
    &&& b.id == a.id
    &&& b.task_id == a.task_id
    &&& b.event == a.event
    &&& b.error == a.error
    &&& b.created_at == a.created_at
    &&& b.metadata == a.metadata
}

/// Whether `ids` are a task's oldest entries of `stored`, oldest first: in
/// order of creation, and no entry of the task left out is older than the
/// last one picked.
pub open spec fn picked_oldest_first(stored: Map<Seq<char>, DeadLetterEntry>, task_id: Seq<char>, ids: Seq<String>) -> bool {
    &&& forall|i: int, j: int| 0 <= i <= j < ids.len() ==> #[trigger] stored[ids[i]@].created_at <= #[trigger] stored[ids[j]@].created_at
    &&& forall|k: Seq<char>| #![trigger stored[k]]
        stored.contains_key(k) && stored[k].task_id@ == task_id && ids.len() > 0 && !(exists|i: int|
            0 <= i < ids.len() && #[trigger] ids[i]@ == k) ==> stored[k].created_at >= stored[ids[ids.len() - 1]@].created_at
}

/// Failed events of the tasks, and whether a channel back to the pipeline
/// is set up (the caller holds it).
pub struct DeadLetterQueue {
    pub storage: InMemoryDlqStorage,
    pub reprocess_channel: bool,
}

impl DeadLetterQueue {
    /// A queue over a store, with no channel back yet.
    pub fn new(storage: InMemoryDlqStorage) -> (r: Self)
        ensures
            r.storage == storage,
            !r.reprocess_channel,
    {
        DeadLetterQueue { storage, reprocess_channel: false }
    }

    /// Notes that the channel back to the pipeline is set up.
    pub fn set_reprocess_channel(&mut self)
        ensures
            final(self).storage == old(self).storage,
            final(self).reprocess_channel,
    {
        self.reprocess_channel = true;
    }

    /// Stores a failed event of a task with its error's text and retry
    /// count, under a fresh id.
    pub fn add_failed_event(&mut self, task_id: String, event: Event, error: &MeiliBridgeError, retry_count: u32)
        requires
            old(self).storage.wf(),
        ensures
            final(self).storage.wf(),
            final(self).reprocess_channel == old(self).reprocess_channel,
            exists|e: DeadLetterEntry| {
                &&& #[trigger] final(self).storage.stored() == old(self).storage.stored().insert(e.id@, e)
                &&& e.id@.len() == 36
                &&& e.task_id == task_id
                &&& e.event == event
                &&& e.error@ == error_text(*error)
                &&& e.retry_count == retry_count
                &&& (e.last_retry_at is Some <==> retry_count > 0)
            },
    {
        let entry = DeadLetterEntry::new(task_id, event, error, retry_count);
        let ghost e = entry;
        self.storage.store(entry);
        assert(self.storage.stored() == old(self).storage.stored().insert(e.id@, e));
    }

    /// Starts sending a task's entries back: picks its oldest entries (at
    /// most `limit`) and counts a retry on each; the caller sends each one
    /// and then calls `finish_reprocessed`. No entries gives none; entries
    /// without a channel back fail and change nothing.
    pub fn start_reprocess(&mut self, task_id: &String, limit: Option<usize>) -> (r: Result<Vec<String>, MeiliBridgeError>)
        requires
            old(self).storage.wf(),
            forall|k: Seq<char>| #[trigger] old(self).storage.stored().contains_key(k) && old(self).storage.stored()[k].task_id@
                == task_id@ ==> old(self).storage.stored()[k].retry_count < u32::MAX,
        ensures
            final(self).storage.wf(),
            final(self).reprocess_channel == old(self).reprocess_channel,
            ({
                let n = task_count(old(self).storage.listed(), task_id@);
                let want = match limit {
                    Some(l) => if l < n {
                        l as nat
                    } else {
                        n
                    },
                    None => n,
                };
                if want == 0 {
                    r matches Ok(ids) && ids@.len() == 0 && final(self).storage.stored() == old(self).storage.stored()
                } else if !old(self).reprocess_channel {
                    (r matches Err(MeiliBridgeError::Configuration(m)) && m@ == "Reprocess channel not configured"@)
                        && final(self).storage.stored() == old(self).storage.stored()
                } else {
                    r matches Ok(ids) && {
                        &&& ids@.len() == want
                        &&& forall|i: int, j: int| 0 <= i < j < ids@.len() ==> #[trigger] ids@[i]@ != #[trigger] ids@[j]@
                        &&& final(self).storage.stored().dom() == old(self).storage.stored().dom()
                        &&& forall|i: int| 0 <= i < ids@.len() ==> old(self).storage.stored().contains_key(#[trigger] ids@[i]@)
                            && old(self).storage.stored()[ids@[i]@].task_id@ == task_id@ && retried(
                            old(self).storage.stored()[ids@[i]@],
                            final(self).storage.stored()[ids@[i]@],
                        )
                        &&& forall|k: Seq<char>| #[trigger] old(self).storage.stored().contains_key(k) && (forall|i: int|
                            0 <= i < ids@.len() ==> ids@[i]@ != k) ==> final(self).storage.stored()[k]
                            == old(self).storage.stored()[k]
                        &&& picked_oldest_first(old(self).storage.stored(), task_id@, ids@)
                    }
                }
            }),
    {
        let picked = self.storage.get_by_task(task_id, limit);
        let mut ids: Vec<String> = Vec::new();
        let mut i: usize = 0;
        while i < picked.len()
            invariant
                i <= picked@.len(),
                ids@.len() == i,
                forall|j: int| 0 <= j < i ==> #[trigger] ids@[j]@ == picked@[j].id@,
            decreases picked@.len() - i,
        {
            ids.push(picked[i].id.clone());
            i = i + 1;
        }
        proof {
            assert forall|i: int, j: int| 0 <= i <= j < ids@.len() implies #[trigger] self.storage.stored()[ids@[i]@].created_at
                <= #[trigger] self.storage.stored()[ids@[j]@].created_at by {
                assert(picked@[i].created_at <= picked@[j].created_at);
            }
            assert forall|kk: Seq<char>| #![trigger self.storage.stored()[kk]]
                self.storage.stored().contains_key(kk) && self.storage.stored()[kk].task_id@ == task_id@ && ids@.len() > 0
                    && !(exists|i: int| 0 <= i < ids@.len() && #[trigger] ids@[i]@ == kk) implies self.storage.stored()[kk].created_at
                >= self.storage.stored()[ids@[ids@.len() - 1]@].created_at by {
                if exists|i: int| 0 <= i < picked@.len() && #[trigger] picked@[i].id@ == kk {
                    let i = choose|i: int| 0 <= i < picked@.len() && #[trigger] picked@[i].id@ == kk;
                    assert(ids@[i]@ == kk);
                }
            }
        }
        let ghost ordered = picked_oldest_first(self.storage.stored(), task_id@, ids@);
        assert(ordered);
        if ids.len() == 0 {
            return Ok(ids);
        }
        if !self.reprocess_channel {
            return Err(MeiliBridgeError::Configuration("Reprocess channel not configured".to_owned()));
        }
        let ghost m0 = self.storage.stored();
        let mut k: usize = 0;
        while k < ids.len()
            invariant
                self.storage.wf(),
                self.reprocess_channel == old(self).reprocess_channel,
                m0 == old(self).storage.stored(),
                picked_oldest_first(m0, task_id@, ids@),
                k <= ids@.len(),
                forall|j: int| 0 <= j < ids@.len() ==> m0.contains_key(#[trigger] ids@[j]@) && m0[ids@[j]@].task_id@
                    == task_id@,
                forall|a: int, b: int| 0 <= a < b < ids@.len() ==> #[trigger] ids@[a]@ != #[trigger] ids@[b]@,
                forall|kk: Seq<char>| #[trigger] m0.contains_key(kk) && kk.len() >= 0 && m0[kk].task_id@ == task_id@
                    ==> m0[kk].retry_count < u32::MAX,
                self.storage.stored().dom() == m0.dom(),
                forall|j: int| 0 <= j < k ==> retried(m0[#[trigger] ids@[j]@], self.storage.stored()[ids@[j]@]),
                forall|kk: Seq<char>| #[trigger] m0.contains_key(kk) && (forall|j: int| 0 <= j < k ==> ids@[j]@ != kk)
                    ==> self.storage.stored()[kk] == m0[kk],
            decreases ids@.len() - k,
        {
            let ghost before = self.storage.stored();
            let id = &ids[k];
            assert(forall|j: int| 0 <= j < k ==> ids@[j]@ != id@);
            assert(before[id@] == m0[id@]);
            let taken = self.storage.take(id);
            match taken {
                Some(mut e) => {
                    assert(e.retry_count < u32::MAX);
                    e.mark_retry();
                    let ghost eg = e;
                    self.storage.store(e);
                    proof {
                        assert(self.storage.stored() == before.remove(id@).insert(id@, eg));
                        assert(self.storage.stored().dom() =~= m0.dom());
                        assert forall|kk: Seq<char>| #[trigger] m0.contains_key(kk) && (forall|j: int| 0 <= j < k + 1 ==> ids@[j]@
                            != kk) implies self.storage.stored()[kk] == m0[kk] by {
                            assert(ids@[k as int]@ != kk);
                        }
                        assert forall|j: int| 0 <= j < k + 1 implies retried(m0[#[trigger] ids@[j]@], self.storage.stored()[ids@[j]@]) by {
                            if j < k {
                                assert(ids@[j]@ != id@);
                            }
                        }
                    }
                },
                None => {
                    assert(false);
                },
            }
            k = k + 1;
        }
        Ok(ids)
    }

    /// Drops an entry once it was sent back to the pipeline.
    pub fn finish_reprocessed(&mut self, id: &String)
        requires
            old(self).storage.wf(),
        ensures
            final(self).storage.wf(),
            final(self).reprocess_channel == old(self).reprocess_channel,
            final(self).storage.stored() == old(self).storage.stored().remove(id@),
    {
        self.storage.remove(id);
    }

    /// The statistics of the stored entries.
    pub fn get_statistics(&self) -> (r: DlqStatistics)
        requires
            self.storage.wf(),
        ensures
            r.total_entries == self.storage.listed().len(),
            r.entries_by_task.wf(),
            r.entries_by_error.wf(),
            forall|t: Seq<char>| #[trigger] r.entries_by_task@.contains_key(t) <==> task_count(self.storage.listed(), t) > 0,
            forall|t: Seq<char>| #[trigger] r.entries_by_task@.contains_key(t) ==> r.entries_by_task@[t] == task_count(
                self.storage.listed(),
                t,
            ),
            forall|k: Seq<char>| #[trigger] r.entries_by_error@.contains_key(k) <==> kind_count(self.storage.listed(), k) > 0,
            forall|k: Seq<char>| #[trigger] r.entries_by_error@.contains_key(k) ==> r.entries_by_error@[k] == kind_count(
                self.storage.listed(),
                k,
            ),
            r.oldest_entry == oldest_of(self.storage.listed()),
            r.newest_entry == newest_of(self.storage.listed()),
    {
        self.storage.get_statistics()
    }

    /// Drops all entries of a task and says how many there were.
    pub fn clear_task(&mut self, task_id: &String) -> (r: usize)
        requires
            old(self).storage.wf(),
        ensures
            final(self).storage.wf(),
            final(self).reprocess_channel == old(self).reprocess_channel,
            r == task_count(old(self).storage.listed(), task_id@),
            forall|k: Seq<char>| #[trigger] final(self).storage.stored().contains_key(k) <==> old(self).storage.stored().contains_key(k)
                && old(self).storage.stored()[k].task_id@ != task_id@,
    {
        self.storage.clear_task(task_id)
    }
}

/// The error of a failed send back to the pipeline.
pub fn reprocess_send_error(cause: &str) -> (r: MeiliBridgeError)
    ensures
        r matches MeiliBridgeError::Pipeline(m) && m@ == "Failed to reprocess entry: "@ + cause@,
{
    MeiliBridgeError::Pipeline(crate::text::concat2("Failed to reprocess entry: ", cause))
}

} // verus!
