//! Checkpoints waiting to be written, and the decisions of the checkpoint
//! manager: what each command does to them and what must be done outside.

pub mod storage;

use vstd::prelude::*;
use crate::models::progress::{Checkpoint, CheckpointView};
use crate::position::Position;
use crate::checkpoint::storage::load_answer;
use crate::error::MeiliBridgeError;
use crate::text::{find_key, has_key, is_first_key, lookup_key, texts, texts_contain};

verus! {

/// No two entries of a keyed list have the same key.
pub open spec fn distinct_keys<T>(s: Seq<(String, T)>) -> bool {
    forall|i: int, j: int| 0 <= i < s.len() && 0 <= j < s.len() && i != j ==> #[trigger] s[i].0@ != #[trigger] s[j].0@
}

/// The checkpoints of a keyed list, as a map from task to checkpoint.
pub open spec fn checkpoint_map(s: Seq<(String, Checkpoint)>) -> Map<Seq<char>, CheckpointView> {
    Map::new(|k: Seq<char>| has_key(s, k), |k: Seq<char>| lookup_key(s, k).unwrap()@)
}

proof fn lemma_first_key_unique<T>(s: Seq<(String, T)>, k: Seq<char>, i: int)
    requires
        distinct_keys(s),
        0 <= i < s.len(),
        s[i].0@ == k,
    ensures
        is_first_key(s, k, i),
        lookup_key(s, k) == Some(s[i].1),
{
    assert forall|j: int| 0 <= j < i implies #[trigger] s[j].0@ != k by {
        assert(s[j].0@ != s[i].0@);
    }
    assert(has_key(s, k));
    assert(is_first_key(s, k, i));
    let c = choose|c: int| is_first_key(s, k, c);
    assert(is_first_key(s, k, c));
    if c != i {
        assert(s[c].0@ != s[i].0@);
    }
}

/// Checkpoints waiting to be written: at most one per task, the latest.
pub struct PendingCheckpoints {
    entries: Vec<(String, Checkpoint)>,
    batch_size: usize,
}

impl PendingCheckpoints {
    /// The waiting checkpoints by task.
    pub closed spec fn pending(&self) -> Map<Seq<char>, CheckpointView> {
        checkpoint_map(self.entries@)
    }

    /// How many checkpoints make a batch that is written at once.
    pub closed spec fn batch(&self) -> usize {
        self.batch_size
    }

    /// The entries are keyed by their task, once each.
    pub closed spec fn wf(&self) -> bool {
        &&& distinct_keys(self.entries@)
        &&& forall|i: int| 0 <= i < self.entries@.len() ==> #[trigger] self.entries@[i].0@ == self.entries@[i].1.task_id@
    }

    /// Nothing waiting.
    pub fn new(batch_size: usize) -> (r: Self)
        ensures
            r.wf(),
            r.pending() == Map::<Seq<char>, CheckpointView>::empty(),
            r.batch() == batch_size,
    {
        let r = PendingCheckpoints { entries: Vec::new(), batch_size };
        assert(r.pending() =~= Map::<Seq<char>, CheckpointView>::empty());
        r
    }

    /// How many checkpoints are waiting.
    pub fn len(&self) -> (n: usize)
        requires
            self.wf(),
        ensures
            n == self.pending().len(),
    {
        proof {
            self.lemma_len();
        }
        self.entries.len()
    }

    proof fn lemma_len(&self)
        requires
            self.wf(),
        ensures
            self.pending().dom().len() == self.entries@.len(),
            self.pending().dom().finite(),
        decreases self.entries@.len(),
    {
        let s = self.entries@;
        let keys = Seq::new(s.len(), |i: int| s[i].0@);
        assert(self.pending().dom() =~= keys.to_set()) by {
            assert forall|k: Seq<char>| self.pending().dom().contains(k) implies keys.to_set().contains(k) by {
                let i = choose|i: int| 0 <= i < s.len() && #[trigger] s[i].0@ == k;
                assert(keys[i] == k);
            }
            assert forall|k: Seq<char>| keys.to_set().contains(k) implies self.pending().dom().contains(k) by {
                let i = choose|i: int| 0 <= i < keys.len() && keys[i] == k;
                assert(s[i].0@ == k);
            }
        }
        assert(keys.no_duplicates()) by {
            assert forall|i: int, j: int| 0 <= i < keys.len() && 0 <= j < keys.len() && i != j implies keys[i] != keys[j] by {
                assert(s[i].0@ != s[j].0@);
            }
        }
        keys.unique_seq_to_set();
    }

    /// The waiting checkpoint of a task, if any.
    pub fn get(&self, task_id: &String) -> (r: Option<Checkpoint>)
        requires
            self.wf(),
        ensures
            match r {
                Some(c) => self.pending().contains_key(task_id@) && c@ == self.pending()[task_id@],
                None => !self.pending().contains_key(task_id@),
            },
    {
        match find_key(&self.entries, task_id) {
            Some(i) => Some(self.entries[i].1.copy()),
            None => None,
        }
    }

    /// Records the latest checkpoint of its task, replacing an older one.
    pub fn insert(&mut self, checkpoint: Checkpoint)
        requires
            old(self).wf(),
        ensures
            final(self).wf(),
            final(self).pending() == old(self).pending().insert(checkpoint.task_id@, checkpoint@),
            final(self).batch() == old(self).batch(),
    {
        let ghost cv = checkpoint@;
        let key = checkpoint.task_id.clone();
        let ghost s0 = self.entries@;
        match find_key(&self.entries, &key) {
            Some(i) => {
                self.entries.set(i, (key, checkpoint));
                let ghost s1 = self.entries@;
                assert(distinct_keys(s1)) by {
                    assert forall|a: int, b: int| 0 <= a < s1.len() && 0 <= b < s1.len() && a != b implies #[trigger] s1[a].0@ != #[trigger] s1[b].0@ by {
                        assert(s0[a].0@ != s0[b].0@);
                    }
                }
                assert(self.pending() =~= checkpoint_map(s0).insert(cv.task_id, cv)) by {
                    assert forall|k: Seq<char>| #[trigger] has_key(s1, k) == (has_key(s0, k) || k == cv.task_id) by {
                        if has_key(s1, k) {
                            let a = choose|a: int| 0 <= a < s1.len() && #[trigger] s1[a].0@ == k;
                            assert(s0[a].0@ == k);
                        }
                        if has_key(s0, k) {
                            let a = choose|a: int| 0 <= a < s0.len() && #[trigger] s0[a].0@ == k;
                            assert(s1[a].0@ == k);
                        }
                        if k == cv.task_id {
                            assert(s1[i as int].0@ == k);
                        }
                    }
                    assert forall|k: Seq<char>| has_key(s1, k) implies #[trigger] lookup_key(s1, k).unwrap()@
                        == checkpoint_map(s0).insert(cv.task_id, cv)[k] by {
                        let a = choose|a: int| 0 <= a < s1.len() && #[trigger] s1[a].0@ == k;
                        lemma_first_key_unique(s1, k, a);
                        if a != i {
                            lemma_first_key_unique(s0, k, a);
                        }
                    }
                }
            },
            None => {
                self.entries.push((key, checkpoint));
                let ghost s1 = self.entries@;
                assert(distinct_keys(s1)) by {
                    assert forall|a: int, b: int| 0 <= a < s1.len() && 0 <= b < s1.len() && a != b implies #[trigger] s1[a].0@ != #[trigger] s1[b].0@ by {
                        if a < s0.len() && b < s0.len() {
                            assert(s0[a].0@ != s0[b].0@);
                        } else if a < s0.len() {
                            assert(s0[a].0@ == s1[a].0@);
                        } else {
                            assert(s0[b].0@ == s1[b].0@);
                        }
                    }
                }
                assert(self.pending() =~= checkpoint_map(s0).insert(cv.task_id, cv)) by {
                    assert forall|k: Seq<char>| #[trigger] has_key(s1, k) == (has_key(s0, k) || k == cv.task_id) by {
                        if has_key(s1, k) {
                            let a = choose|a: int| 0 <= a < s1.len() && #[trigger] s1[a].0@ == k;
                            if a < s0.len() {
                                assert(s0[a].0@ == k);
                            }
                        }
                        if has_key(s0, k) {
                            let a = choose|a: int| 0 <= a < s0.len() && #[trigger] s0[a].0@ == k;
                            assert(s1[a].0@ == k);
                        }
                        if k == cv.task_id {
                            assert(s1[s0.len() as int].0@ == k);
                        }
                    }
                    assert forall|k: Seq<char>| has_key(s1, k) implies #[trigger] lookup_key(s1, k).unwrap()@
                        == checkpoint_map(s0).insert(cv.task_id, cv)[k] by {
                        let a = choose|a: int| 0 <= a < s1.len() && #[trigger] s1[a].0@ == k;
                        lemma_first_key_unique(s1, k, a);
                        if a < s0.len() {
                            lemma_first_key_unique(s0, k, a);
                        }
                    }
                }
            },
        }
    }

    /// Drops the waiting checkpoint of a task, if any.
    pub fn remove(&mut self, task_id: &String)
        requires
            old(self).wf(),
        ensures
            final(self).wf(),
            final(self).pending() == old(self).pending().remove(task_id@),
            final(self).batch() == old(self).batch(),
    {
        let ghost s0 = self.entries@;
        match find_key(&self.entries, task_id) {
            Some(i) => {
                self.entries.remove(i);
                let ghost s1 = self.entries@;
                assert(s1 =~= s0.remove(i as int));
                assert(distinct_keys(s1)) by {
                    assert forall|a: int, b: int| 0 <= a < s1.len() && 0 <= b < s1.len() && a != b implies #[trigger] s1[a].0@ != #[trigger] s1[b].0@ by {
                        let a0 = if a < i { a } else { a + 1 };
                        let b0 = if b < i { b } else { b + 1 };
                        assert(s0[a0].0@ != s0[b0].0@);
                    }
                }
                assert forall|a: int| 0 <= a < s1.len() implies #[trigger] s1[a].0@ == s1[a].1.task_id@ by {
                    let a0 = if a < i { a } else { a + 1 };
                    assert(s0[a0].0@ == s0[a0].1.task_id@);
                }
                assert(self.pending() =~= checkpoint_map(s0).remove(task_id@)) by {
                    assert forall|k: Seq<char>| #[trigger] has_key(s1, k) == (has_key(s0, k) && k != task_id@) by {
                        if has_key(s1, k) {
                            let a = choose|a: int| 0 <= a < s1.len() && #[trigger] s1[a].0@ == k;
                            let a0 = if a < i { a } else { a + 1 };
                            assert(s0[a0].0@ == k);
                            assert(s0[a0].0@ != s0[i as int].0@);
                        }
                        if has_key(s0, k) && k != task_id@ {
                            let a = choose|a: int| 0 <= a < s0.len() && #[trigger] s0[a].0@ == k;
                            if a < i {
                                assert(s1[a].0@ == k);
                            } else {
                                assert(a != i);
                                assert(s1[a - 1].0@ == k);
                            }
                        }
                    }
                    assert forall|k: Seq<char>| has_key(s1, k) implies #[trigger] lookup_key(s1, k).unwrap()@
                        == checkpoint_map(s0).remove(task_id@)[k] by {
                        let a = choose|a: int| 0 <= a < s1.len() && #[trigger] s1[a].0@ == k;
                        let a0 = if a < i { a } else { a + 1 };
                        lemma_first_key_unique(s1, k, a);
                        lemma_first_key_unique(s0, k, a0);
                    }
                }
            },
            None => {
                assert(self.pending() =~= checkpoint_map(s0).remove(task_id@));
            },
        }
    }

    /// Copies of the waiting checkpoints, each once.
    pub fn snapshot(&self) -> (r: Vec<Checkpoint>)
        requires
            self.wf(),
        ensures
            r@.len() == self.pending().len(),
            forall|i: int| 0 <= i < r@.len() ==> self.pending().contains_key(#[trigger] r@[i]@.task_id)
                && self.pending()[r@[i]@.task_id] == r@[i]@,
            forall|k: Seq<char>| self.pending().contains_key(k) ==> exists|i: int| 0 <= i < r@.len() && #[trigger] r@[i]@.task_id == k,
            forall|i: int, j: int| 0 <= i < r@.len() && 0 <= j < r@.len() && i != j ==> #[trigger] r@[i]@.task_id != #[trigger] r@[j]@.task_id,
    {
        let ghost s = self.entries@;
        proof {
            self.lemma_len();
        }
        let mut r: Vec<Checkpoint> = Vec::new();
        let mut i: usize = 0;
        while i < self.entries.len()
            invariant
                self.wf(),
                s == self.entries@,
                i <= s.len(),
                r@.len() == i,
                forall|j: int| 0 <= j < i ==> #[trigger] r@[j]@ == s[j].1@,
            decreases s.len() - i,
        {
            r.push(self.entries[i].1.copy());
            i = i + 1;
        }
        assert forall|j: int| 0 <= j < r@.len() implies self.pending().contains_key(#[trigger] r@[j]@.task_id)
            && self.pending()[r@[j]@.task_id] == r@[j]@ by {
            assert(s[j].0@ == s[j].1.task_id@);
            lemma_first_key_unique(s, s[j].0@, j);
        }
        assert forall|k: Seq<char>| self.pending().contains_key(k) implies exists|j: int| 0 <= j < r@.len() && #[trigger] r@[j]@.task_id == k by {
            let a = choose|a: int| 0 <= a < s.len() && #[trigger] s[a].0@ == k;
            assert(r@[a]@.task_id == k);
        }
        assert forall|a: int, b: int| 0 <= a < r@.len() && 0 <= b < r@.len() && a != b implies #[trigger] r@[a]@.task_id != #[trigger] r@[b]@.task_id by {
            assert(s[a].0@ != s[b].0@);
        }
        r
    }

    /// Keeps only the waiting checkpoints of the given tasks (those that
    /// failed to be written).
    pub fn retain_tasks(&mut self, failed: &Vec<String>)
        requires
            old(self).wf(),
        ensures
            final(self).wf(),
            final(self).pending() == kept_after_flush(old(self).pending(), failed@),
            final(self).batch() == old(self).batch(),
    {
        let ghost s0 = self.entries@;
        let ghost keep = texts(failed@).to_set();
        assert(forall|i: int| 0 <= i < s0.len() ==> #[trigger] s0[i].0@ == s0[i].1.task_id@);
        let mut kept: Vec<(String, Checkpoint)> = Vec::new();
        let mut idx: Vec<usize> = Vec::new();
        let mut n: usize = 0;
        while n < self.entries.len()
            invariant
                s0 == self.entries@,
                n <= s0.len(),
                keep == texts(failed@).to_set(),
                idx@.len() == kept@.len(),
                forall|j: int| 0 <= j < idx@.len() ==> #[trigger] idx@[j] < n,
                forall|j: int| 0 <= j < kept@.len() ==> #[trigger] kept@[j].0@ == s0[idx@[j] as int].0@,
                forall|j: int| 0 <= j < kept@.len() ==> #[trigger] kept@[j].1@ == s0[idx@[j] as int].1@,
                forall|a: int, b: int| 0 <= a < b < idx@.len() ==> #[trigger] idx@[a] < #[trigger] idx@[b],
                forall|j: int| 0 <= j < n && keep.contains(#[trigger] s0[j].0@) ==> exists|a: int| 0 <= a < idx@.len() && idx@[a] == j,
                forall|j: int| 0 <= j < kept@.len() ==> keep.contains(#[trigger] kept@[j].0@),
            decreases s0.len() - n,
        {
            let e = &self.entries[n];
            if texts_contain(failed, &e.0) {
                assert(keep.contains(e.0@)) by {
                    let t = texts(failed@);
                    let a = choose|a: int| 0 <= a < t.len() && t[a] == e.0@;
                    assert(t.contains(e.0@));
                }
                let ghost idx0 = idx@;
                let ghost kept0 = kept@;
                kept.push((e.0.clone(), e.1.copy()));
                idx.push(n);
                assert(idx@ == idx0.push(n));
                assert(kept@ == kept0.push(kept@[kept@.len() - 1]));
                assert forall|j: int| 0 <= j < n + 1 && keep.contains(#[trigger] s0[j].0@) implies exists|a: int|
                    0 <= a < idx@.len() && idx@[a] == j by {
                    if j < n {
                        let a = choose|a: int| 0 <= a < idx0.len() && idx0[a] == j;
                        assert(idx@[a] == j);
                    } else {
                        assert(idx@[idx0.len() as int] == j);
                    }
                }
            } else {
                assert(!keep.contains(s0[n as int].0@));
            }
            n = n + 1;
        }
        let ghost s1 = kept@;
        self.entries = kept;
        assert(distinct_keys(s1)) by {
            assert forall|a: int, b: int| 0 <= a < s1.len() && 0 <= b < s1.len() && a != b implies #[trigger] s1[a].0@ != #[trigger] s1[b].0@ by {
                assert(idx@[a] != idx@[b]) by {
                    if a < b {
                        assert(idx@[a] < idx@[b]);
                    } else {
                        assert(idx@[b] < idx@[a]);
                    }
                }
                assert(s0[idx@[a] as int].0@ != s0[idx@[b] as int].0@);
            }
        }
        assert forall|a: int| 0 <= a < s1.len() implies #[trigger] s1[a].0@ == s1[a].1.task_id@ by {
            assert(s1[a].0@ == s0[idx@[a] as int].0@);
            assert(s1[a].1@ == s0[idx@[a] as int].1@);
            assert(s1[a].1@.task_id == s1[a].1.task_id@);
            assert(s0[idx@[a] as int].0@ == s0[idx@[a] as int].1.task_id@);
        }
        assert(self.pending() =~= checkpoint_map(s0).restrict(keep)) by {
            assert forall|k: Seq<char>| #[trigger] has_key(s1, k) == (has_key(s0, k) && keep.contains(k)) by {
                if has_key(s1, k) {
                    let a = choose|a: int| 0 <= a < s1.len() && #[trigger] s1[a].0@ == k;
                    assert(s0[idx@[a] as int].0@ == k);
                }
                if has_key(s0, k) && keep.contains(k) {
                    let j = choose|j: int| 0 <= j < s0.len() && #[trigger] s0[j].0@ == k;
                    let a = choose|a: int| 0 <= a < idx@.len() && idx@[a] == j;
                    assert(s1[a].0@ == k);
                }
            }
            assert forall|k: Seq<char>| has_key(s1, k) implies #[trigger] lookup_key(s1, k).unwrap()@
                == checkpoint_map(s0).restrict(keep)[k] by {
                let a = choose|a: int| 0 <= a < s1.len() && #[trigger] s1[a].0@ == k;
                lemma_first_key_unique(s1, k, a);
                lemma_first_key_unique(s0, k, idx@[a] as int);
            }
        }
    }
}

} // verus!

verus! {

/// The views of a list of checkpoints.
pub open spec fn views(s: Seq<Checkpoint>) -> Seq<CheckpointView> {
    s.map_values(|c: Checkpoint| c@)
}

/// Whether some checkpoint of `s` belongs to the task.
pub open spec fn lists_task(s: Seq<CheckpointView>, task_id: Seq<char>) -> bool {
    exists|i: int| 0 <= i < s.len() && #[trigger] s[i].task_id == task_id
}

/// `listed` followed by each of `stored`, in order, whose task is not yet
/// listed.
pub open spec fn merge_listing(listed: Seq<CheckpointView>, stored: Seq<CheckpointView>) -> Seq<CheckpointView>
    decreases stored.len(),
{
    if stored.len() == 0 {
        listed
    } else {
        let m = merge_listing(listed, stored.drop_last());
        if lists_task(m, stored.last().task_id) {
            m
        } else {
            m.push(stored.last())
        }
    }
}

/// Whether no task has two checkpoints in a list.
pub open spec fn one_per_task(s: Seq<CheckpointView>) -> bool {
    forall|i: int, j: int| 0 <= i < s.len() && 0 <= j < s.len() && i != j ==> #[trigger] s[i].task_id != #[trigger] s[j].task_id
}

/// Merging a listing that holds each task once with what storage listed
/// keeps each task once: the listed checkpoints stay first and unchanged
/// (a waiting checkpoint wins over a stored one of its task), and every
/// task of either list is listed.
pub proof fn law_listing_once_per_task(listed: Seq<CheckpointView>, stored: Seq<CheckpointView>)
    requires
        one_per_task(listed),
    ensures
        one_per_task(merge_listing(listed, stored)),
        merge_listing(listed, stored).len() >= listed.len(),
        merge_listing(listed, stored).take(listed.len() as int) == listed,
        forall|k: Seq<char>| #[trigger] lists_task(merge_listing(listed, stored), k) <==> (lists_task(listed, k) || lists_task(stored, k)),
    decreases stored.len(),
{
    let m = merge_listing(listed, stored);
    if stored.len() == 0 {
        assert(listed.take(listed.len() as int) =~= listed);
    } else {
        let prev = merge_listing(listed, stored.drop_last());
        law_listing_once_per_task(listed, stored.drop_last());
        let c = stored.last();
        assert forall|k: Seq<char>| lists_task(stored, k) <==> (lists_task(stored.drop_last(), k) || c.task_id == k) by {
            if lists_task(stored, k) {
                let i = choose|i: int| 0 <= i < stored.len() && #[trigger] stored[i].task_id == k;
                if i < stored.len() - 1 {
                    assert(stored.drop_last()[i].task_id == k);
                }
            }
            if lists_task(stored.drop_last(), k) {
                let i = choose|i: int| 0 <= i < stored.drop_last().len() && #[trigger] stored.drop_last()[i].task_id == k;
                assert(stored[i].task_id == k);
            }
            if c.task_id == k {
                assert(stored[stored.len() - 1].task_id == k);
            }
        }
        if !lists_task(prev, c.task_id) {
            assert(m == prev.push(c));
            assert(m.take(listed.len() as int) =~= prev.take(listed.len() as int));
            assert forall|i: int, j: int| 0 <= i < m.len() && 0 <= j < m.len() && i != j implies #[trigger] m[i].task_id
                != #[trigger] m[j].task_id by {
                if i == m.len() - 1 {
                    assert(prev[j].task_id != c.task_id);
                } else if j == m.len() - 1 {
                    assert(prev[i].task_id != c.task_id);
                } else {
                    assert(prev[i].task_id != prev[j].task_id);
                }
            }
            assert forall|k: Seq<char>| lists_task(m, k) <==> (lists_task(prev, k) || c.task_id == k) by {
                if lists_task(m, k) {
                    let i = choose|i: int| 0 <= i < m.len() && #[trigger] m[i].task_id == k;
                    if i < prev.len() {
                        assert(prev[i].task_id == k);
                    }
                }
                if lists_task(prev, k) {
                    let i = choose|i: int| 0 <= i < prev.len() && #[trigger] prev[i].task_id == k;
                    assert(m[i].task_id == k);
                }
                if c.task_id == k {
                    assert(m[m.len() - 1].task_id == k);
                }
            }
        }
    }
}

/// Whether `s` holds each waiting checkpoint exactly once.
pub open spec fn lists_pending(s: Seq<CheckpointView>, pending: Map<Seq<char>, CheckpointView>) -> bool {
    &&& s.len() == pending.len()
    &&& forall|i: int| 0 <= i < s.len() ==> pending.contains_key(#[trigger] s[i].task_id) && pending[s[i].task_id] == s[i]
    &&& forall|k: Seq<char>| pending.contains_key(k) ==> lists_task(s, k)
    &&& forall|i: int, j: int| 0 <= i < s.len() && 0 <= j < s.len() && i != j ==> #[trigger] s[i].task_id != #[trigger] s[j].task_id
}

fn listed_contains(list: &Vec<Checkpoint>, task_id: &String) -> (r: bool)
    ensures
        r == lists_task(views(list@), task_id@),
{
    let mut i: usize = 0;
    while i < list.len()
        invariant
            i <= list@.len(),
            forall|j: int| 0 <= j < i ==> list@[j].task_id@ != task_id@,
        decreases list@.len() - i,
    {
        if list[i].task_id == *task_id {
            assert(views(list@)[i as int].task_id == task_id@);
            return true;
        }
        i = i + 1;
    }
    assert forall|j: int| 0 <= j < views(list@).len() implies #[trigger] views(list@)[j].task_id != task_id@ by {
        assert(views(list@)[j] == list@[j]@);
    }
    false
}

/// A command to the checkpoint manager; the caller keeps the channels its
/// answers go back on.
#[derive(Debug)]
pub enum CheckpointCommand {
    Save { task_id: String, position: Position },
    Load { task_id: String },
    Delete { task_id: String },
    List,
    Flush,
}

/// What the manager's loop receives.
#[derive(Debug)]
pub enum ManagerEvent {
    Command(CheckpointCommand),
    /// The flush timer fired.
    Tick,
    /// The shutdown signal changed to the given value.
    ShutdownChanged(bool),
}

/// What the manager's loop must do next.
#[derive(Debug)]
pub enum ManagerAction {
    Nothing,
    /// Write each checkpoint of `snapshot`, then report the tasks whose
    /// write failed with `retain_tasks`.
    Flush,
    /// Answer a load with this checkpoint.
    Reply(Option<Checkpoint>),
    /// Answer a load with what storage holds for the task.
    LoadFromStorage(String),
    /// Delete the task's checkpoint from storage.
    DeleteFromStorage(String),
    /// List storage and answer with `listing`.
    ListStorage,
    /// Flush one last time and stop.
    FlushAndStop,
}

/// What one event of the manager's loop does to the waiting checkpoints
/// (`before`, batches of `batch`) and what it asks to be done: a save
/// records the task's newest checkpoint and asks for a flush once a batch
/// is waiting; a load answers from the waiting checkpoints, else from
/// storage; a delete drops the waiting checkpoint and deletes the stored
/// one; a list asks for storage's listing; the timer and flush commands
/// flush; shutting down flushes and stops.
pub open spec fn handled(
    before: Map<Seq<char>, CheckpointView>,
    batch: usize,
    event: ManagerEvent,
    after: Map<Seq<char>, CheckpointView>,
    r: ManagerAction,
) -> bool {
    match event {
        ManagerEvent::Command(CheckpointCommand::Save { task_id, position }) => {
            &&& after.contains_key(task_id@)
            &&& after == before.insert(task_id@, after[task_id@])
            &&& after[task_id@].task_id == task_id@
            &&& after[task_id@].position == position
            &&& after[task_id@].stats == crate::models::progress::ProgressStats::new_spec()
            &&& after[task_id@].metadata is Null
            &&& after[task_id@].id.len() == 36
            &&& if after.len() >= batch {
                r is Flush
            } else {
                r is Nothing
            }
        },
        ManagerEvent::Command(CheckpointCommand::Load { task_id }) => {
            &&& after == before
            &&& if before.contains_key(task_id@) {
                r matches ManagerAction::Reply(Some(c)) && c@ == before[task_id@]
            } else {
                r == ManagerAction::LoadFromStorage(task_id)
            }
        },
        ManagerEvent::Command(CheckpointCommand::Delete { task_id }) => {
            &&& after == before.remove(task_id@)
            &&& r == ManagerAction::DeleteFromStorage(task_id)
        },
        ManagerEvent::Command(CheckpointCommand::List) => after == before && r is ListStorage,
        ManagerEvent::Command(CheckpointCommand::Flush) | ManagerEvent::Tick => after == before && r is Flush,
        ManagerEvent::ShutdownChanged(stop) => after == before && (if stop {
            r is FlushAndStop
        } else {
            r is Nothing
        }),
    }
}

/// The waiting checkpoints after a flush in which the writes of the tasks
/// `failed` failed: only theirs stay.
pub open spec fn kept_after_flush(
    before: Map<Seq<char>, CheckpointView>,
    failed: Seq<String>,
) -> Map<Seq<char>, CheckpointView> {
    before.restrict(texts(failed).to_set())
}

impl PendingCheckpoints {
    /// The waiting checkpoints, then those of `stored` (what storage
    /// listed, or `None` when listing failed) whose task is not yet listed.
    pub fn listing(&self, stored: Option<Vec<Checkpoint>>) -> (r: Vec<Checkpoint>)
        requires
            self.wf(),
        ensures
            lists_pending(views(r@).take(self.pending().len() as int), self.pending()),
            one_per_task(views(r@)),
            views(r@) == merge_listing(
                views(r@).take(self.pending().len() as int),
                match stored {
                    Some(s) => views(s@),
                    None => Seq::empty(),
                },
            ),
    {
        let mut all = self.snapshot();
        let ghost first = views(all@);
        proof {
            assert(first.len() == self.pending().len());
            assert(lists_pending(first, self.pending())) by {
                assert forall|i: int| 0 <= i < first.len() implies self.pending().contains_key(#[trigger] first[i].task_id)
                    && self.pending()[first[i].task_id] == first[i] by {
                    assert(first[i] == all@[i]@);
                }
                assert forall|k: Seq<char>| self.pending().contains_key(k) implies lists_task(first, k) by {
                    let i = choose|i: int| 0 <= i < all@.len() && #[trigger] all@[i]@.task_id == k;
                    assert(first[i].task_id == k);
                }
                assert forall|i: int, j: int| 0 <= i < first.len() && 0 <= j < first.len() && i != j implies #[trigger] first[i].task_id
                    != #[trigger] first[j].task_id by {
                    assert(first[i] == all@[i]@);
                    assert(first[j] == all@[j]@);
                }
            }
        }
        let stored_list: Vec<Checkpoint> = match stored {
            Some(s) => s,
            None => Vec::new(),
        };
        let ghost sv = views(stored_list@);
        let mut i: usize = 0;
        while i < stored_list.len()
            invariant
                i <= stored_list@.len(),
                sv == views(stored_list@),
                first.len() <= all@.len(),
                views(all@).take(first.len() as int) == first,
                views(all@) == merge_listing(first, sv.take(i as int)),
            decreases stored_list@.len() - i,
        {
            let c = &stored_list[i];
            assert(sv.take(i + 1).drop_last() =~= sv.take(i as int));
            assert(sv.take(i + 1).last() == c@);
            let ghost before = views(all@);
            if !listed_contains(&all, &c.task_id) {
                all.push(c.copy());
                assert(views(all@) =~= before.push(c@));
            }
            assert(views(all@).take(first.len() as int) =~= first);
            i = i + 1;
        }
        assert(sv.take(stored_list@.len() as int) =~= sv);
        proof {
            law_listing_once_per_task(first, sv);
        }
        all
    }

    /// Handles one event of the manager's loop (see `handled`).
    pub fn handle(&mut self, event: ManagerEvent) -> (r: ManagerAction)
        requires
            old(self).wf(),
        ensures
            final(self).wf(),
            final(self).batch() == old(self).batch(),
            handled(old(self).pending(), old(self).batch(), event, final(self).pending(), r),
    {
        match event {
            ManagerEvent::Command(CheckpointCommand::Save { task_id, position }) => {
                let checkpoint = Checkpoint::new(task_id, position);
                self.insert(checkpoint);
                if self.len() >= self.batch_size {
                    ManagerAction::Flush
                } else {
                    ManagerAction::Nothing
                }
            },
            ManagerEvent::Command(CheckpointCommand::Load { task_id }) => {
                match self.get(&task_id) {
                    Some(c) => ManagerAction::Reply(Some(c)),
                    None => ManagerAction::LoadFromStorage(task_id),
                }
            },
            ManagerEvent::Command(CheckpointCommand::Delete { task_id }) => {
                self.remove(&task_id);
                ManagerAction::DeleteFromStorage(task_id)
            },
            ManagerEvent::Command(CheckpointCommand::List) => ManagerAction::ListStorage,
            ManagerEvent::Command(CheckpointCommand::Flush) => ManagerAction::Flush,
            ManagerEvent::Tick => ManagerAction::Flush,
            ManagerEvent::ShutdownChanged(stop) => {
                if stop {
                    ManagerAction::FlushAndStop
                } else {
                    ManagerAction::Nothing
                }
            },
        }
    }
}

/// A load right after a save of the same task is answered from the
/// waiting checkpoints with the saved position, without asking storage.
pub proof fn law_load_sees_save(
    a: Map<Seq<char>, CheckpointView>,
    b: Map<Seq<char>, CheckpointView>,
    c: Map<Seq<char>, CheckpointView>,
    batch: usize,
    task_id: String,
    position: Position,
    r1: ManagerAction,
    r2: ManagerAction,
)
    requires
        handled(a, batch, ManagerEvent::Command(CheckpointCommand::Save { task_id, position }), b, r1),
        handled(b, batch, ManagerEvent::Command(CheckpointCommand::Load { task_id }), c, r2),
    ensures
        r2 matches ManagerAction::Reply(Some(ck)) && ck@.position == position && ck@.task_id == task_id@,
        c == b,
{
}

/// After a delete of a task, a load of it is answered from storage, which
/// was told to delete it.
pub proof fn law_load_after_delete(
    a: Map<Seq<char>, CheckpointView>,
    b: Map<Seq<char>, CheckpointView>,
    c: Map<Seq<char>, CheckpointView>,
    batch: usize,
    task_id: String,
    r1: ManagerAction,
    r2: ManagerAction,
)
    requires
        handled(a, batch, ManagerEvent::Command(CheckpointCommand::Delete { task_id }), b, r1),
        handled(b, batch, ManagerEvent::Command(CheckpointCommand::Load { task_id }), c, r2),
    ensures
        r1 == ManagerAction::DeleteFromStorage(task_id),
        r2 == ManagerAction::LoadFromStorage(task_id),
{
}

/// A flush in which every write succeeds leaves nothing waiting; one in
/// which writes fail keeps exactly the checkpoints of the failed tasks, as
/// they were.
pub proof fn law_flush_keeps_failed(pending: Map<Seq<char>, CheckpointView>, failed: Seq<String>)
    ensures
        failed.len() == 0 ==> kept_after_flush(pending, failed) == Map::<Seq<char>, CheckpointView>::empty(),
        forall|k: Seq<char>| #[trigger] kept_after_flush(pending, failed).contains_key(k) <==> pending.contains_key(k)
            && texts(failed).contains(k),
        forall|k: Seq<char>| #[trigger] kept_after_flush(pending, failed).contains_key(k)
            ==> kept_after_flush(pending, failed)[k] == pending[k],
{
    if failed.len() == 0 {
        assert(texts(failed).to_set() =~= Set::<Seq<char>>::empty());
        assert(kept_after_flush(pending, failed) =~= Map::<Seq<char>, CheckpointView>::empty());
    }
}

/// A load after a save of the same task gives the saved position, also when
/// a flush came between: a checkpoint whose write failed is still waiting
/// and answers the load; one that was written is gone from the waiting
/// ones, and storage (which gives back what it was last given) answers it.
pub proof fn law_load_after_flush(
    a: Map<Seq<char>, CheckpointView>,
    b: Map<Seq<char>, CheckpointView>,
    c: Map<Seq<char>, CheckpointView>,
    d: Map<Seq<char>, CheckpointView>,
    batch: usize,
    task_id: String,
    position: Position,
    failed: Seq<String>,
    stored_before: Map<Seq<char>, CheckpointView>,
    stored_after: Map<Seq<char>, CheckpointView>,
    r1: ManagerAction,
    r2: ManagerAction,
    r3: Result<Option<Checkpoint>, MeiliBridgeError>,
)
    requires
        handled(a, batch, ManagerEvent::Command(CheckpointCommand::Save { task_id, position }), b, r1),
        c == kept_after_flush(b, failed),
        !texts(failed).contains(task_id@) ==> stored_after == stored_before.insert(task_id@, b[task_id@]),
        handled(c, batch, ManagerEvent::Command(CheckpointCommand::Load { task_id }), d, r2),
        r2 == ManagerAction::LoadFromStorage(task_id) ==> load_answer(stored_after, task_id@, r3),
    ensures
        (r2 matches ManagerAction::Reply(Some(ck)) && ck@.position == position && ck@.task_id == task_id@) || (r2
            == ManagerAction::LoadFromStorage(task_id) && (r3 matches Ok(Some(x)) && x@.position == position
            && x@.task_id == task_id@)),
{
}

/// Whether the manager's loop runs: saves, loads, deletes and lists are
/// refused until it was started.
pub fn manager_started(started: bool) -> (r: Result<(), MeiliBridgeError>)
    ensures
        started ==> r is Ok,
        !started ==> (r matches Err(MeiliBridgeError::Pipeline(m)) && m@ == "Checkpoint manager not started"@),
{
    if started {
        Ok(())
    } else {
        Err(MeiliBridgeError::Pipeline("Checkpoint manager not started".to_owned()))
    }
}

} // verus!
