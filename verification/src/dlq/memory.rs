//! Dead letter entries and the in-memory store.

use vstd::prelude::*;
use crate::clock::now_micros;
use crate::error::{error_text, MeiliBridgeError};
use crate::ids::new_uuid_string;
use crate::keyed::{map_of, unique_keys, KeyedMap};
use crate::models::event::Event;

verus! {

/// An event that failed, with why and how often it was retried.
#[derive(Debug)]
pub struct DeadLetterEntry {
    pub id: String,
    pub task_id: String,
    pub event: Event,
    /// The error's message.
    pub error: String,
    pub retry_count: u32,
    /// Microseconds since the Unix epoch.
    pub created_at: i64,
    pub last_retry_at: Option<i64>,
    pub metadata: Vec<(String, String)>,
}

impl DeadLetterEntry {
    /// An entry for an event of a task that failed with `error` after
    /// `retry_count` retries, with a fresh id; it was last retried now when
    /// it was retried at all.
    pub fn new(task_id: String, event: Event, error: &MeiliBridgeError, retry_count: u32) -> (r: Self)
        ensures
            crate::ids::uuid_v4_text(r.id@),
            r.task_id == task_id,
            r.event == event,
            r.error@ == error_text(*error),
            r.retry_count == retry_count,
            r.last_retry_at is Some <==> retry_count > 0,
            r.metadata@.len() == 0,
    {
        let now = now_micros();
        DeadLetterEntry {
            id: new_uuid_string(),
            task_id,
            event,
            error: error.message(),
            retry_count,
            created_at: now,
            last_retry_at: if retry_count > 0 {
                Some(now_micros())
            } else {
                None
            },
            metadata: Vec::new(),
        }
    }

    /// Counts one more retry, now.
    pub fn mark_retry(&mut self)
        requires
            old(self).retry_count < u32::MAX,
        ensures
            final(self).retry_count == old(self).retry_count + 1,
            final(self).last_retry_at is Some,
            final(self).id == old(self).id,
            final(self).task_id == old(self).task_id,
            final(self).event == old(self).event,
            final(self).error == old(self).error,
            final(self).created_at == old(self).created_at,
            final(self).metadata == old(self).metadata,
    {
        self.retry_count = self.retry_count + 1;
        self.last_retry_at = Some(now_micros());
    }
}

/// The entries of a task among a list, in list order, with repeats of
/// nothing since ids are unique.
pub open spec fn task_count(s: Seq<(String, DeadLetterEntry)>, task_id: Seq<char>) -> nat
    decreases s.len(),
{
    if s.len() == 0 {
        0
    } else {
        task_count(s.drop_last(), task_id) + if s.last().1.task_id@ == task_id {
            1nat
        } else {
            0nat
        }
    }
}

/// The kind of an error: the first line of its message, or `Unknown`.
pub open spec fn error_kind(error: Seq<char>) -> Seq<char> {
    if crate::text::lines_of(error).len() > 0 {
        crate::text::lines_of(error)[0]
    } else {
        "Unknown"@
    }
}

/// How many entries of a list have errors of a kind.
pub open spec fn kind_count(s: Seq<(String, DeadLetterEntry)>, kind: Seq<char>) -> nat
    decreases s.len(),
{
    if s.len() == 0 {
        0
    } else {
        kind_count(s.drop_last(), kind) + if error_kind(s.last().1.error@) == kind {
            1nat
        } else {
            0nat
        }
    }
}

/// The earliest creation time in a list.
pub open spec fn oldest_of(s: Seq<(String, DeadLetterEntry)>) -> Option<i64>
    decreases s.len(),
{
    if s.len() == 0 {
        None
    } else {
        match oldest_of(s.drop_last()) {
            Some(t) => if s.last().1.created_at < t {
                Some(s.last().1.created_at)
            } else {
                Some(t)
            },
            None => Some(s.last().1.created_at),
        }
    }
}

/// The latest creation time in a list.
pub open spec fn newest_of(s: Seq<(String, DeadLetterEntry)>) -> Option<i64>
    decreases s.len(),
{
    if s.len() == 0 {
        None
    } else {
        match newest_of(s.drop_last()) {
            Some(t) => if s.last().1.created_at > t {
                Some(s.last().1.created_at)
            } else {
                Some(t)
            },
            None => Some(s.last().1.created_at),
        }
    }
}

/// Counts of the dead letter queue.
#[derive(Debug)]
pub struct DlqStatistics {
    pub total_entries: usize,
    /// Entries per task.
    pub entries_by_task: KeyedMap<usize>,
    /// Entries per kind of error.
    pub entries_by_error: KeyedMap<usize>,
    pub oldest_entry: Option<i64>,
    pub newest_entry: Option<i64>,
}

fn error_kind_exec(error: &String) -> (r: String)
    ensures
        r@ == error_kind(error@),
{
    let ls = crate::text::text_lines(error.as_str());
    if ls.len() > 0 {
        crate::text::string_from_chars(ls[0].as_slice())
    } else {
        "Unknown".to_owned()
    }
}

fn bump(counts: &mut KeyedMap<usize>, key: String, bound: usize)
    requires
        old(counts).wf(),
        old(counts)@.contains_key(key@) ==> old(counts)@[key@] < bound,
    ensures
        final(counts).wf(),
        final(counts)@ == old(counts)@.insert(
            key@,
            if old(counts)@.contains_key(key@) {
                (old(counts)@[key@] + 1) as usize
            } else {
                1usize
            },
        ),
{
    let n = match counts.get(&key) {
        Some(c) => *c + 1,
        None => 1,
    };
    counts.insert(key, n);
}

/// Dead letter entries kept in memory, by id.
pub struct InMemoryDlqStorage {
    entries: KeyedMap<DeadLetterEntry>,
}

impl InMemoryDlqStorage {
    /// The entries by id.
    pub closed spec fn stored(&self) -> Map<Seq<char>, DeadLetterEntry> {
        self.entries@
    }

    /// The entries in the order kept.
    pub closed spec fn listed(&self) -> Seq<(String, DeadLetterEntry)> {
        self.entries.entry_list()
    }

    /// The store is well formed.
    pub closed spec fn wf(&self) -> bool {
        &&& self.entries.wf()
        &&& forall|k: Seq<char>| #[trigger] self.entries@.contains_key(k) ==> self.entries@[k].id@ == k
    }

    /// No entries.
    pub fn new() -> (r: Self)
        ensures
            r.wf(),
            r.stored() == Map::<Seq<char>, DeadLetterEntry>::empty(),
    {
        let r = InMemoryDlqStorage { entries: KeyedMap::new() };
        proof {
            r.entries.lemma_entries();
        }
        r
    }

    /// Stores an entry under its id (replacing one with the same id).
    pub fn store(&mut self, entry: DeadLetterEntry)
        requires
            old(self).wf(),
        ensures
            final(self).wf(),
            final(self).stored() == old(self).stored().insert(entry.id@, entry),
    {
        let id = entry.id.clone();
        self.entries.insert(id, entry);
    }

    /// Stores a changed entry under its id.
    pub fn update(&mut self, entry: DeadLetterEntry)
        requires
            old(self).wf(),
        ensures
            final(self).wf(),
            final(self).stored() == old(self).stored().insert(entry.id@, entry),
    {
        self.store(entry);
    }

    /// The entry with an id.
    pub fn get(&self, id: &String) -> (r: Option<&DeadLetterEntry>)
        requires
            self.wf(),
        ensures
            match r {
                Some(e) => self.stored().contains_key(id@) && *e == self.stored()[id@],
                None => !self.stored().contains_key(id@),
            },
    {
        self.entries.get(id)
    }

    /// Takes the entry with an id out of the store.
    pub fn take(&mut self, id: &String) -> (r: Option<DeadLetterEntry>)
        requires
            old(self).wf(),
        ensures
            final(self).wf(),
            final(self).stored() == old(self).stored().remove(id@),
            match r {
                Some(e) => old(self).stored().contains_key(id@) && e == old(self).stored()[id@] && e.id@ == id@,
                None => !old(self).stored().contains_key(id@),
            },
    {
        self.entries.take(id)
    }

    /// Drops the entry with an id.
    pub fn remove(&mut self, id: &String)
        requires
            old(self).wf(),
        ensures
            final(self).wf(),
            final(self).stored() == old(self).stored().remove(id@),
    {
        self.entries.remove(id);
    }

    /// The oldest entries of a task, oldest first, at most `limit` of them.
    pub fn get_by_task(&self, task_id: &String, limit: Option<usize>) -> (r: Vec<&DeadLetterEntry>)
        requires
            self.wf(),
        ensures
            r@.len() == match limit {
                Some(l) => if l < task_count(self.listed(), task_id@) {
                    l as nat
                } else {
                    task_count(self.listed(), task_id@)
                },
                None => task_count(self.listed(), task_id@),
            },
            forall|i: int| 0 <= i < r@.len() ==> self.stored().contains_key(#[trigger] r@[i].id@) && self.stored()[r@[i].id@]
                == *r@[i] && r@[i].task_id@ == task_id@,
            forall|i: int, j: int| 0 <= i < j < r@.len() ==> #[trigger] r@[i].id@ != #[trigger] r@[j].id@,
            forall|i: int, j: int| 0 <= i <= j < r@.len() ==> #[trigger] r@[i].created_at <= #[trigger] r@[j].created_at,
            forall|k: Seq<char>| #![trigger self.stored()[k]]
                self.stored().contains_key(k) && self.stored()[k].task_id@ == task_id@ && r@.len() > 0 && !(exists|i: int|
                    0 <= i < r@.len() && #[trigger] r@[i].id@ == k) ==> self.stored()[k].created_at
                    >= r@[r@.len() - 1].created_at,
    {
        let list = self.entries.entries();
        proof {
            self.entries.lemma_entries();
        }
        let ghost ls = list@;
        // The task's entries as (creation time, position) pairs, kept sorted
        // by time; an entry goes after those no newer than it.
        let mut sorted: Vec<(i64, usize)> = Vec::new();
        let mut i: usize = 0;
        while i < list.len()
            invariant
                i <= ls.len(),
                ls == list@,
                sorted@.len() == task_count(ls.take(i as int), task_id@),
                forall|a: int| 0 <= a < sorted@.len() ==> (#[trigger] sorted@[a]).1 < i && ls[sorted@[a].1 as int].1.task_id@
                    == task_id@ && ls[sorted@[a].1 as int].1.created_at == sorted@[a].0,
                forall|a: int, b: int| 0 <= a < b < sorted@.len() ==> #[trigger] sorted@[a].1 != #[trigger] sorted@[b].1,
                forall|a: int, b: int| 0 <= a <= b < sorted@.len() ==> #[trigger] sorted@[a].0 <= #[trigger] sorted@[b].0,
                forall|j: int| 0 <= j < i && ls[j].1.task_id@ == task_id@ ==> exists|a: int| 0 <= a < sorted@.len() && (
                #[trigger] sorted@[a]).1 == j,
            decreases ls.len() - i,
        {
            assert(ls.take(i + 1).drop_last() =~= ls.take(i as int));
            let e = &list[i].1;
            if e.task_id == *task_id {
                let t = e.created_at;
                let mut pos: usize = 0;
                while pos < sorted.len() && sorted[pos].0 <= t
                    invariant
                        pos <= sorted@.len(),
                        forall|a: int| 0 <= a < pos ==> (#[trigger] sorted@[a]).0 <= t,
                    decreases sorted@.len() - pos,
                {
                    pos = pos + 1;
                }
                let ghost old_sorted = sorted@;
                sorted.insert(pos, (t, i));
                assert(sorted@ == old_sorted.insert(pos as int, (t, i)));
                assert forall|a: int, b: int| 0 <= a <= b < sorted@.len() implies #[trigger] sorted@[a].0
                    <= #[trigger] sorted@[b].0 by {
                    if a < pos && b > pos {
                        assert(old_sorted[a].0 <= t);
                        assert(pos < old_sorted.len());
                        assert(old_sorted[pos as int].0 > t);
                        assert(old_sorted[pos as int].0 <= old_sorted[b - 1].0);
                    } else if a == pos && b > pos {
                        assert(old_sorted[pos as int].0 > t);
                        assert(old_sorted[pos as int].0 <= old_sorted[b - 1].0);
                    } else if a < pos && b == pos {
                        assert(old_sorted[a].0 <= t);
                    } else if a > pos {
                        assert(old_sorted[a - 1].0 <= old_sorted[b - 1].0);
                    } else if b < pos {
                        assert(old_sorted[a].0 <= old_sorted[b].0);
                    }
                }
                assert forall|a: int, b: int| 0 <= a < b < sorted@.len() implies #[trigger] sorted@[a].1 != #[trigger] sorted@[b].1 by {
                    let a0 = if a < pos { a } else { a - 1 };
                    let b0 = if b < pos { b } else { b - 1 };
                    if a != pos && b != pos {
                        assert(old_sorted[a0].1 != old_sorted[b0].1);
                    } else if a == pos {
                        assert(old_sorted[b0].1 < i);
                    } else {
                        assert(old_sorted[a0].1 < i);
                    }
                }
                assert forall|j: int| 0 <= j < i + 1 && ls[j].1.task_id@ == task_id@ implies exists|a: int| 0 <= a < sorted@.len()
                    && (#[trigger] sorted@[a]).1 == j by {
                    if j == i {
                        assert(sorted@[pos as int].1 == j);
                    } else {
                        let a = choose|a: int| 0 <= a < old_sorted.len() && (#[trigger] old_sorted[a]).1 == j;
                        if a < pos {
                            assert(sorted@[a].1 == j);
                        } else {
                            assert(sorted@[a + 1].1 == j);
                        }
                    }
                }
            }
            i = i + 1;
        }
        assert(ls.take(ls.len() as int) =~= ls);
        let n = match limit {
            Some(l) => if l < sorted.len() {
                l
            } else {
                sorted.len()
            },
            None => sorted.len(),
        };
        let mut r: Vec<&DeadLetterEntry> = Vec::new();
        let mut k: usize = 0;
        while k < n
            invariant
                k <= n <= sorted@.len(),
                ls == list@,
                r@.len() == k,
                forall|a: int| 0 <= a < sorted@.len() ==> (#[trigger] sorted@[a]).1 < ls.len() && ls[sorted@[a].1 as int].1.task_id@
                    == task_id@ && ls[sorted@[a].1 as int].1.created_at == sorted@[a].0,
                forall|a: int| 0 <= a < k ==> #[trigger] r@[a] == &ls[sorted@[a].1 as int].1,
            decreases n - k,
        {
            r.push(&list[sorted[k].1].1);
            k = k + 1;
        }
        proof {
            let m = self.entries@;
            assert forall|a: int| 0 <= a < r@.len() implies self.stored().contains_key(#[trigger] r@[a].id@)
                && self.stored()[r@[a].id@] == *r@[a] && r@[a].task_id@ == task_id@ by {
                let p = sorted@[a].1 as int;
                crate::keyed::lemma_unique_lookup(ls, ls[p].0@, p);
            }
            assert forall|a: int, b: int| 0 <= a < b < r@.len() implies #[trigger] r@[a].id@ != #[trigger] r@[b].id@ by {
                let p = sorted@[a].1 as int;
                let q = sorted@[b].1 as int;
                crate::keyed::lemma_unique_lookup(ls, ls[p].0@, p);
                crate::keyed::lemma_unique_lookup(ls, ls[q].0@, q);
                assert(ls[p].0@ != ls[q].0@);
            }
            assert forall|a: int, b: int| 0 <= a <= b < r@.len() implies #[trigger] r@[a].created_at <= #[trigger] r@[b].created_at by {
                assert(sorted@[a].0 <= sorted@[b].0);
            }
            assert forall|key: Seq<char>| #![trigger self.stored()[key]]
                self.stored().contains_key(key) && self.stored()[key].task_id@ == task_id@ && r@.len() > 0 && !(exists|i: int|
                    0 <= i < r@.len() && #[trigger] r@[i].id@ == key) implies self.stored()[key].created_at
                >= r@[r@.len() - 1].created_at by {
                let j = choose|j: int| 0 <= j < ls.len() && #[trigger] ls[j].0@ == key;
                crate::keyed::lemma_unique_lookup(ls, key, j);
                let a = choose|a: int| 0 <= a < sorted@.len() && (#[trigger] sorted@[a]).1 == j;
                if a < n {
                    assert(r@[a].id@ == key);
                }
                assert(sorted@[n - 1].0 <= sorted@[a].0);
            }
        }
        r
    }

    /// Drops every entry of a task; the answer is how many there were.
    pub fn clear_task(&mut self, task_id: &String) -> (r: usize)
        requires
            old(self).wf(),
        ensures
            final(self).wf(),
            r == task_count(old(self).listed(), task_id@),
            forall|k: Seq<char>| #[trigger] final(self).stored().contains_key(k) <==> old(self).stored().contains_key(k)
                && old(self).stored()[k].task_id@ != task_id@,
            forall|k: Seq<char>| #[trigger] final(self).stored().contains_key(k) ==> final(self).stored()[k] == old(
                self,
            ).stored()[k],
    {
        let ghost m0 = self.entries@;
        let mut ids: Vec<String> = Vec::new();
        {
            let list = self.entries.entries();
            proof {
                self.entries.lemma_entries();
            }
            let ghost ls = list@;
            let mut i: usize = 0;
            while i < list.len()
                invariant
                    i <= ls.len(),
                    ls == list@,
                    crate::keyed::unique_keys(ls),
                    map_of(ls) == m0,
                    ids@.len() == task_count(ls.take(i as int), task_id@),
                    forall|a: int| 0 <= a < ids@.len() ==> m0.contains_key(#[trigger] ids@[a]@) && m0[ids@[a]@].task_id@ == task_id@,
                    forall|j: int| 0 <= j < i && #[trigger] ls[j].1.task_id@ == task_id@ ==> crate::text::texts(ids@).contains(ls[j].0@),
                decreases ls.len() - i,
            {
                assert(ls.take(i + 1).drop_last() =~= ls.take(i as int));
                proof {
                    crate::keyed::lemma_unique_lookup(ls, ls[i as int].0@, i as int);
                }
                if list[i].1.task_id == *task_id {
                    let ghost before = crate::text::texts(ids@);
                    ids.push(list[i].0.clone());
                    assert(crate::text::texts(ids@) =~= before.push(ls[i as int].0@));
                    assert forall|j: int| 0 <= j < i + 1 && #[trigger] ls[j].1.task_id@ == task_id@ implies crate::text::texts(
                        ids@,
                    ).contains(ls[j].0@) by {
                        if j < i {
                            let a = choose|a: int| 0 <= a < before.len() && before[a] == ls[j].0@;
                            assert(crate::text::texts(ids@)[a] == ls[j].0@);
                        } else {
                            assert(crate::text::texts(ids@)[before.len() as int] == ls[j].0@);
                        }
                    }
                }
                i = i + 1;
            }
            assert(ls.take(ls.len() as int) =~= ls);
            assert forall|k: Seq<char>| m0.contains_key(k) && m0[k].task_id@ == task_id@ implies crate::text::texts(ids@).contains(k) by {
                let j = choose|j: int| 0 <= j < ls.len() && #[trigger] ls[j].0@ == k;
                crate::keyed::lemma_unique_lookup(ls, k, j);
                assert(m0[k] == ls[j].1);
                assert(ls[j].1.task_id@ == task_id@);
            }
        }
        let count = ids.len();
        let mut a: usize = 0;
        while a < ids.len()
            invariant
                self.wf(),
                a <= ids@.len(),
                forall|b: int| 0 <= b < ids@.len() ==> m0.contains_key(#[trigger] ids@[b]@) && m0[ids@[b]@].task_id@ == task_id@,
                forall|k: Seq<char>| #[trigger] self.entries@.contains_key(k) <==> (m0.contains_key(k) && !crate::text::texts(ids@).take(
                    a as int,
                ).contains(k)),
                forall|k: Seq<char>| #[trigger] self.entries@.contains_key(k) ==> self.entries@[k] == m0[k],
            decreases ids@.len() - a,
        {
            let ghost prefix = crate::text::texts(ids@).take(a as int);
            let ghost ka = ids@[a as int]@;
            let ghost before = self.entries@;
            self.entries.remove(&ids[a]);
            assert(crate::text::texts(ids@).take(a + 1) =~= prefix.push(ka));
            assert forall|k: Seq<char>| #[trigger] self.entries@.contains_key(k) <==> (m0.contains_key(k) && !prefix.push(ka).contains(k)) by {
                if prefix.push(ka).contains(k) {
                    let c = choose|c: int| 0 <= c < prefix.push(ka).len() && prefix.push(ka)[c] == k;
                    if c < prefix.len() {
                        assert(prefix[c] == k);
                    }
                }
                if prefix.contains(k) {
                    let c = choose|c: int| 0 <= c < prefix.len() && prefix[c] == k;
                    assert(prefix.push(ka)[c] == k);
                }
                if k == ka {
                    assert(prefix.push(ka)[prefix.len() as int] == k);
                }
            }
            a = a + 1;
        }
        assert(crate::text::texts(ids@).take(ids@.len() as int) =~= crate::text::texts(ids@));
        assert forall|k: Seq<char>| #[trigger] self.stored().contains_key(k) <==> old(self).stored().contains_key(k)
            && old(self).stored()[k].task_id@ != task_id@ by {
            if crate::text::texts(ids@).contains(k) {
                let b = choose|b: int| 0 <= b < crate::text::texts(ids@).len() && crate::text::texts(ids@)[b] == k;
                assert(ids@[b]@ == k);
            }
        }
        count
    }

    /// Counts the entries: in all, per task and per kind of error, with
    /// the earliest and latest creation times.
    pub fn get_statistics(&self) -> (r: DlqStatistics)
        requires
            self.wf(),
        ensures
            r.total_entries == self.listed().len(),
            r.entries_by_task.wf(),
            r.entries_by_error.wf(),
            forall|t: Seq<char>| #[trigger] r.entries_by_task@.contains_key(t) <==> task_count(self.listed(), t) > 0,
            forall|t: Seq<char>| #[trigger] r.entries_by_task@.contains_key(t) ==> r.entries_by_task@[t] == task_count(
                self.listed(),
                t,
            ),
            forall|k: Seq<char>| #[trigger] r.entries_by_error@.contains_key(k) <==> kind_count(self.listed(), k) > 0,
            forall|k: Seq<char>| #[trigger] r.entries_by_error@.contains_key(k) ==> r.entries_by_error@[k] == kind_count(
                self.listed(),
                k,
            ),
            r.oldest_entry == oldest_of(self.listed()),
            r.newest_entry == newest_of(self.listed()),
    {
        let list = self.entries.entries();
        statistics_of(list.len(), &list)
    }
}

/// The statistics of listed entries (`total_entries` of them in all):
/// counts per task and per kind of error, with the earliest and latest
/// creation times. Redis-kept entries are counted this way too, from the
/// entries that could be fetched.
pub fn statistics_of(total_entries: usize, list: &Vec<(String, DeadLetterEntry)>) -> (r: DlqStatistics)
    ensures
        r.total_entries == total_entries,
        r.entries_by_task.wf(),
        r.entries_by_error.wf(),
        forall|t: Seq<char>| #[trigger] r.entries_by_task@.contains_key(t) <==> task_count(list@, t) > 0,
        forall|t: Seq<char>| #[trigger] r.entries_by_task@.contains_key(t) ==> r.entries_by_task@[t] == task_count(
            list@,
            t,
        ),
        forall|k: Seq<char>| #[trigger] r.entries_by_error@.contains_key(k) <==> kind_count(list@, k) > 0,
        forall|k: Seq<char>| #[trigger] r.entries_by_error@.contains_key(k) ==> r.entries_by_error@[k] == kind_count(
            list@,
            k,
        ),
        r.oldest_entry == oldest_of(list@),
        r.newest_entry == newest_of(list@),
{
    let ghost ls = list@;
    let mut by_task: KeyedMap<usize> = KeyedMap::new();
    let mut by_error: KeyedMap<usize> = KeyedMap::new();
    let mut oldest: Option<i64> = None;
    let mut newest: Option<i64> = None;
    let mut i: usize = 0;
    while i < list.len()
        invariant
            i <= ls.len(),
            ls == list@,
            by_task.wf(),
            by_error.wf(),
            forall|t: Seq<char>| #[trigger] by_task@.contains_key(t) <==> task_count(ls.take(i as int), t) > 0,
            forall|t: Seq<char>| #[trigger] by_task@.contains_key(t) ==> by_task@[t] == task_count(ls.take(i as int), t),
            forall|k: Seq<char>| #[trigger] by_error@.contains_key(k) <==> kind_count(ls.take(i as int), k) > 0,
            forall|k: Seq<char>| #[trigger] by_error@.contains_key(k) ==> by_error@[k] == kind_count(ls.take(i as int), k),
            forall|t: Seq<char>| task_count(ls.take(i as int), t) <= i,
            forall|k: Seq<char>| kind_count(ls.take(i as int), k) <= i,
            oldest == oldest_of(ls.take(i as int)),
            newest == newest_of(ls.take(i as int)),
        decreases ls.len() - i,
    {
        let e = &list[i].1;
        let ghost pre = ls.take(i as int);
        let ghost post = ls.take(i + 1);
        assert(post.drop_last() =~= pre);
        assert(post.last() == ls[i as int]);
        proof {
            assert forall|t: Seq<char>| task_count(post, t) <= i + 1 by {
                assert(task_count(pre, t) <= i);
            }
            assert forall|k: Seq<char>| kind_count(post, k) <= i + 1 by {
                assert(kind_count(pre, k) <= i);
            }
        }
        bump(&mut by_task, e.task_id.clone(), i + 1);
        let kind = error_kind_exec(&e.error);
        bump(&mut by_error, kind, i + 1);
        oldest = match oldest {
            Some(t) => if e.created_at < t {
                Some(e.created_at)
            } else {
                Some(t)
            },
            None => Some(e.created_at),
        };
        newest = match newest {
            Some(t) => if e.created_at > t {
                Some(e.created_at)
            } else {
                Some(t)
            },
            None => Some(e.created_at),
        };
        i = i + 1;
    }
    assert(ls.take(ls.len() as int) =~= ls);
    DlqStatistics {
        total_entries,
        entries_by_task: by_task,
        entries_by_error: by_error,
        oldest_entry: oldest,
        newest_entry: newest,
    }
}

} // verus!
