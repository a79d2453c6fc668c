//! Per-table queues of events for parallel workers, and moving work from
//! the longest queue to the shortest.

use vstd::prelude::*;
use crate::models::stream_event::Event;

verus! {

/// How events are processed in parallel.
#[derive(Debug, Clone, Copy)]
pub struct ParallelConfig {
    /// Workers per table.
    pub workers_per_table: usize,
    /// Events in flight across all workers at most.
    pub max_concurrent_events: usize,
    /// Whether idle tables take work from busy ones.
    pub work_stealing: bool,
    /// How often the queues are balanced, in milliseconds.
    pub steal_interval_ms: u64,
}

impl Default for ParallelConfig {
    fn default() -> (r: Self)
        ensures
            r.workers_per_table == 4,
            r.max_concurrent_events == 1000,
            r.work_stealing,
            r.steal_interval_ms == 100,
    {
        ParallelConfig { workers_per_table: 4, max_concurrent_events: 1000, work_stealing: true, steal_interval_ms: 100 }
    }
}

/// Events a worker takes from its queue at a time, at most.
pub const WORKER_BATCH: usize = 10;

/// Queue sizes must differ by more than this for work to be moved.
pub const STEAL_THRESHOLD: usize = 100;

/// The queue of events of one table.
pub struct ParallelTableProcessor {
    pub table_name: String,
    pub config: ParallelConfig,
    /// Events waiting, oldest first.
    pub event_queue: Vec<Event>,
}

impl ParallelTableProcessor {
    /// A table with an empty queue.
    pub fn new(table_name: String, config: ParallelConfig) -> (r: Self)
        ensures
            r.table_name == table_name,
            r.config == config,
            r.event_queue@.len() == 0,
    {
        ParallelTableProcessor { table_name, config, event_queue: Vec::new() }
    }

    /// Adds events at the end of the queue, in order.
    pub fn enqueue_events(&mut self, events: Vec<Event>)
        ensures
            final(self).event_queue@ == old(self).event_queue@ + events@,
            final(self).table_name == old(self).table_name,
            final(self).config == old(self).config,
    {
        let mut events = events;
        self.event_queue.append(&mut events);
    }

    /// Events waiting.
    pub fn queue_size(&self) -> (r: usize)
        ensures
            r == self.event_queue@.len(),
    {
        self.event_queue.len()
    }

    /// Takes up to `count` events from the end of the queue, but never more
    /// than half of it; the newest come first.
    pub fn steal_events(&mut self, count: usize) -> (r: Vec<Event>)
        ensures
            ({
                let q = old(self).event_queue@;
                let k: int = if count < q.len() / 2 {
                    count as int
                } else {
                    (q.len() / 2) as int
                };
                &&& final(self).event_queue@ == q.take(q.len() - k)
                &&& r@ == q.skip(q.len() - k).reverse()
            }),
            final(self).table_name == old(self).table_name,
            final(self).config == old(self).config,
    {
        let ghost q = self.event_queue@;
        let half = self.event_queue.len() / 2;
        let k = if count < half {
            count
        } else {
            half
        };
        let mut stolen: Vec<Event> = Vec::new();
        let mut i: usize = 0;
        while i < k
            invariant
                k <= q.len() / 2,
                i <= k,
                self.event_queue@ == q.take(q.len() - i),
                stolen@ == q.skip(q.len() - i).reverse(),
                self.table_name == old(self).table_name,
                self.config == old(self).config,
            decreases k - i,
        {
            let e = self.event_queue.pop().unwrap();
            proof {
                assert(e == q[q.len() - i - 1]);
                assert(q.skip(q.len() - (i + 1)).reverse() =~= q.skip(q.len() - i).reverse().push(e));
                assert(self.event_queue@ =~= q.take(q.len() - (i + 1)));
            }
            stolen.push(e);
            i = i + 1;
        }
        stolen
    }

    /// Takes the oldest events for a worker: up to `WORKER_BATCH` of them.
    pub fn take_batch(&mut self) -> (r: Vec<Event>)
        ensures
            ({
                let q = old(self).event_queue@;
                let k = if q.len() < WORKER_BATCH {
                    q.len() as int
                } else {
                    WORKER_BATCH as int
                };
                &&& r@ == q.take(k)
                &&& final(self).event_queue@ == q.skip(k)
            }),
            final(self).table_name == old(self).table_name,
            final(self).config == old(self).config,
    {
        let ghost q = self.event_queue@;
        let k = if self.event_queue.len() < WORKER_BATCH {
            self.event_queue.len()
        } else {
            WORKER_BATCH
        };
        let mut taken: Vec<Event> = Vec::new();
        let mut i: usize = 0;
        while i < k
            invariant
                k <= q.len(),
                i <= k,
                taken@ == q.take(i as int),
                self.event_queue@ == q.skip(i as int),
                self.table_name == old(self).table_name,
                self.config == old(self).config,
            decreases k - i,
        {
            let e = self.event_queue.remove(0);
            proof {
                assert(q.take(i + 1) =~= q.take(i as int).push(e));
                assert(self.event_queue@ =~= q.skip(i + 1));
            }
            taken.push(e);
            i = i + 1;
        }
        taken
    }
}

/// Events waiting over all tables.
pub open spec fn queued(ps: Seq<ParallelTableProcessor>) -> nat
    decreases ps.len(),
{
    if ps.len() == 0 {
        0
    } else {
        queued(ps.drop_last()) + ps.last().event_queue@.len()
    }
}

proof fn lemma_queued_update(ps: Seq<ParallelTableProcessor>, i: int, p: ParallelTableProcessor)
    requires
        0 <= i < ps.len(),
    ensures
        queued(ps.update(i, p)) + ps[i].event_queue@.len() == queued(ps) + p.event_queue@.len(),
    decreases ps.len(),
{
    if i < ps.len() - 1 {
        lemma_queued_update(ps.drop_last(), i, p);
        assert(ps.update(i, p).drop_last() =~= ps.drop_last().update(i, p));
    } else {
        assert(ps.update(i, p).drop_last() =~= ps.drop_last());
    }
}

/// The index of the first queue of least size (the first of an ascending
/// stable sort by size).
pub open spec fn is_smallest(sizes: Seq<nat>, i: int) -> bool {
    &&& 0 <= i < sizes.len()
    &&& forall|j: int| 0 <= j < sizes.len() ==> sizes[i] <= #[trigger] sizes[j]
    &&& forall|j: int| 0 <= j < i ==> sizes[i] < #[trigger] sizes[j]
}

/// The index of the last queue of greatest size (the last of an ascending
/// stable sort by size).
pub open spec fn is_largest(sizes: Seq<nat>, i: int) -> bool {
    &&& 0 <= i < sizes.len()
    &&& forall|j: int| 0 <= j < sizes.len() ==> #[trigger] sizes[j] <= sizes[i]
    &&& forall|j: int| i < j < sizes.len() ==> #[trigger] sizes[j] < sizes[i]
}

/// The sizes of the queues.
pub open spec fn sizes_of(ps: Seq<ParallelTableProcessor>) -> Seq<nat> {
    ps.map_values(|p: ParallelTableProcessor| p.event_queue@.len())
}

/// The tables' queues, between which work is balanced.
pub struct WorkStealingCoordinator {
    pub processors: Vec<ParallelTableProcessor>,
    pub config: ParallelConfig,
}

impl WorkStealingCoordinator {
    /// A coordinator of no tables.
    pub fn new(config: ParallelConfig) -> (r: Self)
        ensures
            r.processors@.len() == 0,
            r.config == config,
    {
        WorkStealingCoordinator { processors: Vec::new(), config }
    }

    /// Adds a table's queue.
    pub fn register_processor(&mut self, processor: ParallelTableProcessor)
        ensures
            final(self).processors@ == old(self).processors@.push(processor),
            final(self).config == old(self).config,
    {
        self.processors.push(processor);
    }

    /// Moves work once: with two tables or more, when the longest queue
    /// (the last of the longest) holds more than `STEAL_THRESHOLD` events
    /// beyond the shortest (the first of the shortest), half the
    /// difference is taken from its end (as `steal_events`) and added to
    /// the shortest. Returns the indexes of the two queues when work moved.
    pub fn balance_work(&mut self) -> (r: Option<(usize, usize)>)
        ensures
            final(self).config == old(self).config,
            final(self).processors@.len() == old(self).processors@.len(),
            queued(final(self).processors@) == queued(old(self).processors@),
            match r {
                None => final(self).processors@ == old(self).processors@,
                Some((small, large)) => {
                    let ps = old(self).processors@;
                    let sizes = sizes_of(ps);
                    let q = ps[large as int].event_queue@;
                    let k = (sizes[large as int] - sizes[small as int]) / 2;
                    &&& ps.len() >= 2
                    &&& is_smallest(sizes, small as int)
                    &&& is_largest(sizes, large as int)
                    &&& sizes[large as int] > sizes[small as int] + STEAL_THRESHOLD
                    &&& k <= q.len() / 2
                    &&& final(self).processors@[large as int].event_queue@ == q.take(q.len() - k)
                    &&& final(self).processors@[small as int].event_queue@ == ps[small as int].event_queue@
                        + q.skip(q.len() - k).reverse()
                    &&& forall|j: int| 0 <= j < ps.len() && j != small && j != large ==> #[trigger] final(self).processors@[j]
                        == ps[j]
                },
            },
            r is None ==> (old(self).processors@.len() < 2 || forall|i: int, j: int|
                0 <= i < old(self).processors@.len() && 0 <= j < old(self).processors@.len() ==> #[trigger] sizes_of(
                old(self).processors@,
            )[i] <= #[trigger] sizes_of(old(self).processors@)[j] + STEAL_THRESHOLD),
    {
        let n = self.processors.len();
        if n < 2 {
            return None;
        }
        let ghost ps = self.processors@;
        let ghost sizes = sizes_of(ps);
        let mut small: usize = 0;
        let mut large: usize = 0;
        let mut i: usize = 1;
        while i < n
            invariant
                n == ps.len(),
                ps == self.processors@,
                sizes == sizes_of(ps),
                1 <= i <= n,
                small < i,
                large < i,
                forall|j: int| 0 <= j < i ==> sizes[small as int] <= #[trigger] sizes[j],
                forall|j: int| 0 <= j < small ==> sizes[small as int] < #[trigger] sizes[j],
                forall|j: int| 0 <= j < i ==> #[trigger] sizes[j] <= sizes[large as int],
                forall|j: int| large < j < i ==> #[trigger] sizes[j] < sizes[large as int],
            decreases n - i,
        {
            let s = self.processors[i].event_queue.len();
            if s < self.processors[small].event_queue.len() {
                small = i;
            }
            if s >= self.processors[large].event_queue.len() {
                large = i;
            }
            i = i + 1;
        }
        let small_size = self.processors[small].event_queue.len();
        let large_size = self.processors[large].event_queue.len();
        if large_size <= small_size || large_size - small_size <= STEAL_THRESHOLD {
            proof {
                assert forall|a: int, b: int|
                    0 <= a < ps.len() && 0 <= b < ps.len() implies #[trigger] sizes[a] <= #[trigger] sizes[b]
                    + STEAL_THRESHOLD by {
                    assert(sizes[a] <= sizes[large as int]);
                    assert(sizes[small as int] <= sizes[b]);
                }
            }
            return None;
        }
        let steal_count = (large_size - small_size) / 2;
        let stolen = self.processors[large].steal_events(steal_count);
        let ghost mid = self.processors@;
        proof {
            lemma_queued_update(ps, large as int, mid[large as int]);
            assert(mid =~= ps.update(large as int, mid[large as int]));
        }
        let ghost moved = stolen@;
        self.processors[small].enqueue_events(stolen);
        proof {
            lemma_queued_update(mid, small as int, self.processors@[small as int]);
            assert(self.processors@ =~= mid.update(small as int, self.processors@[small as int]));
        }
        Some((small, large))
    }
}

/// Balancing keeps every queued event: the total over all tables is the
/// same before and after, and a move takes at most half of the longest
/// queue.
pub proof fn law_balance_keeps_events(before: Seq<ParallelTableProcessor>, after: Seq<ParallelTableProcessor>, small: int, large: int)
    requires
        0 <= small < before.len(),
        0 <= large < before.len(),
        small != large,
        after.len() == before.len(),
        forall|j: int| 0 <= j < before.len() && j != small && j != large ==> #[trigger] after[j] == before[j],
        ({
            let q = before[large].event_queue@;
            let k = (before[large].event_queue@.len() - before[small].event_queue@.len()) / 2;
            &&& 0 <= k <= q.len() / 2
            &&& after[large].event_queue@ == q.take(q.len() - k)
            &&& after[small].event_queue@ == before[small].event_queue@ + q.skip(q.len() - k).reverse()
        }),
    ensures
        queued(after) == queued(before),
{
    let mid = before.update(large, after[large]);
    lemma_queued_update(before, large, after[large]);
    lemma_queued_update(mid, small, after[small]);
    assert(after =~= mid.update(small, after[small]));
}

} // verus!
