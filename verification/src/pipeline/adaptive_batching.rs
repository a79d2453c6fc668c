//! Per-table batch sizes that follow the measured latency: a sliding
//! window of measurements per table, and when a size may change.

use vstd::prelude::*;
use crate::clock::{elapsed_under, instant_now};
use crate::config::performance::AdaptiveBatchingConfig;
use crate::keyed::KeyedMap;

verus! {

/// What the processing of a batch measured. The two rates are held as the
/// bits of their binary64 values.
#[derive(Debug)]
pub struct BatchMetrics {
    pub batch_size: usize,
    pub processing_time_ms: u64,
    /// Documents per second (binary64 bits).
    pub documents_per_second: u64,
    /// Memory used in megabytes (binary64 bits).
    pub memory_usage_mb: u64,
    /// When the batch started.
    pub timestamp: tokio::time::Instant,
}

/// The batch size of a table and its recent measurements.
#[derive(Debug)]
pub struct TableBatchState {
    pub current_batch_size: usize,
    /// The latest measurements, oldest first.
    pub metrics_window: Vec<BatchMetrics>,
    /// When the size last changed (or the state was made).
    pub last_adjustment: tokio::time::Instant,
    /// Batches in a row that met the target latency.
    pub consecutive_successes: u32,
    /// Batches in a row that missed it.
    pub consecutive_failures: u32,
}

impl TableBatchState {
    /// A state at `initial_size`, with no measurements, made now.
    pub fn new(initial_size: usize) -> (r: Self)
        ensures
            r.current_batch_size == initial_size,
            r.metrics_window@.len() == 0,
            r.consecutive_successes == 0,
            r.consecutive_failures == 0,
    {
        TableBatchState {
            current_batch_size: initial_size,
            metrics_window: Vec::new(),
            last_adjustment: instant_now(),
            consecutive_successes: 0,
            consecutive_failures: 0,
        }
    }
}

/// The processing times of a window of measurements, summed.
pub open spec fn total_time(ms: Seq<BatchMetrics>) -> nat
    decreases ms.len(),
{
    if ms.len() == 0 {
        0
    } else {
        total_time(ms.drop_last()) + ms.last().processing_time_ms as nat
    }
}

/// The mean processing time of a window, rounded down; 0 for no
/// measurements.
pub open spec fn mean_time(ms: Seq<BatchMetrics>) -> nat {
    if ms.len() == 0 {
        0
    } else {
        total_time(ms) / ms.len()
    }
}

proof fn lemma_total_time_bound(ms: Seq<BatchMetrics>)
    ensures
        total_time(ms) <= ms.len() * (u64::MAX as nat),
    decreases ms.len(),
{
    if ms.len() > 0 {
        lemma_total_time_bound(ms.drop_last());
        assert((ms.len() - 1) * (u64::MAX as nat) + u64::MAX == ms.len() * (u64::MAX as nat))
            by (nonlinear_arith)
            requires
                ms.len() > 0,
        ;
    }
}

/// The mean processing time of a window, rounded down; 0 for no
/// measurements.
pub fn calculate_average_latency(window: &Vec<BatchMetrics>) -> (r: u64)
    ensures
        r == mean_time(window@),
{
    let n = window.len();
    if n == 0 {
        return 0;
    }
    let mut sum: u128 = 0;
    let mut i: usize = 0;
    while i < n
        invariant
            n == window@.len(),
            i <= n,
            sum == total_time(window@.take(i as int)),
            sum <= i * (u64::MAX as nat),
        decreases n - i,
    {
        proof {
            assert(window@.take(i + 1).drop_last() =~= window@.take(i as int));
            assert((i + 1) * (u64::MAX as nat) == i * (u64::MAX as nat) + u64::MAX) by (nonlinear_arith);
            assert(i * (u64::MAX as nat) + u64::MAX <= 0x1_0000_0000_0000_0000 * (u64::MAX as nat))
                by (nonlinear_arith)
                requires
                    i < 0x1_0000_0000_0000_0000,
            ;
        }
        sum = sum + window[i].processing_time_ms as u128;
        i = i + 1;
    }
    proof {
        assert(window@.take(n as int) =~= window@);
        assert((sum as nat) / (n as nat) <= u64::MAX) by (nonlinear_arith)
            requires
                n > 0,
                sum <= n * (u64::MAX as nat),
        ;
    }
    (sum / (n as u128)) as u64
}

/// What the batch size of a table should be.
#[derive(Debug, Clone, Copy, PartialEq, Eq, Structural)]
pub enum BatchSizeStep {
    /// Use this size.
    Fixed(usize),
    /// Enough time and measurements have passed: work out a new size from
    /// the current one and the mean latency, then record it with
    /// `apply_batch_size`.
    Adjust { current: usize, average_latency_ms: u64 },
}

/// The step for a table's size: keep it while the last change is recent
/// or fewer than half a window of measurements are in; else adjust.
pub open spec fn size_step_spec(s: TableBatchState, recent: bool, window_size: usize) -> BatchSizeStep {
    if recent || s.metrics_window@.len() < window_size / 2 {
        BatchSizeStep::Fixed(s.current_batch_size)
    } else {
        BatchSizeStep::Adjust { current: s.current_batch_size, average_latency_ms: mean_time(s.metrics_window@) as u64 }
    }
}

/// The step for a table's size, given whether its last change is more
/// recent than the adjustment interval.
pub fn size_step(s: &TableBatchState, recent: bool, window_size: usize) -> (r: BatchSizeStep)
    ensures
        r == size_step_spec(*s, recent, window_size),
{
    if recent || s.metrics_window.len() < window_size / 2 {
        BatchSizeStep::Fixed(s.current_batch_size)
    } else {
        BatchSizeStep::Adjust {
            current: s.current_batch_size,
            average_latency_ms: calculate_average_latency(&s.metrics_window),
        }
    }
}

/// A table state as the manager finds it: its own, or a fresh one at
/// `size` when it has none yet.
pub open spec fn found_or_fresh(m: Map<Seq<char>, TableBatchState>, t: Seq<char>, size: usize, s: TableBatchState) -> bool {
    if m.contains_key(t) {
        s == m[t]
    } else {
        s.current_batch_size == size && s.metrics_window@.len() == 0 && s.consecutive_successes == 0
            && s.consecutive_failures == 0
    }
}

/// Batch sizes per table that follow the measured latency.
pub struct AdaptiveBatchingManager {
    pub config: AdaptiveBatchingConfig,
    /// The state of each table.
    pub table_metrics: KeyedMap<TableBatchState>,
}

impl AdaptiveBatchingManager {
    /// The states are well kept.
    pub open spec fn wf(&self) -> bool {
        self.table_metrics.wf()
    }

    /// A manager with no tables yet.
    pub fn new(config: AdaptiveBatchingConfig) -> (r: Self)
        ensures
            r.wf(),
            r.config == config,
            r.table_metrics@ == Map::<Seq<char>, TableBatchState>::empty(),
    {
        AdaptiveBatchingManager { config, table_metrics: KeyedMap::new() }
    }

    /// The batch size step for a table. Without per-table optimization it
    /// is always the default size. Else the table's state is made at the
    /// default size if it has none, and its step is that of `size_step`,
    /// with the last change counted recent while less than the adjustment
    /// interval has passed.
    pub fn get_batch_size(&mut self, table_name: &String, default_size: usize) -> (r: BatchSizeStep)
        requires
            old(self).wf(),
        ensures
            final(self).wf(),
            final(self).config == old(self).config,
            !old(self).config.per_table_optimization ==> r == BatchSizeStep::Fixed(default_size)
                && final(self).table_metrics@ == old(self).table_metrics@,
            old(self).config.per_table_optimization ==> {
                &&& final(self).table_metrics@.dom() == old(self).table_metrics@.dom().insert(table_name@)
                &&& forall|k: Seq<char>| k != table_name@ && old(self).table_metrics@.contains_key(k)
                    ==> final(self).table_metrics@[k] == old(self).table_metrics@[k]
                &&& found_or_fresh(old(self).table_metrics@, table_name@, default_size, final(self).table_metrics@[table_name@])
                &&& (r == size_step_spec(final(self).table_metrics@[table_name@], true, old(self).config.metric_window_size)
                    || r == size_step_spec(final(self).table_metrics@[table_name@], false, old(self).config.metric_window_size))
            },
    {
        if !self.config.per_table_optimization {
            return BatchSizeStep::Fixed(default_size);
        }
        let state = match self.table_metrics.take(table_name) {
            Some(s) => s,
            None => TableBatchState::new(default_size),
        };
        let recent = elapsed_under(&state.last_adjustment, self.config.adjustment_interval_ms);
        let r = size_step(&state, recent, self.config.metric_window_size);
        self.table_metrics.insert(table_name.clone(), state);
        proof {
            assert(self.table_metrics@.dom() =~= old(self).table_metrics@.dom().insert(table_name@));
        }
        r
    }

    /// Records a new size for a table that has a state, if it differs from
    /// the current one; the change counts from now.
    pub fn apply_batch_size(&mut self, table_name: &String, new_size: usize)
        requires
            old(self).wf(),
        ensures
            final(self).wf(),
            final(self).config == old(self).config,
            final(self).table_metrics@.dom() == old(self).table_metrics@.dom(),
            forall|k: Seq<char>| k != table_name@ && old(self).table_metrics@.contains_key(k)
                ==> final(self).table_metrics@[k] == old(self).table_metrics@[k],
            old(self).table_metrics@.contains_key(table_name@) ==> {
                let a = old(self).table_metrics@[table_name@];
                let b = final(self).table_metrics@[table_name@];
                &&& b.current_batch_size == new_size
                &&& b.metrics_window == a.metrics_window
                &&& b.consecutive_successes == a.consecutive_successes
                &&& b.consecutive_failures == a.consecutive_failures
            },
    {
        match self.table_metrics.take(table_name) {
            Some(mut s) => {
                if s.current_batch_size != new_size {
                    s.current_batch_size = new_size;
                    s.last_adjustment = instant_now();
                }
                self.table_metrics.insert(table_name.clone(), s);
                proof {
                    assert(self.table_metrics@.dom() =~= old(self).table_metrics@.dom());
                }
            },
            None => {
                proof {
                    assert(self.table_metrics@ =~= old(self).table_metrics@);
                }
            },
        }
    }

    /// Whether recording one more measurement for a table keeps its
    /// counters of batches in a row below `u32::MAX`.
    pub open spec fn counters_have_room(&self, t: Seq<char>) -> bool {
        self.table_metrics@.contains_key(t) ==> (self.table_metrics@[t].consecutive_successes < u32::MAX
            && self.table_metrics@[t].consecutive_failures < u32::MAX)
    }

    /// Whether recording one more measurement for a table keeps its
    /// counters below `u32::MAX`.
    pub fn has_room(&self, table_name: &String) -> (r: bool)
        requires
            self.wf(),
        ensures
            r == self.counters_have_room(table_name@),
    {
        match self.table_metrics.get(table_name) {
            Some(s) => s.consecutive_successes < u32::MAX && s.consecutive_failures < u32::MAX,
            None => true,
        }
    }

    /// Adds a measurement to a table's window (made at the batch's size if
    /// the table has no state), dropping the oldest when the window
    /// overflows; a batch faster than the target latency extends the run
    /// of successes and ends that of failures, a slower one the reverse.
    pub fn record_metrics(&mut self, table_name: &String, metrics: BatchMetrics)
        requires
            old(self).wf(),
            old(self).counters_have_room(table_name@),
        ensures
            final(self).wf(),
            final(self).config == old(self).config,
            final(self).table_metrics@.dom() == old(self).table_metrics@.dom().insert(table_name@),
            forall|k: Seq<char>| k != table_name@ && old(self).table_metrics@.contains_key(k)
                ==> final(self).table_metrics@[k] == old(self).table_metrics@[k],
            exists|a: TableBatchState| {
                &&& found_or_fresh(old(self).table_metrics@, table_name@, metrics.batch_size, a)
                &&& #[trigger] recorded(a, metrics, old(self).config, final(self).table_metrics@[table_name@])
            },
    {
        let mut s = match self.table_metrics.take(table_name) {
            Some(s) => s,
            None => TableBatchState::new(metrics.batch_size),
        };
        let ghost a = s;
        let fast = metrics.processing_time_ms < self.config.target_latency_ms;
        let ghost w0 = s.metrics_window@;
        s.metrics_window.push(metrics);
        if s.metrics_window.len() > self.config.metric_window_size {
            s.metrics_window.remove(0);
        }
        if fast {
            s.consecutive_successes = s.consecutive_successes + 1;
            s.consecutive_failures = 0;
        } else {
            s.consecutive_failures = s.consecutive_failures + 1;
            s.consecutive_successes = 0;
        }
        proof {
            assert(recorded(a, metrics, self.config, s));
        }
        self.table_metrics.insert(table_name.clone(), s);
        proof {
            assert(self.table_metrics@.dom() =~= old(self).table_metrics@.dom().insert(table_name@));
            assert(recorded(a, metrics, old(self).config, self.table_metrics@[table_name@]));
        }
    }

    /// The statistics of each table, in the order the tables were first
    /// seen.
    pub fn get_statistics(&self) -> (r: Vec<(String, TableBatchStatistics)>)
        requires
            self.wf(),
        ensures
            r@.len() == self.table_metrics.entry_list().len(),
            forall|i: int|
                0 <= i < r@.len() ==> #[trigger] r@[i].0 == self.table_metrics.entry_list()[i].0
                    && statistics_of(self.table_metrics.entry_list()[i].1, r@[i].1),
    {
        let entries = self.table_metrics.entries();
        let mut r: Vec<(String, TableBatchStatistics)> = Vec::new();
        let mut i: usize = 0;
        while i < entries.len()
            invariant
                i <= entries@.len(),
                entries@ == self.table_metrics.entry_list(),
                r@.len() == i,
                forall|j: int|
                    0 <= j < i ==> #[trigger] r@[j].0 == entries@[j].0 && statistics_of(entries@[j].1, r@[j].1),
            decreases entries@.len() - i,
        {
            let s = &entries[i].1;
            let mut samples: Vec<u64> = Vec::new();
            let mut k: usize = 0;
            while k < s.metrics_window.len()
                invariant
                    k <= s.metrics_window@.len(),
                    samples@.len() == k,
                    forall|j: int| 0 <= j < k ==> #[trigger] samples@[j] == s.metrics_window@[j].documents_per_second,
                decreases s.metrics_window@.len() - k,
            {
                samples.push(s.metrics_window[k].documents_per_second);
                k = k + 1;
            }
            assert(samples@ =~= s.metrics_window@.map_values(|m: BatchMetrics| m.documents_per_second));
            let st = TableBatchStatistics {
                current_batch_size: s.current_batch_size,
                average_latency_ms: calculate_average_latency(&s.metrics_window),
                throughput_samples: samples,
                consecutive_successes: s.consecutive_successes,
                consecutive_failures: s.consecutive_failures,
                metrics_count: s.metrics_window.len(),
            };
            let ghost r0 = r@;
            r.push((entries[i].0.clone(), st));
            assert(statistics_of(entries@[i as int].1, r@[i as int].1));
            assert forall|j: int| 0 <= j < i + 1 implies #[trigger] r@[j].0 == entries@[j].0 && statistics_of(
                entries@[j].1,
                r@[j].1,
            ) by {
                if j < i {
                    assert(r@[j] == r0[j]);
                }
            }
            i = i + 1;
        }
        r
    }
}

/// State `b` is state `a` after recording `m`: the window gains `m` at the
/// end and loses its oldest entry when it grows past the window size; the
/// size is kept; the run counters follow the target latency.
pub open spec fn recorded(a: TableBatchState, m: BatchMetrics, c: AdaptiveBatchingConfig, b: TableBatchState) -> bool {
    let pushed = a.metrics_window@.push(m);
    &&& b.current_batch_size == a.current_batch_size
    &&& b.metrics_window@ == (if pushed.len() > c.metric_window_size {
        pushed.drop_first()
    } else {
        pushed
    })
    &&& if m.processing_time_ms < c.target_latency_ms {
        b.consecutive_successes == a.consecutive_successes + 1 && b.consecutive_failures == 0
    } else {
        b.consecutive_failures == a.consecutive_failures + 1 && b.consecutive_successes == 0
    }
}

/// The statistics of a table. The throughput samples are the binary64
/// bits of the window's rates, oldest first; their mean is the average
/// throughput.
#[derive(Debug)]
pub struct TableBatchStatistics {
    pub current_batch_size: usize,
    pub average_latency_ms: u64,
    pub throughput_samples: Vec<u64>,
    pub consecutive_successes: u32,
    pub consecutive_failures: u32,
    pub metrics_count: usize,
}

/// `t` gives the statistics of state `s`.
pub open spec fn statistics_of(s: TableBatchState, t: TableBatchStatistics) -> bool {
    &&& t.current_batch_size == s.current_batch_size
    &&& t.average_latency_ms == mean_time(s.metrics_window@)
    &&& t.throughput_samples@ == s.metrics_window@.map_values(|m: BatchMetrics| m.documents_per_second)
    &&& t.consecutive_successes == s.consecutive_successes
    &&& t.consecutive_failures == s.consecutive_failures
    &&& t.metrics_count == s.metrics_window@.len()
}

/// The new size bounded below by `min_size`, then above by `max_size`
/// (`new_size.max(min_size).min(max_size)`).
pub fn bounded_batch_size(new_size: usize, min_size: usize, max_size: usize) -> (r: usize)
    ensures
        r == (if new_size < min_size {
            if min_size > max_size {
                max_size
            } else {
                min_size
            }
        } else if new_size > max_size {
            max_size
        } else {
            new_size
        }),
{
    let lower = if new_size < min_size {
        min_size
    } else {
        new_size
    };
    if lower > max_size {
        max_size
    } else {
        lower
    }
}

/// Recording a measurement never grows a window past the window size,
/// and (with a window of at least one) the newest measurement is last.
pub proof fn law_window_bounded(a: TableBatchState, m: BatchMetrics, c: AdaptiveBatchingConfig, b: TableBatchState)
    requires
        recorded(a, m, c, b),
        a.metrics_window@.len() <= c.metric_window_size,
    ensures
        b.metrics_window@.len() <= c.metric_window_size,
        c.metric_window_size > 0 ==> b.metrics_window@.len() > 0 && b.metrics_window@.last() == m,
{
    let pushed = a.metrics_window@.push(m);
    if pushed.len() > c.metric_window_size {
        assert(pushed.drop_first().len() > 0 ==> pushed.drop_first().last() == pushed.last());
    }
}

} // verus!
