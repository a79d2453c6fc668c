//! A sliding window of recently seen events, for at-least-once delivery.

use vstd::prelude::*;
use std::collections::VecDeque;

verus! {

/// What identifies an event: its LSN, transaction id, table and primary key.
pub type KeyView = (Seq<char>, Option<u32>, Seq<char>, Option<Seq<char>>);

/// The characters of an optional string.
pub open spec fn opt_view(o: Option<String>) -> Option<Seq<char>> {
    match o {
        Some(s) => Some(s@),
        None => None,
    }
}

/// Key for event deduplication using LSN and transaction id.
#[derive(Debug, Clone, PartialEq, Eq, Hash)]
pub struct DeduplicationKey {
    /// PostgreSQL log sequence number.
    pub lsn: String,
    /// Transaction id (XID).
    pub xid: Option<u32>,
    /// Table name.
    pub table: String,
    /// Optional primary key for row-level deduplication.
    pub primary_key: Option<String>,
}

impl View for DeduplicationKey {
    type V = KeyView;

    open spec fn view(&self) -> KeyView {
        (self.lsn@, self.xid, self.table@, opt_view(self.primary_key))
    }
}

fn same_opt_string(a: &Option<String>, b: &Option<String>) -> (r: bool)
    ensures
        r == (opt_view(*a) == opt_view(*b)),
{
    match (a, b) {
        (Some(x), Some(y)) => *x == *y,
        (None, None) => true,
        _ => false,
    }
}

fn copy_opt_string(a: &Option<String>) -> (r: Option<String>)
    ensures
        opt_view(r) == opt_view(*a),
{
    match a {
        Some(x) => Some(x.clone()),
        None => None,
    }
}

impl DeduplicationKey {
    /// A key without a primary key.
    pub fn new(lsn: String, xid: Option<u32>, table: String) -> (k: DeduplicationKey)
        ensures
            k == (DeduplicationKey { lsn, xid, table, primary_key: None }),
    {
        DeduplicationKey { lsn, xid, table, primary_key: None }
    }

    /// The same key with its primary key set to `pk`.
    pub fn with_primary_key(self, pk: String) -> (k: DeduplicationKey)
        ensures
            k == (DeduplicationKey { primary_key: Some(pk), ..self }),
    {
        let mut k = self;
        k.primary_key = Some(pk);
        k
    }

    /// Whether two keys name the same event.
    pub fn same_as(&self, other: &DeduplicationKey) -> (r: bool)
        ensures
            r == (self@ == other@),
    {
        let a = self.lsn == other.lsn;
        let b = match (self.xid, other.xid) {
            (Some(x), Some(y)) => x == y,
            (None, None) => true,
            _ => false,
        };
        let c = self.table == other.table;
        let d = same_opt_string(&self.primary_key, &other.primary_key);
        a && b && c && d
    }

    /// A copy of this key.
    pub fn copy(&self) -> (r: DeduplicationKey)
        ensures
            r@ == self@,
    {
        DeduplicationKey {
            lsn: self.lsn.clone(),
            xid: self.xid,
            table: self.table.clone(),
            primary_key: copy_opt_string(&self.primary_key),
        }
    }
}

/// Counters of a deduplicator.
#[derive(Debug, Default, Clone, Copy)]
pub struct DeduplicationStats {
    pub total_events: u64,
    pub duplicate_events: u64,
    pub window_evictions: u64,
}

/// The abstract state of a deduplicator.
pub struct DedupModel {
    /// The configured window size.
    pub window: nat,
    /// Keys in the window, oldest first.
    pub queue: Seq<KeyView>,
    /// How often each remembered key was added while remembered.
    pub counts: Map<KeyView, nat>,
    pub total: nat,
    pub duplicates: nat,
    pub evictions: nat,
}

/// The effect of `EventDeduplicator::add` on the abstract state.
pub open spec fn model_add(m: DedupModel, k: KeyView) -> DedupModel {
    if m.counts.contains_key(k) {
        DedupModel {
            counts: m.counts.insert(k, m.counts[k] + 1),
            total: m.total + 1,
            duplicates: m.duplicates + 1,
            ..m
        }
    } else {
        let evict = m.queue.len() >= m.window && m.queue.len() > 0;
        let q = if evict { m.queue.drop_first() } else { m.queue };
        let c = if evict {
            m.counts.remove(m.queue[0])
        } else {
            m.counts
        };
        DedupModel {
            window: m.window,
            queue: q.push(k),
            counts: c.insert(k, 1),
            total: m.total + 1,
            duplicates: m.duplicates,
            evictions: if evict { m.evictions + 1 } else { m.evictions },
        }
    }
}

/// What holds of every deduplicator: the window holds at most its size
/// (one key for a size of zero), each key once; exactly the keys in the
/// window are remembered; and every add was counted at most once, as a
/// duplicate or as one that evicted a key.
pub open spec fn dedup_inv(m: DedupModel) -> bool {
    &&& m.queue.len() <= (if m.window == 0 { 1 } else { m.window })
    &&& m.queue.no_duplicates()
    &&& forall|k: KeyView| #[trigger] m.counts.contains_key(k) <==> m.queue.contains(k)
    &&& m.duplicates + m.evictions <= m.total
}

/// Adding keeps what holds of every deduplicator.
pub proof fn law_add_keeps_inv(m: DedupModel, k: KeyView)
    requires
        dedup_inv(m),
    ensures
        dedup_inv(model_add(m, k)),
{
    if !m.counts.contains_key(k) {
        let evict = m.queue.len() >= m.window && m.queue.len() > 0;
        let q = if evict { m.queue.drop_first() } else { m.queue };
        let c = if evict { m.counts.remove(m.queue[0]) } else { m.counts };
        let m2 = model_add(m, k);
        assert(!m.queue.contains(k));
        assert forall|x: KeyView| #[trigger] q.contains(x) <==> (m.queue.contains(x) && !(evict && x == m.queue[0])) by {
            if evict {
                if q.contains(x) {
                    let i = choose|i: int| 0 <= i < q.len() && q[i] == x;
                    assert(m.queue[i + 1] == x);
                }
                if m.queue.contains(x) && x != m.queue[0] {
                    let i = choose|i: int| 0 <= i < m.queue.len() && m.queue[i] == x;
                    assert(i != 0);
                    assert(q[i - 1] == x);
                }
            }
        }
        assert forall|x: KeyView| #[trigger] m2.counts.contains_key(x) <==> m2.queue.contains(x) by {
            assert(m2.queue == q.push(k));
            if q.push(k).contains(x) {
                let i = choose|i: int| 0 <= i < q.push(k).len() && q.push(k)[i] == x;
                if i < q.len() {
                    assert(q[i] == x);
                }
            }
            if x == k {
                assert(q.push(k)[q.len() as int] == k);
            } else if q.contains(x) {
                let i = choose|i: int| 0 <= i < q.len() && q[i] == x;
                assert(q.push(k)[i] == x);
            }
        }
        assert(q.no_duplicates()) by {
            assert forall|i: int, j: int| 0 <= i < q.len() && 0 <= j < q.len() && i != j implies q[i] != q[j] by {
                if evict {
                    assert(q[i] == m.queue[i + 1]);
                    assert(q[j] == m.queue[j + 1]);
                }
            }
        }
        assert(m2.queue.no_duplicates()) by {
            assert forall|i: int, j: int| 0 <= i < m2.queue.len() && 0 <= j < m2.queue.len() && i != j implies m2.queue[i]
                != m2.queue[j] by {
                if i == q.len() as int && j < q.len() {
                    assert(q.contains(q[j]));
                } else if j == q.len() as int && i < q.len() {
                    assert(q.contains(q[i]));
                }
            }
        }
    }
}

/// Whether `k` occurs in `ks`.
pub open spec fn has_key(ks: Seq<KeyView>, k: KeyView) -> bool {
    exists|i: int| 0 <= i < ks.len() && ks[i] == k
}

/// Where `k` occurs in `ks`.
pub open spec fn key_index(ks: Seq<KeyView>, k: KeyView) -> int {
    choose|i: int| 0 <= i < ks.len() && ks[i] == k
}

/// No key occurs twice.
pub open spec fn distinct(ks: Seq<KeyView>) -> bool {
    forall|i: int, j: int| 0 <= i < ks.len() && 0 <= j < ks.len() && i != j ==> ks[i] != ks[j]
}

/// The counts held by parallel sequences of keys and counts.
pub open spec fn count_map(ks: Seq<KeyView>, cs: Seq<u64>) -> Map<KeyView, nat> {
    Map::new(|k: KeyView| has_key(ks, k), |k: KeyView| cs[key_index(ks, k)] as nat)
}

proof fn lemma_count_map_update(ks: Seq<KeyView>, cs: Seq<u64>, i: int, v: u64)
    requires
        distinct(ks),
        ks.len() == cs.len(),
        0 <= i < ks.len(),
    ensures
        count_map(ks, cs.update(i, v)) =~= count_map(ks, cs).insert(ks[i], v as nat),
{
    assert forall|k: KeyView| #[trigger] has_key(ks, k) && k != ks[i] implies key_index(ks, k) != i by {
    }
    assert(has_key(ks, ks[i]));
}

proof fn lemma_count_map_remove(ks: Seq<KeyView>, cs: Seq<u64>, i: int)
    requires
        distinct(ks),
        ks.len() == cs.len(),
        0 <= i < ks.len(),
    ensures
        count_map(ks.remove(i), cs.remove(i)) =~= count_map(ks, cs).remove(ks[i]),
        distinct(ks.remove(i)),
        forall|k: KeyView| has_key(ks.remove(i), k) <==> (has_key(ks, k) && k != ks[i]),
{
    let ks2 = ks.remove(i);
    let cs2 = cs.remove(i);
    assert forall|k: KeyView| has_key(ks2, k) <==> (has_key(ks, k) && k != ks[i]) by {
        if has_key(ks2, k) {
            let j = choose|j: int| 0 <= j < ks2.len() && ks2[j] == k;
            if j < i {
                assert(ks[j] == k);
            } else {
                assert(ks[j + 1] == k);
            }
        }
        if has_key(ks, k) && k != ks[i] {
            let j = choose|j: int| 0 <= j < ks.len() && ks[j] == k;
            if j < i {
                assert(ks2[j] == k);
            } else {
                assert(ks2[j - 1] == k);
            }
        }
    }
    assert forall|k: KeyView| has_key(ks2, k) implies cs2[key_index(ks2, k)] == cs[key_index(ks, k)] by {
        let j2 = key_index(ks2, k);
        let j = key_index(ks, k);
        if j2 < i {
            assert(ks[j2] == k);
        } else {
            assert(ks[j2 + 1] == k);
        }
    }
}

proof fn lemma_count_map_push(ks: Seq<KeyView>, cs: Seq<u64>, k: KeyView, v: u64)
    requires
        distinct(ks),
        ks.len() == cs.len(),
        !has_key(ks, k),
    ensures
        count_map(ks.push(k), cs.push(v)) =~= count_map(ks, cs).insert(k, v as nat),
        distinct(ks.push(k)),
        forall|x: KeyView| has_key(ks.push(k), x) <==> (has_key(ks, x) || x == k),
{
    let ks2 = ks.push(k);
    assert forall|x: KeyView| has_key(ks2, x) <==> (has_key(ks, x) || x == k) by {
        if has_key(ks, x) {
            let j = choose|j: int| 0 <= j < ks.len() && ks[j] == x;
            assert(ks2[j] == x);
        }
        if x == k {
            assert(ks2[ks.len() as int] == k);
        }
    }
    assert forall|x: KeyView| has_key(ks2, x) && x != k implies key_index(ks2, x) == key_index(ks, x) by {
        let j = key_index(ks, x);
        let j2 = key_index(ks2, x);
        assert(ks2[j] == x);
    }
    assert(key_index(ks2, k) == ks.len());
}

/// Sliding-window event deduplicator: remembers the most recent keys and
/// reports a key as seen while it is remembered.
pub struct EventDeduplicator {
    window_size: usize,
    key_queue: VecDeque<DeduplicationKey>,
    keys: Vec<DeduplicationKey>,
    counts: Vec<u64>,
    stats: DeduplicationStats,
}

impl EventDeduplicator {
    /// The keys in the window, oldest first.
    pub closed spec fn queue_view(&self) -> Seq<KeyView> {
        self.key_queue@.map_values(|k: DeduplicationKey| k@)
    }

    /// The remembered keys.
    pub closed spec fn keys_view(&self) -> Seq<KeyView> {
        self.keys@.map_values(|k: DeduplicationKey| k@)
    }

    /// The abstract state.
    pub closed spec fn model(&self) -> DedupModel {
        DedupModel {
            window: self.window_size as nat,
            queue: self.queue_view(),
            counts: count_map(self.keys_view(), self.counts@),
            total: self.stats.total_events as nat,
            duplicates: self.stats.duplicate_events as nat,
            evictions: self.stats.window_evictions as nat,
        }
    }

    /// The representation invariant.
    pub closed spec fn wf(&self) -> bool {
        &&& self.keys@.len() == self.counts@.len()
        &&& distinct(self.keys_view())
        &&& distinct(self.queue_view())
        &&& forall|i: int| 0 <= i < self.counts@.len() ==> 1 <= #[trigger] self.counts@[i] <= self.stats.total_events
        &&& forall|i: int| 0 <= i < self.key_queue@.len() ==> has_key(self.keys_view(), #[trigger] self.queue_view()[i])
        &&& self.stats.duplicate_events <= self.stats.total_events
        &&& self.stats.window_evictions <= self.stats.total_events
        &&& dedup_inv(self.model())
    }

    /// An empty deduplicator with a window of `window_size` keys.
    pub fn new(window_size: usize) -> (d: EventDeduplicator)
        ensures
            d.wf(),
            dedup_inv(d.model()),
            d.model() == (DedupModel {
                window: window_size as nat,
                queue: Seq::empty(),
                counts: Map::empty(),
                total: 0,
                duplicates: 0,
                evictions: 0,
            }),
    {
        let d = EventDeduplicator {
            window_size,
            key_queue: VecDeque::with_capacity(window_size),
            keys: Vec::new(),
            counts: Vec::new(),
            stats: DeduplicationStats { total_events: 0, duplicate_events: 0, window_evictions: 0 },
        };
        assert(d.queue_view() =~= Seq::empty());
        assert(count_map(d.keys_view(), d.counts@) =~= Map::empty());
        d
    }

    fn find(&self, key: &DeduplicationKey) -> (r: Option<usize>)
        requires
            self.keys@.len() == self.counts@.len(),
        ensures
            match r {
                Some(i) => i < self.keys@.len() && self.keys_view()[i as int] == key@,
                None => !has_key(self.keys_view(), key@),
            },
    {
        let mut i: usize = 0;
        while i < self.keys.len()
            invariant
                i <= self.keys@.len(),
                forall|j: int| 0 <= j < i ==> self.keys_view()[j] != key@,
            decreases self.keys@.len() - i,
        {
            if self.keys[i].same_as(key) {
                return Some(i);
            }
            i = i + 1;
        }
        None
    }

    /// Whether `key` has been seen and is still remembered.
    pub fn contains(&self, key: &DeduplicationKey) -> (r: bool)
        requires
            self.wf(),
        ensures
            r == self.model().counts.contains_key(key@),
    {
        self.find(key).is_some()
    }

    /// Adds an event to the window: a remembered key is counted as a
    /// duplicate; otherwise, when the window is full, the oldest key leaves it.
    pub fn add(&mut self, key: DeduplicationKey)
        requires
            old(self).wf(),
            old(self).model().total < u64::MAX,
        ensures
            final(self).wf(),
            dedup_inv(final(self).model()),
            final(self).model() == model_add(old(self).model(), key@),
    {
        let ghost m0 = self.model();
        let ghost ks0 = self.keys_view();
        self.stats.total_events = self.stats.total_events + 1;
        match self.find(&key) {
            Some(i) => {
                let c = self.counts[i];
                self.counts.set(i, c + 1);
                self.stats.duplicate_events = self.stats.duplicate_events + 1;
                proof {
                    lemma_count_map_update(ks0, old(self).counts@, i as int, (c + 1) as u64);
                    assert(m0.counts.contains_key(key@));
                    assert(self.keys_view() == ks0);
                    law_add_keeps_inv(m0, key@);
                }
                return;
            },
            None => {},
        }
        assert(!m0.counts.contains_key(key@));
        let ghost evict = m0.queue.len() >= m0.window && m0.queue.len() > 0;
        if self.key_queue.len() >= self.window_size {
            let ghost q0 = self.key_queue@;
            match self.key_queue.pop_front() {
                Some(oldest) => {
                    assert(self.queue_view() =~= m0.queue.drop_first());
                    assert(oldest@ == m0.queue[0]);
                    assert(has_key(ks0, q0[0]@)) by {
                        assert(m0.queue[0] == q0[0]@);
                    }
                    match self.find(&oldest) {
                        Some(j) => {
                            let ghost cs = self.counts@;
                            let ghost ks = self.keys_view();
                            proof {
                                assert(ks[j as int] == oldest@);
                                assert(key_index(ks, oldest@) == j as int);
                            }
                            self.keys.remove(j);
                            self.counts.remove(j);
                            proof {
                                lemma_count_map_remove(ks, cs, j as int);
                                assert(self.keys_view() =~= ks.remove(j as int));
                                assert forall|q: int| 0 <= q < self.key_queue@.len() implies has_key(self.keys_view(), #[trigger] self.queue_view()[q]) by {
                                    assert(self.queue_view()[q] == old(self).queue_view()[q + 1]);
                                    assert(old(self).queue_view()[0] == oldest@);
                                }
                            }
                        },
                        None => {
                            assert(false);
                        },
                    }
                    self.stats.window_evictions = self.stats.window_evictions + 1;
                },
                None => {},
            }
        }
        let ghost ks1 = self.keys_view();
        let ghost cs1 = self.counts@;
        let ghost qv1 = self.queue_view();
        assert(forall|q: int| 0 <= q < qv1.len() ==> has_key(ks1, #[trigger] qv1[q]));
        assert(!has_key(ks1, key@)) by {
            if has_key(ks1, key@) {
                let j = choose|j: int| 0 <= j < ks1.len() && ks1[j] == key@;
                assert(count_map(ks1, cs1).contains_key(key@));
            }
        }
        let copy = key.copy();
        self.key_queue.push_back(copy);
        self.keys.push(key);
        self.counts.push(1);
        proof {
            lemma_count_map_push(ks1, cs1, key@, 1);
            assert(self.keys_view() =~= ks1.push(key@));
            let qv = self.queue_view();
            assert forall|q: int| 0 <= q < qv.len() implies has_key(self.keys_view(), #[trigger] qv[q]) by {
                if q < qv.len() - 1 {
                    if evict {
                        assert(qv[q] == old(self).queue_view()[q + 1]);
                    } else {
                        assert(qv[q] == old(self).queue_view()[q]);
                    }
                }
            }
            assert forall|a: int, b: int| 0 <= a < qv.len() && 0 <= b < qv.len() && a != b implies qv[a] != qv[b] by {
                if a == qv.len() - 1 || b == qv.len() - 1 {
                    let o = if a == qv.len() - 1 { b } else { a };
                    assert(qv[o] == qv1[o]);
                    assert(has_key(ks1, qv1[o]));
                } else if evict {
                    assert(qv[a] == old(self).queue_view()[a + 1]);
                    assert(qv[b] == old(self).queue_view()[b + 1]);
                } else {
                    assert(qv[a] == old(self).queue_view()[a]);
                    assert(qv[b] == old(self).queue_view()[b]);
                }
            }
            assert(self.queue_view() =~= (if evict { m0.queue.drop_first() } else { m0.queue }).push(key@));
            law_add_keeps_inv(m0, key@);
        }
    }

    /// Forgets every key; the counters stay as they are.
    pub fn clear(&mut self)
        requires
            old(self).wf(),
        ensures
            final(self).wf(),
            dedup_inv(final(self).model()),
            final(self).model() == model_clear(old(self).model()),
    {
        self.key_queue.clear();
        self.keys.clear();
        self.counts.clear();
        assert(self.queue_view() =~= Seq::empty());
        assert(count_map(self.keys_view(), self.counts@) =~= Map::empty());
    }

    /// The counters.
    pub fn stats(&self) -> (r: &DeduplicationStats)
        ensures
            r.total_events == self.model().total,
            r.duplicate_events == self.model().duplicates,
            r.window_evictions == self.model().evictions,
    {
        &self.stats
    }

    /// A well-formed deduplicator meets what holds of every deduplicator.
    pub proof fn lemma_wf_inv(&self)
        requires
            self.wf(),
        ensures
            dedup_inv(self.model()),
    {
    }

    /// How many keys the window holds.
    pub fn current_size(&self) -> (r: usize)
        ensures
            r == self.model().queue.len(),
    {
        self.key_queue.len()
    }
}

/// After a key is added it is remembered.
pub proof fn law_added_key_is_seen(m: DedupModel, k: KeyView)
    ensures
        model_add(m, k).counts.contains_key(k),
{
}

/// Adding the same key twice in a row makes the second add a duplicate.
pub proof fn law_repeat_is_duplicate(m: DedupModel, k: KeyView)
    ensures
        model_add(model_add(m, k), k).duplicates == model_add(m, k).duplicates + 1,
{
}

/// Every add is counted, and it is counted as a duplicate exactly when its
/// key was remembered.
pub proof fn law_add_counts(m: DedupModel, k: KeyView)
    ensures
        model_add(m, k).total == m.total + 1,
        model_add(m, k).duplicates == m.duplicates + (if m.counts.contains_key(k) { 1int } else { 0int }),
{
}

/// The window never holds more than its size (or one key, for a window of
/// size zero).
pub proof fn law_window_bounded(m: DedupModel, k: KeyView)
    requires
        m.queue.len() <= (if m.window == 0 { 1 } else { m.window }),
    ensures
        model_add(m, k).queue.len() <= (if m.window == 0 { 1 } else { m.window }),
{
}

/// A duplicate leaves the window as it was.
pub proof fn law_duplicate_keeps_window(m: DedupModel, k: KeyView)
    requires
        m.counts.contains_key(k),
    ensures
        model_add(m, k).queue == m.queue,
{
}

/// The counters of every deduplicator stay in bounds: duplicates and
/// evictions together never exceed the adds, and the window never holds
/// more than its size (one key for a size of zero).
pub proof fn law_counters_bounded(m: DedupModel)
    requires
        dedup_inv(m),
    ensures
        m.duplicates <= m.total,
        m.evictions <= m.total - m.duplicates,
        m.queue.len() <= (if m.window == 0 { 1 } else { m.window }),
{
}

/// An add of a new key grows the window by one until it is full; an add
/// of a remembered key changes neither the window nor the evictions.
pub proof fn law_add_size(m: DedupModel, k: KeyView)
    requires
        dedup_inv(m),
    ensures
        !m.counts.contains_key(k) ==> model_add(m, k).queue.len() == (if m.queue.len() + 1 <= (if m.window == 0 {
            1
        } else {
            m.window
        }) {
            m.queue.len() + 1
        } else {
            m.queue.len()
        }),
        m.counts.contains_key(k) ==> model_add(m, k).queue == m.queue && model_add(m, k).evictions == m.evictions,
        model_add(m, k).counts.contains_key(k),
{
}

/// A call that changes a deduplicator.
pub enum DedupOp {
    Add(KeyView),
    Clear,
}

/// The effect of `EventDeduplicator::clear` on the abstract state.
pub open spec fn model_clear(m: DedupModel) -> DedupModel {
    DedupModel { queue: Seq::empty(), counts: Map::empty(), ..m }
}

/// Clearing forgets every key but keeps the counters, so the next add of
/// any key, seen before or not, is counted and is no duplicate.
pub proof fn law_clear_forgets(m: DedupModel, k: KeyView)
    requires
        dedup_inv(m),
    ensures
        !model_clear(m).counts.contains_key(k),
        model_clear(m).queue.len() == 0,
        model_clear(m).total == m.total,
        model_clear(m).duplicates == m.duplicates,
        model_clear(m).evictions == m.evictions,
        dedup_inv(model_clear(m)),
        model_add(model_clear(m), k).duplicates == m.duplicates,
        model_add(model_clear(m), k).total == m.total + 1,
        model_add(model_clear(m), k).counts.contains_key(k),
{
}

/// The abstract state after a history of calls.
pub open spec fn run_ops(m: DedupModel, ops: Seq<DedupOp>) -> DedupModel
    decreases ops.len(),
{
    if ops.len() == 0 {
        m
    } else {
        let m1 = run_ops(m, ops.drop_last());
        match ops.last() {
            DedupOp::Add(k) => model_add(m1, k),
            DedupOp::Clear => model_clear(m1),
        }
    }
}

/// How many adds of a history there are.
pub open spec fn add_count(ops: Seq<DedupOp>) -> nat
    decreases ops.len(),
{
    if ops.len() == 0 {
        0
    } else {
        add_count(ops.drop_last()) + if ops.last() is Add { 1nat } else { 0nat }
    }
}

/// How many adds of a new key (one not remembered when added) there are
/// since the last clear.
pub open spec fn fresh_adds(m: DedupModel, ops: Seq<DedupOp>) -> nat
    decreases ops.len(),
{
    if ops.len() == 0 {
        0
    } else {
        let prev = ops.drop_last();
        match ops.last() {
            DedupOp::Add(k) => if run_ops(m, prev).counts.contains_key(k) {
                fresh_adds(m, prev)
            } else {
                fresh_adds(m, prev) + 1
            },
            DedupOp::Clear => 0,
        }
    }
}

/// Over any history from an empty deduplicator: the window holds as many
/// keys as new keys were added since the last clear, up to its size (one
/// for a size of zero); every add is counted; duplicates and evictions
/// together never exceed the adds.
pub proof fn law_window_over_history(m: DedupModel, ops: Seq<DedupOp>)
    requires
        m.queue.len() == 0,
        m.counts == Map::<KeyView, nat>::empty(),
        dedup_inv(m),
    ensures
        ({
            let cap: nat = if m.window == 0 { 1 } else { m.window };
            let f = fresh_adds(m, ops);
            let r = run_ops(m, ops);
            &&& r.queue.len() == (if f <= cap { f } else { cap })
            &&& r.total == m.total + add_count(ops)
            &&& r.window == m.window
            &&& dedup_inv(r)
            &&& r.duplicates + r.evictions <= r.total
        }),
    decreases ops.len(),
{
    if ops.len() > 0 {
        let prev = ops.drop_last();
        law_window_over_history(m, prev);
        let m1 = run_ops(m, prev);
        match ops.last() {
            DedupOp::Add(k) => {
                law_add_size(m1, k);
                law_add_keeps_inv(m1, k);
            },
            DedupOp::Clear => {
                assert(model_clear(m1).queue.no_duplicates());
            },
        }
    }
}

} // verus!
