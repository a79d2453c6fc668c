//! Routing events to indexes, and accounting for what the index did with
//! each batch.

use vstd::prelude::*;
use crate::config::meilisearch::MeilisearchConfig;
use crate::destination::adapter::SyncResult;
use crate::destination::meilisearch::batch_processor::{batch_effect, BatchEffect, BatchProcessor};
use crate::error::{error_text, MeiliBridgeError};
use crate::json::JsonValue;
use crate::models::stream_event::Event;
use crate::position::Position;
use crate::text::{concat2, find_key, lookup_key, opt_string_copy, position_of, texts};

verus! {

/// The index an event is written to: a change event's or full-sync row's
/// table; other events are written nowhere.
pub open spec fn event_index(e: Event) -> Option<Seq<char>> {
    match e {
        Event::Cdc(c) => Some(c.table@),
        Event::FullSync { table, .. } => Some(table@),
        _ => None,
    }
}

/// The indexes that events are written to, each once, in the order in which
/// they first occur.
pub open spec fn index_order(es: Seq<Event>) -> Seq<Seq<char>>
    decreases es.len(),
{
    if es.len() == 0 {
        seq![]
    } else {
        let prev = index_order(es.drop_last());
        match event_index(es.last()) {
            Some(k) => if prev.contains(k) {
                prev
            } else {
                prev.push(k)
            },
            None => prev,
        }
    }
}

/// The events written to index `k`, in order.
pub open spec fn events_for(es: Seq<Event>, k: Seq<char>) -> Seq<Event>
    decreases es.len(),
{
    if es.len() == 0 {
        seq![]
    } else {
        let prev = events_for(es.drop_last(), k);
        if event_index(es.last()) == Some(k) {
            prev.push(es.last())
        } else {
            prev
        }
    }
}

/// The position of the last change event that carries one.
pub open spec fn last_cdc_position(es: Seq<Event>) -> Option<Position>
    decreases es.len(),
{
    if es.len() == 0 {
        None
    } else {
        match es.last() {
            Event::Cdc(c) => match c.position {
                Some(p) => Some(p),
                None => last_cdc_position(es.drop_last()),
            },
            _ => last_cdc_position(es.drop_last()),
        }
    }
}

/// An index occurs in the order exactly when some event is written to it.
proof fn lemma_index_order_contains(es: Seq<Event>, k: Seq<char>)
    ensures
        index_order(es).contains(k) <==> events_for(es, k).len() > 0,
    decreases es.len(),
{
    if es.len() > 0 {
        lemma_index_order_contains(es.drop_last(), k);
        let prev = index_order(es.drop_last());
        let x = event_index(es.last());
        if x == Some(k) {
            if !prev.contains(k) {
                assert(index_order(es) == prev.push(k));
                assert(prev.push(k)[prev.len() as int] == k);
            }
        } else {
            match x {
                Some(k2) => {
                    if !prev.contains(k2) {
                        let now = prev.push(k2);
                        assert(index_order(es) == now);
                        if prev.contains(k) {
                            let i = choose|i: int| 0 <= i < prev.len() && prev[i] == k;
                            assert(now[i] == k);
                        }
                        if now.contains(k) {
                            let i = choose|i: int| 0 <= i < now.len() && now[i] == k;
                            assert(i < prev.len());
                            assert(prev[i] == k);
                        }
                    }
                },
                None => {},
            }
        }
    }
}

/// No index occurs twice in the order.
proof fn lemma_index_order_distinct(es: Seq<Event>)
    ensures
        forall|i: int, j: int|
            0 <= i < j < index_order(es).len() ==> index_order(es)[i] != index_order(es)[j],
    decreases es.len(),
{
    if es.len() > 0 {
        lemma_index_order_distinct(es.drop_last());
        let prev = index_order(es.drop_last());
        if let Some(k) = event_index(es.last()) {
            if !prev.contains(k) {
                assert forall|i: int, j: int|
                    0 <= i < j < index_order(es).len() implies index_order(es)[i] != index_order(
                        es,
                    )[j] by {
                    if j == prev.len() {
                        assert(index_order(es)[i] == prev[i]);
                    } else {
                        assert(index_order(es)[i] == prev[i]);
                        assert(index_order(es)[j] == prev[j]);
                    }
                }
            }
        }
    }
}

/// The events of a batch, split by the index they are written to.
pub struct EventGroups {
    /// The indexes, each once, in the order in which they first occur.
    pub indexes: Vec<String>,
    /// For each index, its events in their order.
    pub batches: Vec<Vec<Event>>,
    /// The position of the last change event that carries one.
    pub last_position: Option<Position>,
}

/// Splits events by the index they are written to (a change event's or
/// full-sync row's table), keeping their order; other events are dropped.
/// Also gives the position of the last change event that carries one.
pub fn group_events(events: Vec<Event>) -> (r: EventGroups)
    ensures
        texts(r.indexes@) == index_order(events@),
        r.batches@.len() == r.indexes@.len(),
        forall|g: int|
            0 <= g < r.batches@.len() ==> #[trigger] r.batches@[g]@ == events_for(
                events@,
                r.indexes@[g]@,
            ),
        r.last_position == last_cdc_position(events@),
{
    let ghost all = events@;
    let mut rest = events;
    let mut indexes: Vec<String> = Vec::new();
    let mut batches: Vec<Vec<Event>> = Vec::new();
    let mut last: Option<Position> = None;
    let ghost mut k: int = 0;
    proof {
        assert(all.take(0) =~= Seq::<Event>::empty());
        assert(texts(indexes@) =~= Seq::<Seq<char>>::empty());
        assert(all.skip(0) =~= all);
    }
    while rest.len() > 0
        invariant
            0 <= k <= all.len(),
            rest@ == all.skip(k),
            indexes@.len() == batches@.len(),
            texts(indexes@) == index_order(all.take(k)),
            forall|g: int|
                0 <= g < batches@.len() ==> #[trigger] batches@[g]@ == events_for(
                    all.take(k),
                    indexes@[g]@,
                ),
            last == last_cdc_position(all.take(k)),
        decreases rest@.len(),
    {
        let ghost before = all.take(k);
        let ghost after = all.take(k + 1);
        let e = rest.remove(0);
        proof {
            assert(after.drop_last() =~= before);
            assert(after.last() == e);
            assert(rest@ =~= all.skip(k + 1));
            lemma_index_order_distinct(before);
        }
        match &e {
            Event::Cdc(c) => match &c.position {
                Some(p) => {
                    last = Some(p.copy());
                },
                None => {},
            },
            _ => {},
        }
        let key: Option<String> = match &e {
            Event::Cdc(c) => Some(c.table.clone()),
            Event::FullSync { table, .. } => Some(table.clone()),
            _ => None,
        };
        assert(match key {
            Some(s) => event_index(e) == Some(s@),
            None => event_index(e) is None,
        });
        match key {
            Some(key) => {
                match position_of(&indexes, &key) {
                    Some(g) => {
                        proof {
                            assert(texts(indexes@)[g as int] == key@);
                            assert(index_order(before).contains(key@));
                            assert(index_order(after) == index_order(before));
                            assert forall|h: int| 0 <= h < batches@.len() && h != g implies indexes@[h]@
                                != key@ by {
                                assert(texts(indexes@)[h] == indexes@[h]@);
                                assert(texts(indexes@)[g as int] == indexes@[g as int]@);
                            }
                        }
                        batches[g].push(e);
                        proof {
                            assert forall|h: int| 0 <= h < batches@.len() implies #[trigger] batches@[h]@
                                == events_for(after, indexes@[h]@) by {
                                if h != g {
                                    assert(indexes@[h]@ != key@);
                                }
                            }
                        }
                    },
                    None => {
                        proof {
                            assert(!index_order(before).contains(key@)) by {
                                if index_order(before).contains(key@) {
                                    let i = choose|i: int|
                                        0 <= i < index_order(before).len() && index_order(before)[i]
                                            == key@;
                                    assert(texts(indexes@)[i] == indexes@[i]@);
                                }
                            }
                            lemma_index_order_contains(before, key@);
                            assert(index_order(after) == index_order(before).push(key@));
                            assert forall|h: int| 0 <= h < batches@.len() implies indexes@[h]@
                                != key@ by {
                                assert(texts(indexes@)[h] == indexes@[h]@);
                            }
                        }
                        let ghost old_indexes = indexes@;
                        indexes.push(key);
                        let mut b: Vec<Event> = Vec::new();
                        b.push(e);
                        batches.push(b);
                        proof {
                            assert(texts(indexes@) =~= texts(old_indexes).push(key@));
                            assert(events_for(before, key@) =~= Seq::<Event>::empty());
                            assert forall|h: int| 0 <= h < batches@.len() implies #[trigger] batches@[h]@
                                == events_for(after, indexes@[h]@) by {
                                if h < old_indexes.len() {
                                    assert(indexes@[h] == old_indexes[h]);
                                    assert(old_indexes[h]@ != key@);
                                } else {
                                    assert(batches@[h]@ =~= seq![e]);
                                }
                            }
                        }
                    },
                }
            },
            None => {
                proof {
                    assert(index_order(after) == index_order(before));
                    assert forall|h: int| 0 <= h < batches@.len() implies #[trigger] batches@[h]@
                        == events_for(after, indexes@[h]@) by {}
                }
            },
        }
        proof {
            k = k + 1;
        }
    }
    proof {
        assert(all.take(k) =~= all);
    }
    EventGroups { indexes, batches, last_position: last }
}

/// The documents to write that a sequence of events gives, in order.
pub open spec fn upserts_of(pk: Option<String>, es: Seq<Event>) -> Seq<JsonValue>
    decreases es.len(),
{
    if es.len() == 0 {
        seq![]
    } else {
        let prev = upserts_of(pk, es.drop_last());
        match batch_effect(pk, es.last()) {
            BatchEffect::Upsert(d) => prev.push(d),
            _ => prev,
        }
    }
}

/// The ids of documents to delete that a sequence of events gives, in order.
pub open spec fn deletes_of(pk: Option<String>, es: Seq<Event>) -> Seq<Seq<char>>
    decreases es.len(),
{
    if es.len() == 0 {
        seq![]
    } else {
        let prev = deletes_of(pk, es.drop_last());
        match batch_effect(pk, es.last()) {
            BatchEffect::Delete(id) => prev.push(id),
            _ => prev,
        }
    }
}

/// The error texts of the events of a sequence that a batch refuses, in
/// order.
pub open spec fn refusals_of(pk: Option<String>, es: Seq<Event>) -> Seq<Seq<char>>
    decreases es.len(),
{
    if es.len() == 0 {
        seq![]
    } else {
        let prev = refusals_of(pk, es.drop_last());
        match batch_effect(pk, es.last()) {
            BatchEffect::Refuse(m) => prev.push("Meilisearch error: "@ + m),
            _ => prev,
        }
    }
}

/// The primary key fields that tables have unless configured otherwise.
pub open spec fn default_table_keys() -> Seq<(Seq<char>, Seq<char>)> {
    seq![("users"@, "id"@), ("products"@, "sku"@), ("orders"@, "id"@)]
}

/// A list of string pairs as pairs of texts.
pub open spec fn pair_texts(v: Seq<(String, String)>) -> Seq<(Seq<char>, Seq<char>)> {
    v.map_values(|p: (String, String)| (p.0@, p.1@))
}

/// The text of a failed write or delete: a label and the error's text.
pub open spec fn outcome_error(label: Seq<char>, e: MeiliBridgeError) -> Seq<char> {
    label + error_text(e)
}

/// Writes batches of events to Meilisearch indexes, one index per table.
pub struct MeilisearchAdapter {
    pub config: MeilisearchConfig,
    /// The batch being built.
    pub batch_processor: BatchProcessor,
    /// The primary key field of known tables.
    pub table_primary_keys: Vec<(String, String)>,
}

impl MeilisearchAdapter {
    /// The primary key field for an index: the table's own, else the
    /// configured one.
    pub open spec fn primary_key_spec(&self, index: Seq<char>) -> Option<String> {
        match lookup_key(self.table_primary_keys@, index) {
            Some(k) => Some(k),
            None => self.config.primary_key,
        }
    }

    /// An adapter with the configuration, an empty batch keyed by the
    /// configured primary key, and the primary keys of the known tables.
    pub fn new(config: MeilisearchConfig) -> (r: Self)
        ensures
            r.config == config,
            pair_texts(r.table_primary_keys@) == default_table_keys(),
            r.batch_processor.primary_key == config.primary_key,
            r.batch_processor.documents_to_upsert@.len() == 0,
            r.batch_processor.documents_to_delete@.len() == 0,
    {
        let primary_key = opt_string_copy(&config.primary_key);
        let mut table_primary_keys: Vec<(String, String)> = Vec::new();
        table_primary_keys.push(("users".to_owned(), "id".to_owned()));
        table_primary_keys.push(("products".to_owned(), "sku".to_owned()));
        table_primary_keys.push(("orders".to_owned(), "id".to_owned()));
        assert(pair_texts(table_primary_keys@) =~= default_table_keys());
        MeilisearchAdapter { config, batch_processor: BatchProcessor::new(primary_key), table_primary_keys }
    }

    /// The primary key field for an index: the table's own, else the
    /// configured one.
    pub fn primary_key_for(&self, index: &String) -> (r: Option<String>)
        ensures
            r == self.primary_key_spec(index@),
    {
        match find_key(&self.table_primary_keys, index) {
            Some(i) => Some(self.table_primary_keys[i].1.clone()),
            None => opt_string_copy(&self.config.primary_key),
        }
    }

    /// The primary key field for an import: the given one, else the
    /// table's own, else the configured one.
    pub fn import_primary_key(&self, index: &String, given: Option<String>) -> (r: Option<String>)
        ensures
            r == (if given is Some {
                given
            } else {
                self.primary_key_spec(index@)
            }),
    {
        match given {
            Some(k) => Some(k),
            None => self.primary_key_for(index),
        }
    }

    /// Starts the batch of an index, keyed by the index's primary key, and
    /// adds the events to it in order; each event the batch refuses is
    /// counted in `result` as a failure with its error's text.
    pub fn fill_batch(&mut self, index: &String, events: Vec<Event>, result: &mut SyncResult)
        requires
            old(result).failed_count + events@.len() <= usize::MAX,
        ensures
            final(self).config == old(self).config,
            final(self).table_primary_keys == old(self).table_primary_keys,
            final(self).batch_processor.primary_key == old(self).primary_key_spec(index@),
            final(self).batch_processor.documents_to_upsert@ == upserts_of(
                old(self).primary_key_spec(index@),
                events@,
            ),
            texts(final(self).batch_processor.documents_to_delete@) == deletes_of(
                old(self).primary_key_spec(index@),
                events@,
            ),
            texts(final(result).errors@) == texts(old(result).errors@) + refusals_of(
                old(self).primary_key_spec(index@),
                events@,
            ),
            final(result).failed_count == old(result).failed_count + refusals_of(
                old(self).primary_key_spec(index@),
                events@,
            ).len(),
            final(result).success_count == old(result).success_count,
            final(result).last_position == old(result).last_position,
    {
        let pk = self.primary_key_for(index);
        let ghost pks = pk;
        self.batch_processor = BatchProcessor::new(pk);
        let ghost all = events@;
        let ghost errors0 = texts(result.errors@);
        let ghost failed0 = result.failed_count;
        let mut rest = events;
        let ghost mut k: int = 0;
        proof {
            assert(all.take(0) =~= Seq::<Event>::empty());
            assert(all.skip(0) =~= all);
            assert(texts(self.batch_processor.documents_to_delete@) =~= Seq::<Seq<char>>::empty());
            assert(errors0 + refusals_of(pks, all.take(0)) =~= errors0);
        }
        while rest.len() > 0
            invariant
                0 <= k <= all.len(),
                rest@ == all.skip(k),
                self.config == old(self).config,
                self.table_primary_keys == old(self).table_primary_keys,
                pks == old(self).primary_key_spec(index@),
                self.batch_processor.primary_key == pks,
                self.batch_processor.documents_to_upsert@ == upserts_of(pks, all.take(k)),
                texts(self.batch_processor.documents_to_delete@) == deletes_of(pks, all.take(k)),
                texts(result.errors@) == errors0 + refusals_of(pks, all.take(k)),
                result.failed_count == failed0 + refusals_of(pks, all.take(k)).len(),
                refusals_of(pks, all.take(k)).len() <= k,
                failed0 + all.len() <= usize::MAX,
                result.success_count == old(result).success_count,
                result.last_position == old(result).last_position,
            decreases rest@.len(),
        {
            let ghost before = all.take(k);
            let ghost after = all.take(k + 1);
            let e = rest.remove(0);
            proof {
                assert(after.drop_last() =~= before);
                assert(after.last() == e);
                assert(rest@ =~= all.skip(k + 1));
            }
            let ghost dels = self.batch_processor.documents_to_delete@;
            let ghost errs = result.errors@;
            match self.batch_processor.process_event(e) {
                Ok(()) => {
                    proof {
                        match batch_effect(pks, e) {
                            BatchEffect::Delete(id) => {
                                assert(texts(self.batch_processor.documents_to_delete@) =~= texts(
                                    dels,
                                ).push(id));
                            },
                            _ => {},
                        }
                    }
                },
                Err(err) => {
                    let m = err.message();
                    result.add_failure(m);
                    proof {
                        assert(texts(result.errors@) =~= texts(errs).push(m@));
                    }
                },
            }
            proof {
                k = k + 1;
            }
        }
        proof {
            assert(all.take(k) =~= all);
        }
    }

    /// Accounts for what the index did with the batch, then empties it: if
    /// there were documents to write, on success their number is counted
    /// as synced, on an error their number and one more as failed, with the
    /// text `Upsert error: ` and the error; likewise for the ids to delete,
    /// with `Delete error: `. An outcome for an empty part is ignored.
    pub fn record_batch(
        &mut self,
        result: &mut SyncResult,
        upserted: Result<(), MeiliBridgeError>,
        deleted: Result<(), MeiliBridgeError>,
    )
        requires
            old(result).success_count + old(self).batch_processor.documents_to_upsert@.len()
                + old(self).batch_processor.documents_to_delete@.len() <= usize::MAX,
            old(result).failed_count + old(self).batch_processor.documents_to_upsert@.len()
                + old(self).batch_processor.documents_to_delete@.len() + 2 <= usize::MAX,
        ensures
            ({
                let n = old(self).batch_processor.documents_to_upsert@.len();
                let m = old(self).batch_processor.documents_to_delete@.len();
                let up_ok = n == 0 || upserted is Ok;
                let del_ok = m == 0 || deleted is Ok;
                &&& final(result).success_count == old(result).success_count + (if n > 0 && upserted is Ok {
                    n
                } else {
                    0
                }) + (if m > 0 && deleted is Ok {
                    m
                } else {
                    0
                })
                &&& final(result).failed_count == old(result).failed_count + (if up_ok {
                    0
                } else {
                    n + 1
                }) + (if del_ok {
                    0
                } else {
                    m + 1
                })
                &&& texts(final(result).errors@) == texts(old(result).errors@) + (if up_ok {
                    seq![]
                } else {
                    seq![outcome_error("Upsert error: "@, upserted->Err_0)]
                }) + (if del_ok {
                    seq![]
                } else {
                    seq![outcome_error("Delete error: "@, deleted->Err_0)]
                })
            }),
            final(result).last_position == old(result).last_position,
            final(self).config == old(self).config,
            final(self).table_primary_keys == old(self).table_primary_keys,
            final(self).batch_processor.primary_key == old(self).batch_processor.primary_key,
            final(self).batch_processor.documents_to_upsert@.len() == 0,
            final(self).batch_processor.documents_to_delete@.len() == 0,
    {
        let ghost errs0 = texts(result.errors@);
        let n = self.batch_processor.documents_to_upsert.len();
        let m = self.batch_processor.documents_to_delete.len();
        let ghost mid: Seq<Seq<char>>;
        if n > 0 {
            match upserted {
                Ok(()) => {
                    result.success_count = result.success_count + n;
                },
                Err(e) => {
                    let t = concat2("Upsert error: ", e.message().as_str());
                    result.failed_count = result.failed_count + n;
                    result.add_failure(t);
                },
            }
        }
        proof {
            mid = texts(result.errors@);
            assert(mid =~= errs0 + (if n == 0 || upserted is Ok {
                seq![]
            } else {
                seq![outcome_error("Upsert error: "@, upserted->Err_0)]
            }));
        }
        if m > 0 {
            match deleted {
                Ok(()) => {
                    result.success_count = result.success_count + m;
                },
                Err(e) => {
                    let t = concat2("Delete error: ", e.message().as_str());
                    result.failed_count = result.failed_count + m;
                    result.add_failure(t);
                },
            }
        }
        proof {
            assert(texts(result.errors@) =~= mid + (if m == 0 || deleted is Ok {
                seq![]
            } else {
                seq![outcome_error("Delete error: "@, deleted->Err_0)]
            }));
        }
        self.batch_processor.clear();
    }

    /// The size of the chunks of an import: the adaptive size when one was
    /// had, else the configured batch size.
    pub fn import_batch_size(&self, adaptive: Option<Result<usize, MeiliBridgeError>>) -> (r: usize)
        ensures
            r == (match adaptive {
                Some(Ok(n)) => n,
                _ => self.config.batch_size,
            }),
    {
        match adaptive {
            Some(Ok(n)) => n,
            _ => self.config.batch_size,
        }
    }
}

/// The number of chunks of `size` items that `len` items make.
pub open spec fn chunk_count(len: nat, size: nat) -> nat {
    if len % size == 0 {
        len / size
    } else {
        len / size + 1
    }
}

proof fn lemma_chunk_count(q: nat, len: nat, size: nat)
    requires
        size > 0,
        q * size >= len,
        q == 0 || (q - 1) * size < len,
    ensures
        q == chunk_count(len, size),
{
    if q == 0 {
        assert(len == 0);
    } else {
        let d = len / size;
        let m = len % size;
        assert(len == d * size + m && 0 <= m < size) by (nonlinear_arith)
            requires
                size > 0,
                d == len / size,
                m == len % size,
        ;
        assert(q == (if m == 0 {
            d
        } else {
            d + 1
        })) by (nonlinear_arith)
            requires
                size > 0,
                q > 0,
                q * size >= len,
                (q - 1) * size < len,
                len == d * size + m,
                0 <= m < size,
        ;
    }
}

/// The bounds `[start, end)` of the chunks of `len` items in chunks of
/// `size` (`slice::chunks`): consecutive, in order, each of `size` items but
/// the last, which holds the rest.
pub fn chunk_bounds(len: usize, size: usize) -> (r: Vec<(usize, usize)>)
    requires
        size > 0,
    ensures
        r@.len() == chunk_count(len as nat, size as nat),
        forall|i: int|
            0 <= i < r@.len() ==> #[trigger] r@[i].0 == i * size && r@[i].1 == (if (i + 1) * size
                <= len {
                (i + 1) * size
            } else {
                len as int
            }),
{
    let mut r: Vec<(usize, usize)> = Vec::new();
    let mut start: usize = 0;
    assert(r@.len() * size == 0) by (nonlinear_arith)
        requires
            r@.len() == 0,
    ;
    while start < len
        invariant
            size > 0,
            start <= len,
            start < len ==> start == r@.len() * size,
            start == len ==> r@.len() * size >= len,
            r@.len() > 0 ==> (r@.len() - 1) * size < len,
            r@.len() == 0 ==> start == 0,
            forall|i: int|
                0 <= i < r@.len() ==> #[trigger] r@[i].0 == i * size && r@[i].1 == (if (i + 1)
                    * size <= len {
                    (i + 1) * size
                } else {
                    len as int
                }),
        decreases len - start,
    {
        let ghost q = r@.len();
        assert((q + 1) * size == q * size + size) by (nonlinear_arith);
        let end: usize = if len - start > size {
            start + size
        } else {
            len
        };
        r.push((start, end));
        start = end;
    }
    proof {
        lemma_chunk_count(r@.len(), len as nat, size as nat);
    }
    r
}

/// What the import of a chunk did: on success its documents count as
/// synced, on an error they count as failed, one more too, with the text
/// `Import error: ` and the error.
pub fn record_import_chunk(result: &mut SyncResult, chunk_len: usize, outcome: Result<(), MeiliBridgeError>)
    requires
        old(result).success_count + chunk_len <= usize::MAX,
        old(result).failed_count + chunk_len + 1 <= usize::MAX,
    ensures
        final(result).last_position == old(result).last_position,
        match outcome {
            Ok(()) => final(result).success_count == old(result).success_count + chunk_len
                && final(result).failed_count == old(result).failed_count && final(result).errors
                == old(result).errors,
            Err(e) => final(result).success_count == old(result).success_count
                && final(result).failed_count == old(result).failed_count + chunk_len + 1 && texts(
                final(result).errors@,
            ) == texts(old(result).errors@).push(outcome_error("Import error: "@, e)),
        },
{
    match outcome {
        Ok(()) => {
            result.success_count = result.success_count + chunk_len;
        },
        Err(e) => {
            let t = concat2("Import error: ", e.message().as_str());
            let ghost errs = result.errors@;
            result.failed_count = result.failed_count + chunk_len;
            result.add_failure(t);
            assert(texts(result.errors@) =~= texts(errs).push(t@));
        },
    }
}

/// The error of swapping indexes, which is not supported: the documents
/// would have to be copied.
pub fn swap_indexes_error() -> (r: MeiliBridgeError)
    ensures
        r matches MeiliBridgeError::Meilisearch(t) && t@
            == "Index swap not fully implemented - requires document copying"@,
{
    MeiliBridgeError::Meilisearch("Index swap not fully implemented - requires document copying".to_owned())
}

} // verus!
