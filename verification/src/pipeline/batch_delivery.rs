//! The decisions of a sync task's batches: when a batch is sent, what a
//! destination's answer settles (dead letters, the task's position), and
//! the steps of at-least-once delivery around a send.

use vstd::prelude::*;
use crate::destination::adapter::SyncResult;
use crate::error::MeiliBridgeError;
use crate::json::{json_copy, jview, lemma_jview_object, members_view, JsonValue, JsonView};
use crate::models::event::{CdcEvent, Event as ModelsEvent, EventType};
use crate::models::stream_event::Event;
use crate::pipeline::exactly_once_helpers::{copy_opt_position, event_position, event_row_id, event_table};
use crate::pipeline::orchestrator::{convert_to_models_event, rows_are_objects, rows_view, stored_form};
use crate::position::Position;
use crate::dedup::{model_add, opt_view, DedupModel, DeduplicationKey, KeyView};
use crate::delivery::ExactlyOnceManager;
use crate::delivery::checkpoint::{prepared_metadata, CheckpointTransaction, CommitStep, PrepareStep, TransactionalCheckpoint};
use crate::delivery::transaction::{commit_outcome, prepare_outcome, CheckpointPrepare, Transaction, TransactionState};
use crate::models::progress::{Checkpoint, ProgressStats};
use crate::pipeline::exactly_once_helpers::{create_dedup_key_from_event, extract_position_from_event, lsn_of};
use crate::text::{append_str, u64_to_string};

verus! {

/// The abstract form of an event: its fields, rows by their JSON views.
pub enum EventView {
    Cdc {
        event_type: EventType,
        table: Seq<char>,
        schema: Seq<char>,
        data: Seq<(Seq<char>, JsonView)>,
        timestamp: i64,
        position: Option<Position>,
    },
    FullSync { table: Seq<char>, data: JsonView },
    Insert { table: Seq<char>, new_data: JsonView, position: Option<Position> },
    Update { table: Seq<char>, old_data: JsonView, new_data: JsonView, position: Option<Position> },
    Delete { table: Seq<char>, old_data: JsonView, position: Option<Position> },
    Checkpoint(Position),
    Heartbeat,
}

impl View for Event {
    type V = EventView;

    open spec fn view(&self) -> EventView {
        match *self {
            Event::Cdc(c) => EventView::Cdc {
                event_type: c.event_type,
                table: c.table@,
                schema: c.schema@,
                data: members_view(c.data@),
                timestamp: c.timestamp,
                position: c.position,
            },
            Event::FullSync { table, data } => EventView::FullSync { table: table@, data: jview(data) },
            Event::Insert { table, new_data, position } => EventView::Insert {
                table: table@,
                new_data: jview(new_data),
                position,
            },
            Event::Update { table, old_data, new_data, position } => EventView::Update {
                table: table@,
                old_data: jview(old_data),
                new_data: jview(new_data),
                position,
            },
            Event::Delete { table, old_data, position } => EventView::Delete {
                table: table@,
                old_data: jview(old_data),
                position,
            },
            Event::Checkpoint(p) => EventView::Checkpoint(p),
            Event::Heartbeat => EventView::Heartbeat,
        }
    }
}

/// The views of a list of events.
pub open spec fn event_views(s: Seq<Event>) -> Seq<EventView> {
    s.map_values(|e: Event| e@)
}

/// A copy of the members of a row.
fn copy_members(ms: &Vec<(String, JsonValue)>) -> (r: Vec<(String, JsonValue)>)
    ensures
        members_view(r@) == members_view(ms@),
{
    let mut out: Vec<(String, JsonValue)> = Vec::new();
    let mut i: usize = 0;
    while i < ms.len()
        invariant
            i <= ms@.len(),
            out@.len() == i,
            forall|j: int| 0 <= j < i ==> (#[trigger] out@[j]).0@ == ms@[j].0@ && jview(out@[j].1) == jview(ms@[j].1),
        decreases ms@.len() - i,
    {
        let k = ms[i].0.clone();
        let v = json_copy(&ms[i].1);
        out.push((k, v));
        i = i + 1;
    }
    assert(members_view(out@) =~= members_view(ms@));
    out
}

/// A copy of an event.
pub fn copy_event(e: &Event) -> (r: Event)
    ensures
        r@ == e@,
{
    match e {
        Event::Cdc(c) => Event::Cdc(
            CdcEvent {
                event_type: c.event_type,
                table: c.table.clone(),
                schema: c.schema.clone(),
                data: copy_members(&c.data),
                timestamp: c.timestamp,
                position: copy_opt_position(&c.position),
            },
        ),
        Event::FullSync { table, data } => Event::FullSync { table: table.clone(), data: json_copy(data) },
        Event::Insert { table, new_data, position } => Event::Insert {
            table: table.clone(),
            new_data: json_copy(new_data),
            position: copy_opt_position(position),
        },
        Event::Update { table, old_data, new_data, position } => Event::Update {
            table: table.clone(),
            old_data: json_copy(old_data),
            new_data: json_copy(new_data),
            position: copy_opt_position(position),
        },
        Event::Delete { table, old_data, position } => Event::Delete {
            table: table.clone(),
            old_data: json_copy(old_data),
            position: copy_opt_position(position),
        },
        Event::Checkpoint(p) => Event::Checkpoint(p.copy()),
        Event::Heartbeat => Event::Heartbeat,
    }
}

/// Copies of a list of events, in order.
pub fn copy_events(v: &Vec<Event>) -> (r: Vec<Event>)
    ensures
        event_views(r@) == event_views(v@),
{
    let mut out: Vec<Event> = Vec::new();
    let mut i: usize = 0;
    while i < v.len()
        invariant
            i <= v@.len(),
            out@.len() == i,
            forall|j: int| 0 <= j < i ==> (#[trigger] out@[j])@ == v@[j]@,
        decreases v@.len() - i,
    {
        out.push(copy_event(&v[i]));
        i = i + 1;
    }
    assert(event_views(out@) =~= event_views(v@));
    out
}

/// The members of an object value have the view its view holds.
proof fn lemma_object_members(a: JsonValue, b: JsonValue)
    requires
        jview(a) == jview(b),
    ensures
        (a is Object) == (b is Object),
        a is Object ==> members_view(a->Object_0@) == members_view(b->Object_0@),
{
    if a is Object {
        lemma_jview_object(a->Object_0);
        if b is Object {
            lemma_jview_object(b->Object_0);
        }
    }
}

/// What the pipeline reads of an event depends on its view only.
pub proof fn lemma_view_determines(a: Event, b: Event)
    requires
        a@ == b@,
    ensures
        event_position(a) == event_position(b),
        event_table(a) == event_table(b),
        event_row_id(a) == event_row_id(b),
        rows_are_objects(a) == rows_are_objects(b),
        rows_are_objects(a) ==> stored_form(a) == stored_form(b),
{
    match (a, b) {
        (Event::Insert { new_data: x, .. }, Event::Insert { new_data: y, .. }) => {
            lemma_object_members(x, y);
        },
        (Event::Update { old_data: o1, new_data: x, .. }, Event::Update { old_data: o2, new_data: y, .. }) => {
            lemma_object_members(x, y);
            lemma_object_members(o1, o2);
        },
        (Event::Delete { old_data: x, .. }, Event::Delete { old_data: y, .. }) => {
            lemma_object_members(x, y);
        },
        (Event::FullSync { data: x, .. }, Event::FullSync { data: y, .. }) => {
            lemma_object_members(x, y);
        },
        _ => {},
    }
}

/// What a sync task's event loop received.
pub enum StreamInput {
    /// An event came through the stages and is to be sent.
    Kept(Event),
    /// An event was dropped by a stage, or could not be read.
    Dropped,
    /// The batch timer fired.
    Tick,
    /// The shutdown signal changed to the given value.
    Shutdown(bool),
}

/// What the event loop must do next.
#[derive(Debug, Clone, Copy, PartialEq, Eq, Structural)]
pub enum StreamAction {
    /// Wait for the next input.
    Wait,
    /// Process the waiting batch.
    ProcessBatch,
    /// Process the waiting batch, then stop.
    ProcessBatchThenStop,
    /// Stop.
    Stop,
}

/// The events of a sync task waiting to be sent, and the size at which
/// they are.
pub struct StreamBatcher {
    pub batch: Vec<Event>,
    pub batch_size: usize,
}

impl StreamBatcher {
    /// Nothing waiting.
    pub fn new(batch_size: usize) -> (r: Self)
        ensures
            r.batch@.len() == 0,
            r.batch_size == batch_size,
    {
        StreamBatcher { batch: Vec::new(), batch_size }
    }

    /// Takes an input of the loop: a kept event joins the batch, which is
    /// processed once it holds a batch's size; the timer processes a batch
    /// that is not empty; shutting down processes what waits, then stops.
    pub fn step(&mut self, input: StreamInput) -> (r: StreamAction)
        ensures
            final(self).batch_size == old(self).batch_size,
            match input {
                StreamInput::Kept(e) => final(self).batch@ == old(self).batch@.push(e) && r == (if old(self).batch@.len() + 1
                    >= old(self).batch_size {
                    StreamAction::ProcessBatch
                } else {
                    StreamAction::Wait
                }),
                StreamInput::Dropped => final(self).batch@ == old(self).batch@ && r == StreamAction::Wait,
                StreamInput::Tick => final(self).batch@ == old(self).batch@ && r == (if old(self).batch@.len() > 0 {
                    StreamAction::ProcessBatch
                } else {
                    StreamAction::Wait
                }),
                StreamInput::Shutdown(stop) => final(self).batch@ == old(self).batch@ && r == (if !stop {
                    StreamAction::Wait
                } else if old(self).batch@.len() > 0 {
                    StreamAction::ProcessBatchThenStop
                } else {
                    StreamAction::Stop
                }),
            },
    {
        match input {
            StreamInput::Kept(e) => {
                self.batch.push(e);
                if self.batch.len() >= self.batch_size {
                    StreamAction::ProcessBatch
                } else {
                    StreamAction::Wait
                }
            },
            StreamInput::Dropped => StreamAction::Wait,
            StreamInput::Tick => {
                if self.batch.len() > 0 {
                    StreamAction::ProcessBatch
                } else {
                    StreamAction::Wait
                }
            },
            StreamInput::Shutdown(stop) => {
                if !stop {
                    StreamAction::Wait
                } else if self.batch.len() > 0 {
                    StreamAction::ProcessBatchThenStop
                } else {
                    StreamAction::Stop
                }
            },
        }
    }
}

/// How the destination answered a batch.
pub enum DeliveryOutcome {
    /// The batch could not be sent; the send error's text.
    SendFailed(String),
    /// No answer came back.
    NoResponse,
    /// The destination failed with an error.
    Failed(MeiliBridgeError),
    /// The destination's counts.
    Responded(SyncResult),
}

/// Whether the dead-letter form of an event (`convert_to_models_event`)
/// is `m`, up to the id and time it is stamped with.
pub open spec fn stored_as(m: ModelsEvent, e: Event) -> bool {
    let (t, schema, table, key, old, new) = stored_form(e);
    &&& m.event_type == t
    &&& m.source.database@.len() == 0
    &&& m.source.schema@ == schema
    &&& m.source.table@ == table
    &&& jview(m.data.key) == key
    &&& rows_view(m.data.old) == old
    &&& rows_view(m.data.new) == new
    &&& m.metadata.transaction_id is None
    &&& m.metadata.position@.len() == 0
    &&& m.metadata.custom@.len() == 0
}

/// How many events of a batch that reported failures are dead letters:
/// one per reported error, as far as the batch goes.
pub open spec fn dead_letter_count(errors: Seq<String>, events: Seq<Event>) -> nat {
    if errors.len() < events.len() {
        errors.len()
    } else {
        events.len()
    }
}

/// Whether `dl` are the dead letters of a batch of `events` whose delivery
/// reported `errors`: the `j`-th event with a pipeline error of the `j`-th
/// text, for each error the batch has an event for.
pub open spec fn dead_letters_of(
    dl: Seq<(ModelsEvent, MeiliBridgeError)>,
    events: Seq<Event>,
    errors: Seq<String>,
) -> bool {
    &&& dl.len() == dead_letter_count(errors, events)
    &&& forall|j: int|
        0 <= j < dl.len() ==> stored_as(#[trigger] dl[j].0, events[j]) && (dl[j].1 matches MeiliBridgeError::Pipeline(
            m,
        ) && m@ == errors[j]@)
}

/// Whether the events that would become dead letters can be converted.
pub open spec fn convertible(events: Seq<Event>, errors: Seq<String>) -> bool {
    forall|j: int| 0 <= j < dead_letter_count(errors, events) ==> rows_are_objects(#[trigger] events[j])
}

/// The dead letters of a batch whose delivery reported `errors`.
fn dead_letters(events: &Vec<Event>, errors: &Vec<String>) -> (r: Vec<(ModelsEvent, MeiliBridgeError)>)
    requires
        convertible(events@, errors@),
    ensures
        dead_letters_of(r@, events@, errors@),
{
    let mut r: Vec<(ModelsEvent, MeiliBridgeError)> = Vec::new();
    let mut i: usize = 0;
    while i < errors.len() && i < events.len()
        invariant
            convertible(events@, errors@),
            i <= errors@.len(),
            i <= events@.len(),
            r@.len() == i,
            forall|j: int| 0 <= j < i ==> stored_as(#[trigger] r@[j].0, events@[j]) && (r@[j].1 matches MeiliBridgeError::Pipeline(
                m,
            ) && m@ == errors@[j]@),
        decreases errors@.len() - i,
    {
        let e = copy_event(&events[i]);
        proof {
            lemma_view_determines(e, events@[i as int]);
            assert(rows_are_objects(events@[i as int]));
        }
        let m = convert_to_models_event(e);
        r.push((m, MeiliBridgeError::Pipeline(errors[i].clone())));
        i = i + 1;
    }
    r
}

/// What a batch's answer settles: the dead letters to record and the
/// position to note for the task.
pub struct Settlement {
    pub dead_letters: Vec<(ModelsEvent, MeiliBridgeError)>,
    pub position: Option<Position>,
}

/// Whether the events of a batch can be settled after `outcome`.
pub open spec fn settleable(events: Seq<Event>, outcome: DeliveryOutcome) -> bool {
    match outcome {
        DeliveryOutcome::Responded(r) => r.failed_count == 0 || convertible(events, r.errors@),
        _ => true,
    }
}

/// Settles a batch sent without at-least-once delivery, which is then
/// done with whatever came back: on an answer, its failures (if any)
/// become dead letters, one per reported error in the batch's order, and
/// its last position is noted; without one, nothing is.
pub fn settle_batch(events: &Vec<Event>, outcome: &DeliveryOutcome) -> (r: Settlement)
    requires
        settleable(events@, *outcome),
    ensures
        match *outcome {
            DeliveryOutcome::Responded(res) => {
                &&& r.position == res.last_position
                &&& if res.failed_count == 0 {
                    r.dead_letters@.len() == 0
                } else {
                    dead_letters_of(r.dead_letters@, events@, res.errors@)
                }
            },
            _ => r.dead_letters@.len() == 0 && r.position is None,
        },
{
    match outcome {
        DeliveryOutcome::Responded(res) => {
            let dl = if res.failed_count == 0 {
                Vec::new()
            } else {
                dead_letters(events, &res.errors)
            };
            Settlement { dead_letters: dl, position: copy_opt_position(&res.last_position) }
        },
        _ => Settlement { dead_letters: Vec::new(), position: None },
    }
}

/// The LSN part of an event's deduplication key.
pub open spec fn key_lsn(e: Event) -> Seq<char> {
    match e {
        Event::Cdc(_) | Event::Insert { .. } | Event::Update { .. } | Event::Delete { .. } => lsn_of(event_position(e)),
        _ => seq![],
    }
}

/// The deduplication key of an event, given the JSON text of its row's
/// `id` (none when the row has none).
pub open spec fn event_key(e: Event, id: Option<String>) -> KeyView {
    (key_lsn(e), None, event_table(e), opt_view(id))
}

/// Dropping duplicates from a batch, event by event: an event whose key
/// is remembered (when deduplication is on) is dropped; the others are
/// kept and remembered. The indexes kept, and the deduplicator after.
pub open spec fn dedup_pass(
    enabled: bool,
    m: DedupModel,
    events: Seq<Event>,
    ids: Seq<Option<String>>,
) -> (Seq<int>, DedupModel)
    decreases events.len(),
{
    if events.len() == 0 {
        (seq![], m)
    } else {
        let (kept, m1) = dedup_pass(enabled, m, events.drop_last(), ids.drop_last());
        let i = events.len() - 1;
        let k = event_key(events[i], ids[i]);
        if enabled && m1.counts.contains_key(k) {
            (kept, m1)
        } else {
            (kept.push(i), if enabled { model_add(m1, k) } else { m1 })
        }
    }
}

/// The views of the events of `batch` at the indexes `idx`.
pub open spec fn picked(batch: Seq<Event>, idx: Seq<int>) -> Seq<EventView> {
    idx.map_values(|j: int| batch[j]@)
}

/// How at-least-once delivery of a batch starts.
pub enum AtLeastOnceStart {
    /// The last event carries no position: nothing is sent; the batch is
    /// done.
    NoPosition,
    /// Every event was delivered before: nothing is sent or prepared; the
    /// batch is done.
    AllDuplicates { transaction_id: String },
    /// Save `checkpoint` as the task's prepared checkpoint, then report
    /// with `at_least_once_prepared`; then send `events`.
    Save { transaction_id: String, position: Position, events: Vec<Event>, checkpoint: Checkpoint },
}

/// Begins the at-least-once delivery of a batch of a task (not empty;
/// `ids` holds the JSON text of each event's row `id`): the position is
/// the last event's; a transaction is begun with the manager and with the
/// transactional checkpoint at that position; duplicates are dropped (and
/// the others remembered, see `dedup_pass`); if none is left nothing more
/// happens, else the checkpoint to save in the prepare phase is given.
pub fn at_least_once_prepare(
    mgr: &mut ExactlyOnceManager,
    tc: &mut TransactionalCheckpoint,
    task_id: &String,
    batch: &Vec<Event>,
    ids: &Vec<Option<String>>,
) -> (r: Result<AtLeastOnceStart, MeiliBridgeError>)
    requires
        old(mgr).wf(),
        old(tc).wf(),
        batch@.len() > 0,
        ids@.len() == batch@.len(),
        old(mgr).deduplicator.model().total + batch@.len() < u64::MAX,
    ensures
        final(mgr).wf(),
        final(tc).wf(),
        final(mgr).config == old(mgr).config,
        ({
            let pos = event_position(batch@.last());
            let (kept, m) = dedup_pass(
                old(mgr).config.enabled,
                old(mgr).deduplicator.model(),
                batch@,
                ids@,
            );
            let a = old(mgr).transaction_coordinator.two_phase_commit.txns();
            let b = final(mgr).transaction_coordinator.two_phase_commit.txns();
            match r {
                Ok(AtLeastOnceStart::NoPosition) => pos is None && final(mgr).deduplicator == old(mgr).deduplicator
                    && b == a && final(tc).txns() == old(tc).txns(),
                Ok(AtLeastOnceStart::AllDuplicates { transaction_id: id }) => {
                    &&& pos is Some
                    &&& kept.len() == 0
                    &&& final(mgr).deduplicator.model() == m
                    &&& final(tc).txns().contains_key(id@)
                    &&& !final(tc).txns()[id@].prepared
                },
                Ok(AtLeastOnceStart::Save { transaction_id: id, position, events, checkpoint }) => {
                    &&& pos == Some(position)
                    &&& kept.len() > 0
                    &&& event_views(events@) == picked(batch@, kept)
                    &&& final(mgr).deduplicator.model() == m
                    &&& (old(mgr).config.two_phase_commit ==> !a.contains_key(id@) && b.contains_key(id@)
                        && b == a.insert(id@, b[id@]) && b[id@].state == TransactionState::Started
                        && b[id@].task_id == *task_id)
                    &&& (!old(mgr).config.two_phase_commit ==> id@.len() == 0 && b == a)
                    &&& !old(tc).txns().contains_key(id@)
                    &&& final(tc).txns() == old(tc).txns().insert(id@, final(tc).txns()[id@])
                    &&& final(tc).txns()[id@].task_id == *task_id
                    &&& final(tc).txns()[id@].position == position
                    &&& !final(tc).txns()[id@].prepared
                    &&& !final(tc).txns()[id@].committed
                    &&& checkpoint.task_id == *task_id
                    &&& checkpoint.position == position
                    &&& checkpoint.stats == ProgressStats::new_spec()
                    &&& jview(checkpoint.metadata) == prepared_metadata(id@)
                },
                Err(_) => pos is Some && final(mgr).deduplicator == old(mgr).deduplicator,
            }
        }),
{
    let last = batch.len() - 1;
    let position = match extract_position_from_event(&batch[last]) {
        None => {
            return Ok(AtLeastOnceStart::NoPosition);
        },
        Some(p) => p,
    };
    proof {
        assert(batch@[last as int] == batch@.last());
    }
    let id = match mgr.begin_transaction(task_id) {
        Ok(id) => id,
        Err(e) => {
            return Err(e);
        },
    };
    match tc.begin_transaction(id.clone(), task_id.clone(), position.copy()) {
        Ok(()) => {},
        Err(e) => {
            return Err(e);
        },
    }
    let ghost m0 = mgr.deduplicator.model();
    let ghost enabled = mgr.config.enabled;
    let ghost coord = mgr.transaction_coordinator;
    let mut events: Vec<Event> = Vec::new();
    let mut i: usize = 0;
    proof {
        assert(batch@.take(0) =~= Seq::<Event>::empty());
        assert(ids@.take(0) =~= Seq::<Option<String>>::empty());
    }
    while i < batch.len()
        invariant
            i <= batch@.len(),
            ids@.len() == batch@.len(),
            mgr.wf(),
            mgr.config == old(mgr).config,
            enabled == mgr.config.enabled,
            mgr.transaction_coordinator == coord,
            m0.total + batch@.len() < u64::MAX,
            mgr.deduplicator.model().total <= m0.total + i,
            ({
                let (kept, m) = dedup_pass(enabled, m0, batch@.take(i as int), ids@.take(i as int));
                &&& mgr.deduplicator.model() == m
                &&& event_views(events@) == picked(batch@, kept)
                &&& forall|j: int| 0 <= j < kept.len() ==> 0 <= #[trigger] kept[j] < i
            }),
        decreases batch@.len() - i,
    {
        let ghost prev = dedup_pass(enabled, m0, batch@.take(i as int), ids@.take(i as int));
        proof {
            assert(batch@.take(i + 1).drop_last() =~= batch@.take(i as int));
            assert(ids@.take(i + 1).drop_last() =~= ids@.take(i as int));
        }
        let (k0, _row) = create_dedup_key_from_event(&batch[i]);
        let key: DeduplicationKey = match &ids[i] {
            Some(t) => k0.with_primary_key(t.clone()),
            None => k0,
        };
        assert(key@ == event_key(batch@[i as int], ids@[i as int]));
        if !mgr.is_duplicate(&key) {
            let ghost ev0 = event_views(events@);
            events.push(copy_event(&batch[i]));
            mgr.mark_processed(key);
            proof {
                assert(event_views(events@) =~= ev0.push(batch@[i as int]@));
                assert(picked(batch@, prev.0.push(i as int)) =~= picked(batch@, prev.0).push(batch@[i as int]@));
            }
        }
        i = i + 1;
    }
    proof {
        assert(batch@.take(batch@.len() as int) =~= batch@);
        assert(ids@.take(ids@.len() as int) =~= ids@);
    }
    if events.len() == 0 {
        return Ok(AtLeastOnceStart::AllDuplicates { transaction_id: id });
    }
    match tc.prepare(&id) {
        Ok(PrepareStep::Save(c)) => Ok(AtLeastOnceStart::Save { transaction_id: id, position, events, checkpoint: c }),
        Ok(PrepareStep::Done(_)) => {
            assert(false);
            Err(prepare_failed())
        },
        Err(e) => {
            assert(false);
            Err(e)
        },
    }
}

/// The error when the prepare phase fails.
pub open spec fn prepare_failed_text() -> Seq<char> {
    "Transaction prepare failed"@
}

fn prepare_failed() -> (r: MeiliBridgeError)
    ensures
        r matches MeiliBridgeError::Pipeline(m) && m@ == prepare_failed_text(),
{
    MeiliBridgeError::Pipeline("Transaction prepare failed".to_owned())
}

/// The result of a manager's prepare as a commit step's result.
pub open spec fn as_prepared(r: Result<(), MeiliBridgeError>) -> Result<bool, MeiliBridgeError> {
    match r {
        Ok(()) => Ok(true),
        Err(e) => Err(e),
    }
}

/// Finishes the prepare phase given whether the prepared checkpoint was
/// saved. When it was not, the transaction is rolled back with the
/// checkpoint and the manager, and the batch fails with `Transaction
/// prepare failed`. When it was, the checkpoint's transaction is prepared,
/// then the manager's (without two-phase commit this is `Ok` at once); on
/// `Ok` the batch is to be sent.
pub fn at_least_once_prepared(
    mgr: &mut ExactlyOnceManager,
    tc: &mut TransactionalCheckpoint,
    transaction_id: &String,
    position: Position,
    saved: bool,
) -> (r: Result<(), MeiliBridgeError>)
    requires
        old(mgr).wf(),
        old(tc).wf(),
    ensures
        final(mgr).wf(),
        final(tc).wf(),
        final(mgr).config == old(mgr).config,
        final(mgr).deduplicator == old(mgr).deduplicator,
        ({
            let a = old(mgr).transaction_coordinator.two_phase_commit.txns();
            let b = final(mgr).transaction_coordinator.two_phase_commit.txns();
            let t = old(tc).txns();
            if !saved {
                &&& r matches Err(MeiliBridgeError::Pipeline(m)) && m@ == prepare_failed_text()
                &&& final(tc).txns() == t.remove(transaction_id@)
                &&& b == (if old(mgr).config.two_phase_commit { a.remove(transaction_id@) } else { a })
            } else {
                &&& final(tc).txns() == (if t.contains_key(transaction_id@) {
                    t.insert(transaction_id@, CheckpointTransaction { prepared: true, ..t[transaction_id@] })
                } else {
                    t
                })
                &&& (old(mgr).config.two_phase_commit ==> prepare_outcome(a, b, transaction_id@, position, as_prepared(r)))
                &&& (!old(mgr).config.two_phase_commit ==> r is Ok && b == a)
            }
        }),
{
    let ok = tc.finish_prepare(transaction_id, saved);
    if !ok {
        let _ = tc.rollback(transaction_id);
        let _ = mgr.rollback(transaction_id);
        return Err(prepare_failed());
    }
    match mgr.prepare(transaction_id, position, CheckpointPrepare::Prepared) {
        Ok(true) => Ok(()),
        Ok(false) => {
            assert(false);
            Err(prepare_failed())
        },
        Err(e) => Err(e),
    }
}

/// What settling an at-least-once batch asks for next.
pub enum SettleStep {
    /// The destination took the batch: mark the task's stored checkpoint
    /// committed (load it, `TransactionalCheckpoint::committed_checkpoint`,
    /// save it), then call `at_least_once_committed`.
    MarkCommitted(String),
    /// The checkpoint was committed before: commit the manager's
    /// transaction with `at_least_once_commit_manager`.
    CommitManager,
    /// The transaction was rolled back: delete the task's stored checkpoint
    /// when one is named (a failure is only reported), record the dead
    /// letters; the batch failed with `error`.
    RolledBack { delete: Option<String>, dead_letters: Vec<(ModelsEvent, MeiliBridgeError)>, error: MeiliBridgeError },
}

/// Whether the destination took a whole batch.
pub open spec fn delivered(outcome: DeliveryOutcome) -> bool {
    outcome matches DeliveryOutcome::Responded(res) && res.failed_count == 0
}

/// The text of a batch that reported `n` failures.
pub open spec fn batch_failed_text(n: usize) -> Seq<char> {
    "Batch processing failed with "@ + crate::text::decimal(n as nat) + " errors"@
}

/// The error a batch that was not delivered fails with.
pub open spec fn delivery_error(outcome: DeliveryOutcome, e: MeiliBridgeError) -> bool {
    match outcome {
        DeliveryOutcome::Responded(res) => e matches MeiliBridgeError::Pipeline(m) && m@ == batch_failed_text(
            res.failed_count,
        ),
        DeliveryOutcome::Failed(x) => e == x,
        DeliveryOutcome::NoResponse => e matches MeiliBridgeError::Pipeline(m) && m@ == "No response from destination"@,
        DeliveryOutcome::SendFailed(t) => e matches MeiliBridgeError::Pipeline(m) && m@ == "Send failed: "@ + t@,
    }
}

fn batch_failed(n: usize) -> (r: MeiliBridgeError)
    ensures
        r matches MeiliBridgeError::Pipeline(m) && m@ == batch_failed_text(n),
{
    let mut m = "Batch processing failed with ".to_owned();
    let d = u64_to_string(n as u64);
    append_str(&mut m, d.as_str());
    append_str(&mut m, " errors");
    MeiliBridgeError::Pipeline(m)
}

/// Settles an at-least-once batch after its send. Delivered: the
/// checkpoint's transaction is committed (which needs the stored
/// checkpoint marked). Otherwise the checkpoint's transaction is rolled
/// back (its prepared checkpoint is to be deleted), then the manager's;
/// the failures an answer reported become dead letters (see
/// `dead_letters_of`) and the batch fails with the error of
/// `delivery_error`. An unknown or unprepared transaction fails the step
/// with the checkpoint's error.
pub fn at_least_once_settle(
    mgr: &mut ExactlyOnceManager,
    tc: &mut TransactionalCheckpoint,
    transaction_id: &String,
    sent: &Vec<Event>,
    outcome: DeliveryOutcome,
) -> (r: Result<SettleStep, MeiliBridgeError>)
    requires
        old(mgr).wf(),
        old(tc).wf(),
        settleable(sent@, outcome),
    ensures
        final(mgr).wf(),
        final(tc).wf(),
        final(mgr).config == old(mgr).config,
        final(mgr).deduplicator == old(mgr).deduplicator,
        ({
            let a = old(mgr).transaction_coordinator.two_phase_commit.txns();
            let b = final(mgr).transaction_coordinator.two_phase_commit.txns();
            let t = old(tc).txns();
            let id = transaction_id@;
            if delivered(outcome) {
                &&& b == a
                &&& final(tc).txns() == t
                &&& if !t.contains_key(id) {
                    r matches Err(MeiliBridgeError::Pipeline(m)) && m@ == "Transaction "@ + id + " not found"@
                } else if !t[id].prepared {
                    r matches Err(MeiliBridgeError::Pipeline(m)) && m@ == "Transaction "@ + id + " not prepared"@
                } else if t[id].committed {
                    r matches Ok(SettleStep::CommitManager)
                } else {
                    r matches Ok(SettleStep::MarkCommitted(task)) && task == t[id].task_id
                }
            } else {
                &&& final(tc).txns() == t.remove(id)
                &&& if !t.contains_key(id) {
                    &&& b == a
                    &&& r matches Err(MeiliBridgeError::Pipeline(m)) && m@ == "Transaction "@ + id + " not found"@
                } else {
                    &&& b == (if old(mgr).config.two_phase_commit { a.remove(id) } else { a })
                    &&& r matches Ok(SettleStep::RolledBack { delete, dead_letters, error })
                    &&& delete == (if t[id].prepared && !t[id].committed { Some(t[id].task_id) } else { None })
                    &&& delivery_error(outcome, error)
                    &&& match outcome {
                        DeliveryOutcome::Responded(res) => dead_letters_of(dead_letters@, sent@, res.errors@),
                        _ => dead_letters@.len() == 0,
                    }
                }
            }
        }),
{
    let is_delivered = match &outcome {
        DeliveryOutcome::Responded(res) => res.failed_count == 0,
        _ => false,
    };
    if is_delivered {
        return match tc.commit(transaction_id) {
            Ok(CommitStep::Done) => Ok(SettleStep::CommitManager),
            Ok(CommitStep::LoadAndMark(task)) => Ok(SettleStep::MarkCommitted(task)),
            Err(e) => Err(e),
        };
    }
    let delete = match tc.rollback(transaction_id) {
        Ok(d) => d,
        Err(e) => {
            return Err(e);
        },
    };
    let _ = mgr.rollback(transaction_id);
    match outcome {
        DeliveryOutcome::Responded(res) => {
            let dl = dead_letters(sent, &res.errors);
            Ok(SettleStep::RolledBack { delete, dead_letters: dl, error: batch_failed(res.failed_count) })
        },
        DeliveryOutcome::Failed(e) => Ok(SettleStep::RolledBack { delete, dead_letters: Vec::new(), error: e }),
        DeliveryOutcome::NoResponse => Ok(
            SettleStep::RolledBack {
                delete,
                dead_letters: Vec::new(),
                error: MeiliBridgeError::Pipeline("No response from destination".to_owned()),
            },
        ),
        DeliveryOutcome::SendFailed(t) => {
            let mut m = "Send failed: ".to_owned();
            append_str(&mut m, t.as_str());
            Ok(SettleStep::RolledBack { delete, dead_letters: Vec::new(), error: MeiliBridgeError::Pipeline(m) })
        },
    }
}

/// Commits the manager's transaction (without two-phase commit, `Ok` at
/// once and nothing changes); on `Ok` the batch is delivered and its
/// position is the task's.
pub fn at_least_once_commit_manager(mgr: &mut ExactlyOnceManager, transaction_id: &String) -> (r: Result<
    (),
    MeiliBridgeError,
>)
    requires
        old(mgr).wf(),
    ensures
        final(mgr).wf(),
        final(mgr).config == old(mgr).config,
        final(mgr).deduplicator == old(mgr).deduplicator,
        old(mgr).config.two_phase_commit ==> commit_outcome(
            old(mgr).transaction_coordinator.two_phase_commit.txns(),
            final(mgr).transaction_coordinator.two_phase_commit.txns(),
            transaction_id@,
            r,
        ),
        !old(mgr).config.two_phase_commit ==> r is Ok && final(mgr).transaction_coordinator
            == old(mgr).transaction_coordinator,
{
    mgr.commit(transaction_id)
}

/// After the stored checkpoint was marked committed: the checkpoint's
/// transaction is done, then the manager's is committed (as
/// `at_least_once_commit_manager`).
pub fn at_least_once_committed(
    mgr: &mut ExactlyOnceManager,
    tc: &mut TransactionalCheckpoint,
    transaction_id: &String,
) -> (r: Result<(), MeiliBridgeError>)
    requires
        old(mgr).wf(),
        old(tc).wf(),
    ensures
        final(mgr).wf(),
        final(tc).wf(),
        final(tc).txns() == old(tc).txns().remove(transaction_id@),
        final(mgr).config == old(mgr).config,
        final(mgr).deduplicator == old(mgr).deduplicator,
        old(mgr).config.two_phase_commit ==> commit_outcome(
            old(mgr).transaction_coordinator.two_phase_commit.txns(),
            final(mgr).transaction_coordinator.two_phase_commit.txns(),
            transaction_id@,
            r,
        ),
        !old(mgr).config.two_phase_commit ==> r is Ok && final(mgr).transaction_coordinator
            == old(mgr).transaction_coordinator,
{
    tc.finish_commit(transaction_id);
    at_least_once_commit_manager(mgr, transaction_id)
}

} // verus!
