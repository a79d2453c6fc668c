//! What the pipeline keeps of an event that failed: the event as the dead
//! letter queue stores it.

use vstd::prelude::*;
use crate::clock::now_micros;
use crate::json::{get_member, json_copy, jget, jview, lemma_jview_object, lookup, members_view, JsonValue, JsonView};
use crate::models::event::{Event as ModelsEvent, EventData, EventId, EventMetadata, EventSource, EventType};
use crate::models::stream_event::Event;
use crate::config::sync_task::SyncTaskConfig;
use crate::error::MeiliBridgeError;
use crate::pipeline::batch_delivery::DeliveryOutcome;
use crate::text::{concat3};

verus! {

/// Whether the rows an event carries are objects (a conversion reads them
/// as objects).
pub open spec fn rows_are_objects(e: Event) -> bool {
    match e {
        Event::Insert { new_data, .. } => new_data is Object,
        Event::Update { new_data, .. } => new_data is Object,
        Event::Delete { old_data, .. } => old_data is Object,
        Event::FullSync { data, .. } => data is Object,
        _ => true,
    }
}

/// The `id` of a row, or `null`.
pub open spec fn id_or_null(v: Option<JsonView>) -> JsonView {
    match v {
        Some(x) => x,
        None => JsonView::Null,
    }
}

/// The members of an object, or none.
pub open spec fn members_of(v: JsonValue) -> Option<Vec<(String, JsonValue)>> {
    match v {
        JsonValue::Object(ms) => Some(ms),
        _ => None,
    }
}

/// The kind, source schema and table, `id` and rows of the stored event
/// for an event: a change keeps its kind, schema and table, with its row
/// as new values; inserts, updates and deletes are creates, updates and
/// deletes in schema `public` (an update keeps its old row when that is an
/// object); a full-sync row is a create in `public`; checkpoints and
/// heartbeats are creates of table `control` in schema `system` with no
/// row.
pub open spec fn stored_form(e: Event) -> (EventType, Seq<char>, Seq<char>, JsonView, Option<Seq<(Seq<char>, JsonView)>>, Option<Seq<(Seq<char>, JsonView)>>) {
    match e {
        Event::Cdc(c) => (c.event_type, c.schema@, c.table@, id_or_null(lookup(members_view(c.data@), "id"@)), None, Some(members_view(c.data@))),
        Event::Insert { table, new_data, .. } => (EventType::Create, "public"@, table@, id_or_null(jget(jview(new_data), "id"@)), None, Some(members_view(members_of(new_data)->0@))),
        Event::Update { table, old_data, new_data, .. } => (EventType::Update, "public"@, table@, id_or_null(jget(jview(new_data), "id"@)), match members_of(old_data) {
            Some(ms) => Some(members_view(ms@)),
            None => None,
        }, Some(members_view(members_of(new_data)->0@))),
        Event::Delete { table, old_data, .. } => (EventType::Delete, "public"@, table@, id_or_null(jget(jview(old_data), "id"@)), Some(members_view(members_of(old_data)->0@)), None),
        Event::FullSync { table, data } => (EventType::Create, "public"@, table@, id_or_null(jget(jview(data), "id"@)), None, Some(members_view(members_of(data)->0@))),
        _ => (EventType::Create, "system"@, "control"@, JsonView::Null, None, None),
    }
}

/// The members of a row as they are stored.
pub open spec fn rows_view(r: Option<Vec<(String, JsonValue)>>) -> Option<Seq<(Seq<char>, JsonView)>> {
    match r {
        Some(ms) => Some(members_view(ms@)),
        None => None,
    }
}

fn id_copy(v: Option<&JsonValue>) -> (r: JsonValue)
    ensures
        jview(r) == id_or_null(
            match v {
                Some(x) => Some(jview(*x)),
                None => None,
            },
        ),
{
    match v {
        Some(x) => json_copy(x),
        None => JsonValue::Null,
    }
}

fn object_members(v: JsonValue) -> (r: Vec<(String, JsonValue)>)
    requires
        v is Object,
    ensures
        Some(r) == members_of(v),
{
    match v {
        JsonValue::Object(ms) => ms,
        _ => Vec::new(),
    }
}

/// The event the dead letter queue stores for an event that failed (see
/// `stored_form`), with a fresh id, no transaction, no position and no
/// custom metadata, stamped now.
pub fn convert_to_models_event(event: Event) -> (r: ModelsEvent)
    requires
        rows_are_objects(event),
    ensures
        ({
            let (t, schema, table, key, old, new) = stored_form(event);
            &&& r.id.0@.len() == 36
            &&& r.event_type == t
            &&& r.source.database@.len() == 0
            &&& r.source.schema@ == schema
            &&& r.source.table@ == table
            &&& jview(r.data.key) == key
            &&& rows_view(r.data.old) == old
            &&& rows_view(r.data.new) == new
            &&& r.metadata.transaction_id is None
            &&& r.metadata.position@.len() == 0
            &&& r.metadata.custom@.len() == 0
        }),
{
    proof {
        reveal_strlit("public");
        reveal_strlit("system");
        reveal_strlit("control");
    }
    let (event_type, schema, table, data) = match event {
        Event::Cdc(c) => {
            let key = id_copy(get_member(&c.data, "id"));
            (c.event_type, c.schema, c.table, EventData { key, old: None, new: Some(c.data) })
        },
        Event::Insert { table, new_data, .. } => {
            let key = id_copy(crate::json::json_get(&new_data, "id"));
            (EventType::Create, "public".to_owned(), table, EventData { key, old: None, new: Some(object_members(new_data)) })
        },
        Event::Update { table, old_data, new_data, .. } => {
            let key = id_copy(crate::json::json_get(&new_data, "id"));
            let old = match old_data {
                JsonValue::Object(ms) => Some(ms),
                _ => None,
            };
            (EventType::Update, "public".to_owned(), table, EventData { key, old, new: Some(object_members(new_data)) })
        },
        Event::Delete { table, old_data, .. } => {
            let key = id_copy(crate::json::json_get(&old_data, "id"));
            (EventType::Delete, "public".to_owned(), table, EventData { key, old: Some(object_members(old_data)), new: None })
        },
        Event::FullSync { table, data } => {
            let key = id_copy(crate::json::json_get(&data, "id"));
            (EventType::Create, "public".to_owned(), table, EventData { key, old: None, new: Some(object_members(data)) })
        },
        _ => (
            EventType::Create,
            "system".to_owned(),
            "control".to_owned(),
            EventData { key: JsonValue::Null, old: None, new: None },
        ),
    };
    ModelsEvent {
        id: EventId::new(),
        event_type,
        source: EventSource { database: String::new(), schema, table },
        data,
        metadata: EventMetadata { transaction_id: None, position: String::new(), custom: Vec::new() },
        timestamp: now_micros(),
    }
}

/// The first sync task with the given id.
pub open spec fn first_task_with_id(tasks: Seq<SyncTaskConfig>, task_id: Seq<char>, i: int) -> bool {
    0 <= i < tasks.len() && tasks[i].id@ == task_id && forall|j: int| 0 <= j < i ==> tasks[j].id@ != task_id
}

/// Finds the task a full sync is triggered for: the first with the id,
/// else `Task '<id>' not found`.
pub fn find_sync_task(tasks: &Vec<SyncTaskConfig>, task_id: &String) -> (r: Result<usize, MeiliBridgeError>)
    ensures
        match r {
            Ok(i) => first_task_with_id(tasks@, task_id@, i as int),
            Err(e) => (forall|j: int| 0 <= j < tasks@.len() ==> tasks@[j].id@ != task_id@) && (e matches MeiliBridgeError::NotFound(
                m,
            ) && m@ == "Task '"@ + task_id@ + "' not found"@),
        },
{
    let mut i: usize = 0;
    while i < tasks.len()
        invariant
            i <= tasks@.len(),
            forall|j: int| 0 <= j < i ==> tasks@[j].id@ != task_id@,
        decreases tasks@.len() - i,
    {
        if tasks[i].id == *task_id {
            return Ok(i);
        }
        i = i + 1;
    }
    Err(MeiliBridgeError::NotFound(concat3("Task '", task_id.as_str(), "' not found")))
}

/// What the answer to an import of full-sync documents means for the full
/// sync: any answer lets it go on (failures are only reported); the
/// destination's error, no answer, or a failed send stops it.
pub fn import_result(outcome: DeliveryOutcome) -> (r: Result<(), MeiliBridgeError>)
    ensures
        match outcome {
            DeliveryOutcome::Responded(_) => r is Ok,
            DeliveryOutcome::Failed(e) => r == Err::<(), MeiliBridgeError>(e),
            DeliveryOutcome::NoResponse => r matches Err(MeiliBridgeError::Pipeline(m)) && m@
                == "No response from destination"@,
            DeliveryOutcome::SendFailed(_) => r matches Err(MeiliBridgeError::Pipeline(m)) && m@
                == "Failed to send to destination"@,
        },
{
    match outcome {
        DeliveryOutcome::Responded(_) => Ok(()),
        DeliveryOutcome::Failed(e) => Err(e),
        DeliveryOutcome::NoResponse => Err(MeiliBridgeError::Pipeline("No response from destination".to_owned())),
        DeliveryOutcome::SendFailed(_) => Err(MeiliBridgeError::Pipeline("Failed to send to destination".to_owned())),
    }
}

} // verus!
