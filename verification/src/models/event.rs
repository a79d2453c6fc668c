//! Change events.

use vstd::prelude::*;
use crate::ids::new_uuid_string;
use crate::json::{get_member, json_copy, jview, lookup, members_view, JsonValue, JsonView};
use crate::position::Position;

verus! {

/// A unique event identifier.
#[derive(Debug, Clone)]
pub struct EventId(pub String);

impl EventId {
    /// A fresh random identifier.
    pub fn new() -> (r: EventId)
        ensures
            crate::ids::uuid_v4_text(r.0@),
    {
        EventId(new_uuid_string())
    }
}

impl Default for EventId {
    fn default() -> (r: EventId)
        ensures
            crate::ids::uuid_v4_text(r.0@),
    {
        EventId::new()
    }
}

/// The kind of change.
#[derive(Debug, Clone, Copy, PartialEq, Eq, Structural)]
pub enum EventType {
    Create,
    Update,
    Delete,
    Truncate,
    Schema,
}

/// Where an event comes from.
#[derive(Debug, Clone)]
pub struct EventSource {
    pub database: String,
    pub schema: String,
    pub table: String,
}

/// The row of an event.
#[derive(Debug)]
pub struct EventData {
    /// Primary key value(s).
    pub key: JsonValue,
    /// Old values (for updates and deletes), field by field.
    pub old: Option<Vec<(String, JsonValue)>>,
    /// New values (for creates and updates), field by field.
    pub new: Option<Vec<(String, JsonValue)>>,
}

/// Transaction and position of an event.
#[derive(Debug)]
pub struct EventMetadata {
    pub transaction_id: Option<String>,
    /// Source position (LSN, binlog position, and so on).
    pub position: String,
    /// Custom metadata, field by field.
    pub custom: Vec<(String, JsonValue)>,
}

/// A change event with its identity, source and metadata.
#[derive(Debug)]
pub struct Event {
    pub id: EventId,
    pub event_type: EventType,
    pub source: EventSource,
    pub data: EventData,
    pub metadata: EventMetadata,
    /// Microseconds since the Unix epoch.
    pub timestamp: i64,
}

/// A change event as it flows through the pipeline.
#[derive(Debug)]
pub struct CdcEvent {
    pub event_type: EventType,
    pub table: String,
    pub schema: String,
    /// The row, field by field; each field occurs once.
    pub data: Vec<(String, JsonValue)>,
    /// Microseconds since the Unix epoch.
    pub timestamp: i64,
    pub position: Option<Position>,
}

/// The key of a row: its `id` field, else its `_id` field, else `null`.
pub open spec fn row_key(data: Seq<(String, JsonValue)>) -> JsonView {
    match lookup(members_view(data), "id"@) {
        Some(v) => v,
        None => match lookup(members_view(data), "_id"@) {
            Some(v) => v,
            None => JsonView::Null,
        },
    }
}

fn key_of(data: &Vec<(String, JsonValue)>) -> (r: JsonValue)
    ensures
        jview(r) == row_key(data@),
{
    match get_member(data, "id") {
        Some(v) => json_copy(v),
        None => match get_member(data, "_id") {
            Some(v) => json_copy(v),
            None => JsonValue::Null,
        },
    }
}

impl vstd::std_specs::convert::FromSpecImpl<CdcEvent> for Event {
    /// The conversion draws a fresh identifier, so no function of the
    /// input alone gives its result; its own contract says the rest.
    open spec fn obeys_from_spec() -> bool {
        false
    }

    open spec fn from_spec(v: CdcEvent) -> Event {
        vstd::pervasive::arbitrary()
    }
}

impl From<CdcEvent> for Event {
    /// Wraps a pipeline event: creates and updates carry the row as new
    /// values, deletes as old values, other kinds carry no row; the key is
    /// the row's `id` or `_id` field; the identifier is fresh and the
    /// database, position and transaction are left for the source to fill.
    fn from(cdc: CdcEvent) -> (e: Event)
        ensures
            crate::ids::uuid_v4_text(e.id.0@),
            e.event_type == cdc.event_type,
            e.source.database@.len() == 0,
            e.source.schema == cdc.schema,
            e.source.table == cdc.table,
            jview(e.data.key) == row_key(cdc.data@),
            e.data.old == (if cdc.event_type == EventType::Delete { Some(cdc.data) } else { None }),
            e.data.new == (if cdc.event_type == EventType::Create || cdc.event_type == EventType::Update {
                Some(cdc.data)
            } else {
                None
            }),
            e.metadata.transaction_id is None,
            e.metadata.position@.len() == 0,
            e.metadata.custom@.len() == 0,
            e.timestamp == cdc.timestamp,
    {
        let key = key_of(&cdc.data);
        let data = match cdc.event_type {
            EventType::Create => EventData { key, old: None, new: Some(cdc.data) },
            EventType::Update => EventData { key, old: None, new: Some(cdc.data) },
            EventType::Delete => EventData { key, old: Some(cdc.data), new: None },
            _ => EventData { key, old: None, new: None },
        };
        Event {
            id: EventId::new(),
            event_type: cdc.event_type,
            source: EventSource { database: String::new(), schema: cdc.schema, table: cdc.table },
            data,
            metadata: EventMetadata { transaction_id: None, position: String::new(), custom: Vec::new() },
            timestamp: cdc.timestamp,
        }
    }
}

} // verus!
