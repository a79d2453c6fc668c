//! What exactly-once delivery reads of an event: its position and its
//! deduplication key.

use vstd::prelude::*;
use crate::dedup::DeduplicationKey;
use crate::json::{get_member, jget, jview, lookup, members_view, JsonValue, JsonView};
use crate::models::stream_event::Event;
use crate::position::Position;

verus! {

/// The position an event carries, if any.
pub open spec fn event_position(e: Event) -> Option<Position> {
    match e {
        Event::Cdc(c) => c.position,
        Event::Insert { position, .. } => position,
        Event::Update { position, .. } => position,
        Event::Delete { position, .. } => position,
        Event::Checkpoint(p) => Some(p),
        _ => None,
    }
}

/// A copy of an optional position.
pub fn copy_opt_position(p: &Option<Position>) -> (r: Option<Position>)
    ensures
        r == *p,
{
    match p {
        Some(x) => Some(x.copy()),
        None => None,
    }
}

/// The position an event carries, if any.
pub fn extract_position_from_event(event: &Event) -> (r: Option<Position>)
    ensures
        r == event_position(*event),
{
    match event {
        Event::Cdc(c) => copy_opt_position(&c.position),
        Event::Insert { position, .. } => copy_opt_position(position),
        Event::Update { position, .. } => copy_opt_position(position),
        Event::Delete { position, .. } => copy_opt_position(position),
        Event::Checkpoint(p) => Some(p.copy()),
        _ => None,
    }
}

/// The LSN of a PostgreSQL position; empty for others and for none.
pub open spec fn lsn_of(p: Option<Position>) -> Seq<char> {
    match p {
        Some(Position::PostgreSQL { lsn }) => lsn@,
        _ => seq![],
    }
}

fn lsn_text(p: &Option<Position>) -> (r: String)
    ensures
        r@ == lsn_of(*p),
{
    match p {
        Some(Position::PostgreSQL { lsn }) => lsn.clone(),
        _ => String::new(),
    }
}

/// The table of a row event, empty for other events.
pub open spec fn event_table(e: Event) -> Seq<char> {
    match e {
        Event::Cdc(c) => c.table@,
        Event::Insert { table, .. } => table@,
        Event::Update { table, .. } => table@,
        Event::Delete { table, .. } => table@,
        _ => seq![],
    }
}

/// The `id` of an event's row: of the new row of a change, insert or
/// update, of the old row of a delete.
pub open spec fn event_row_id(e: Event) -> Option<JsonView> {
    match e {
        Event::Cdc(c) => lookup(members_view(c.data@), "id"@),
        Event::Insert { new_data, .. } => jget(jview(new_data), "id"@),
        Event::Update { new_data, .. } => jget(jview(new_data), "id"@),
        Event::Delete { old_data, .. } => jget(jview(old_data), "id"@),
        _ => None,
    }
}

/// The deduplication key of an event without its primary key, and the
/// row's `id`, whose JSON text is the primary key when there is one
/// (`DeduplicationKey::with_primary_key`): the key has the LSN of a
/// PostgreSQL position (else empty), no transaction id and the table.
/// Other events get an empty key.
pub fn create_dedup_key_from_event<'a>(event: &'a Event) -> (r: (DeduplicationKey, Option<&'a JsonValue>))
    ensures
        r.0.lsn@ == (match *event {
            Event::Cdc(_) | Event::Insert { .. } | Event::Update { .. } | Event::Delete { .. } => lsn_of(
                event_position(*event),
            ),
            _ => seq![],
        }),
        r.0.xid is None,
        r.0.table@ == event_table(*event),
        r.0.primary_key is None,
        match event_row_id(*event) {
            Some(v) => r.1 matches Some(x) && jview(*x) == v,
            None => r.1 is None,
        },
{
    match event {
        Event::Cdc(c) => (DeduplicationKey::new(lsn_text(&c.position), None, c.table.clone()), get_member(&c.data, "id")),
        Event::Insert { table, new_data, position } => (
            DeduplicationKey::new(lsn_text(position), None, table.clone()),
            crate::json::json_get(new_data, "id"),
        ),
        Event::Update { table, new_data, position, .. } => (
            DeduplicationKey::new(lsn_text(position), None, table.clone()),
            crate::json::json_get(new_data, "id"),
        ),
        Event::Delete { table, old_data, position } => (
            DeduplicationKey::new(lsn_text(position), None, table.clone()),
            crate::json::json_get(old_data, "id"),
        ),
        _ => (DeduplicationKey::new(String::new(), None, String::new()), None),
    }
}

} // verus!
