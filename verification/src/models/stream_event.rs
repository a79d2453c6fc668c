//! Events of the streaming pipeline.

use vstd::prelude::*;
use crate::json::JsonValue;
use crate::models::event::CdcEvent;
use crate::position::Position;

verus! {

/// An event of the streaming pipeline.
#[derive(Debug)]
pub enum Event {
    /// A change event.
    Cdc(CdcEvent),
    /// A row read by a full sync.
    FullSync { table: String, data: JsonValue },
    /// An inserted row.
    Insert { table: String, new_data: JsonValue, position: Option<Position> },
    /// An updated row.
    Update { table: String, old_data: JsonValue, new_data: JsonValue, position: Option<Position> },
    /// A deleted row.
    Delete { table: String, old_data: JsonValue, position: Option<Position> },
    /// A position to record.
    Checkpoint(Position),
    /// A sign of life.
    Heartbeat,
}

/// A change event with the position it was read at.
#[derive(Debug)]
pub struct CdcEventWithPosition {
    pub event: CdcEvent,
    pub position: Option<Position>,
}

impl CdcEventWithPosition {
    /// Pairs an event with its position.
    pub fn new(event: CdcEvent, position: Option<Position>) -> (r: Self)
        ensures
            r.event == event,
            r.position == position,
    {
        CdcEventWithPosition { event, position }
    }
}

} // verus!
