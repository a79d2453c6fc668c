//! Soft deletes: rows marked deleted by a field are deleted downstream.

use vstd::prelude::*;
use crate::config::sync_task::SoftDeleteConfig;
use crate::json::{get_member, items_view, jeq, jget, json_equal, json_get, jview, lookup, members_view, JsonValue, JsonView};
use crate::models::event::EventType;
use crate::models::stream_event::Event;

verus! {

/// Whether a value equals one of the values that mean deleted.
pub open spec fn marks_deleted(delete_values: Seq<JsonView>, v: JsonView) -> bool {
    exists|i: int| 0 <= i < delete_values.len() && jeq(v, #[trigger] delete_values[i])
}

/// Whether the field's value, if present, marks the row deleted.
pub open spec fn field_marks_deleted(delete_values: Seq<JsonView>, found: Option<JsonView>) -> bool {
    match found {
        Some(v) => marks_deleted(delete_values, v),
        None => false,
    }
}

/// Turns updates that mark a row deleted into deletes, and drops such rows
/// from full syncs.
pub struct SoftDeleteHandler {
    config: SoftDeleteConfig,
}

impl SoftDeleteHandler {
    /// The settings.
    pub closed spec fn settings(&self) -> SoftDeleteConfig {
        self.config
    }

    /// A handler with the given settings.
    pub fn new(config: SoftDeleteConfig) -> (r: Self)
        ensures
            r.settings() == config,
    {
        SoftDeleteHandler { config }
    }

    fn is_soft_deleted(&self, value: &JsonValue) -> (r: bool)
        ensures
            r == marks_deleted(items_view(self.config.delete_values@), jview(*value)),
    {
        let vals = &self.config.delete_values;
        let mut i: usize = 0;
        while i < vals.len()
            invariant
                vals == &self.config.delete_values,
                i <= vals@.len(),
                forall|j: int| 0 <= j < i ==> !jeq(jview(*value), #[trigger] items_view(vals@)[j]),
            decreases vals@.len() - i,
        {
            if json_equal(value, &vals[i]) {
                assert(items_view(vals@).len() == vals@.len());
                assert(jeq(jview(*value), items_view(vals@)[i as int]));
                assert(marks_deleted(items_view(self.config.delete_values@), jview(*value)));
                return true;
            }
            i = i + 1;
        }
        assert(items_view(vals@).len() == vals@.len());
        assert(!marks_deleted(items_view(vals@), jview(*value)));
        false
    }

    /// The event after soft-delete handling: a change-stream update whose
    /// field marks the row deleted becomes a delete of the row (when
    /// handling on change streams is on); a full-sync row so marked is
    /// dropped (when handling on full sync is on); anything else passes.
    pub fn transform_event(&self, event: Event) -> (r: Option<Event>)
        ensures
            ({
                let c = self.settings();
                let dv = items_view(c.delete_values@);
                match event {
                    Event::Cdc(cdc) => if cdc.event_type == EventType::Update && c.handle_on_cdc && field_marks_deleted(
                        dv,
                        lookup(members_view(cdc.data@), c.field@),
                    ) {
                        r == Some(Event::Delete {
                            table: cdc.table,
                            old_data: JsonValue::Object(cdc.data),
                            position: cdc.position,
                        })
                    } else {
                        r == Some(event)
                    },
                    Event::Update { table, old_data, new_data, position } => if c.handle_on_cdc && field_marks_deleted(
                        dv,
                        jget(jview(new_data), c.field@),
                    ) {
                        r == Some(Event::Delete { table, old_data, position })
                    } else {
                        r == Some(event)
                    },
                    Event::FullSync { table, data } => if c.handle_on_full_sync && field_marks_deleted(
                        dv,
                        jget(jview(data), c.field@),
                    ) {
                        r is None
                    } else {
                        r == Some(event)
                    },
                    _ => r == Some(event),
                }
            }),
    {
        let deleted = match &event {
            Event::Cdc(cdc) => {
                if cdc.event_type == EventType::Update && self.config.handle_on_cdc {
                    match get_member(&cdc.data, self.config.field.as_str()) {
                        Some(v) => self.is_soft_deleted(v),
                        None => false,
                    }
                } else {
                    false
                }
            },
            Event::Update { new_data, .. } => {
                if self.config.handle_on_cdc {
                    match json_get(new_data, self.config.field.as_str()) {
                        Some(v) => self.is_soft_deleted(v),
                        None => false,
                    }
                } else {
                    false
                }
            },
            Event::FullSync { data, .. } => {
                if self.config.handle_on_full_sync {
                    match json_get(data, self.config.field.as_str()) {
                        Some(v) => self.is_soft_deleted(v),
                        None => false,
                    }
                } else {
                    false
                }
            },
            _ => false,
        };
        if !deleted {
            return Some(event);
        }
        match event {
            Event::Cdc(cdc) => Some(Event::Delete {
                table: cdc.table,
                old_data: JsonValue::Object(cdc.data),
                position: cdc.position,
            }),
            Event::Update { table, old_data, new_data, position } => Some(Event::Delete { table, old_data, position }),
            Event::FullSync { .. } => None,
            other => Some(other),
        }
    }
}

} // verus!
