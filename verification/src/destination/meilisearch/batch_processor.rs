//! Turning events into the documents to write and to delete.

use vstd::prelude::*;
use crate::error::MeiliBridgeError;
use crate::json::{get_member, jview, lookup, members_view, JsonNumber, JsonValue, JsonView};
use crate::models::event::{CdcEvent, EventType};
use crate::models::stream_event::Event;
use crate::text::{concat3, i64_to_string, signed_decimal};

verus! {

/// The document id a primary key value gives: a string as it is, an
/// integer that fits `i64` in decimal, anything else none.
pub open spec fn document_id(v: JsonView) -> Option<Seq<char>> {
    match v {
        JsonView::String(s) => Some(s),
        JsonView::Number(JsonNumber::PosInt(u)) => if u <= i64::MAX {
            Some(signed_decimal(u as int))
        } else {
            None
        },
        JsonView::Number(JsonNumber::NegInt(i)) => Some(signed_decimal(i as int)),
        _ => None,
    }
}

/// The documents of a batch: those to write and the ids of those to delete.
pub struct BatchProcessor {
    /// Documents to add or update.
    pub documents_to_upsert: Vec<JsonValue>,
    /// Ids of documents to delete.
    pub documents_to_delete: Vec<String>,
    /// The primary key field used for deletes.
    pub primary_key: Option<String>,
}

/// What processing an event does to a batch.
pub enum BatchEffect {
    /// A document to write.
    Upsert(JsonValue),
    /// An id to delete.
    Delete(Seq<char>),
    /// Nothing.
    Skip,
    /// The event is refused with this error text.
    Refuse(Seq<char>),
}

/// What processing an event does, given the primary key field.
pub open spec fn batch_effect(pk: Option<String>, e: Event) -> BatchEffect {
    match e {
        Event::Cdc(cdc) => match cdc.event_type {
            EventType::Create | EventType::Update => BatchEffect::Upsert(JsonValue::Object(cdc.data)),
            EventType::Delete => match pk {
                None => BatchEffect::Refuse("No primary key configured for delete operations"@),
                Some(f) => match lookup(members_view(cdc.data@), f@) {
                    None => BatchEffect::Refuse("Missing primary key field '"@ + f@ + "' in delete event"@),
                    Some(v) => match document_id(v) {
                        Some(id) => BatchEffect::Delete(id),
                        None => BatchEffect::Skip,
                    },
                },
            },
            _ => BatchEffect::Skip,
        },
        Event::FullSync { data, .. } => BatchEffect::Upsert(data),
        _ => BatchEffect::Skip,
    }
}

fn id_of(v: &JsonValue) -> (r: Option<String>)
    ensures
        match document_id(jview(*v)) {
            Some(id) => r matches Some(s) && s@ == id,
            None => r is None,
        },
{
    match v {
        JsonValue::String(s) => Some(s.clone()),
        JsonValue::Number(JsonNumber::PosInt(u)) => {
            if *u <= 9223372036854775807u64 {
                Some(i64_to_string(*u as i64))
            } else {
                None
            }
        },
        JsonValue::Number(JsonNumber::NegInt(i)) => Some(i64_to_string(*i)),
        _ => None,
    }
}

impl BatchProcessor {
    /// An empty batch.
    pub fn new(primary_key: Option<String>) -> (r: Self)
        ensures
            r.documents_to_upsert@.len() == 0,
            r.documents_to_delete@.len() == 0,
            r.primary_key == primary_key,
    {
        BatchProcessor { documents_to_upsert: Vec::new(), documents_to_delete: Vec::new(), primary_key }
    }

    /// Adds what an event asks for: creates, updates and full-sync rows
    /// become documents to write; a delete gives the id under the primary
    /// key field (a delete whose key is neither a string nor an integer is
    /// skipped); a delete without a primary key field, or whose row lacks
    /// it, is refused.
    pub fn process_event(&mut self, event: Event) -> (r: Result<(), MeiliBridgeError>)
        ensures
            final(self).primary_key == old(self).primary_key,
            match batch_effect(old(self).primary_key, event) {
                BatchEffect::Upsert(d) => r is Ok && final(self).documents_to_upsert@ == old(
                    self,
                ).documents_to_upsert@.push(d) && final(self).documents_to_delete@ == old(
                    self,
                ).documents_to_delete@,
                BatchEffect::Delete(id) => r is Ok && final(self).documents_to_upsert@ == old(
                    self,
                ).documents_to_upsert@ && final(self).documents_to_delete@.len() == old(
                    self,
                ).documents_to_delete@.len() + 1 && final(self).documents_to_delete@.drop_last()
                    == old(self).documents_to_delete@ && final(self).documents_to_delete@.last()@ == id,
                BatchEffect::Skip => r is Ok && final(self).documents_to_upsert@ == old(
                    self,
                ).documents_to_upsert@ && final(self).documents_to_delete@ == old(self).documents_to_delete@,
                BatchEffect::Refuse(m) => (r matches Err(MeiliBridgeError::Meilisearch(t)) && t@ == m)
                    && final(self).documents_to_upsert@ == old(self).documents_to_upsert@
                    && final(self).documents_to_delete@ == old(self).documents_to_delete@,
            },
    {
        match event {
            Event::Cdc(cdc) => self.process_cdc_event(cdc),
            Event::FullSync { data, .. } => {
                self.documents_to_upsert.push(data);
                Ok(())
            },
            _ => Ok(()),
        }
    }

    fn process_cdc_event(&mut self, event: CdcEvent) -> (r: Result<(), MeiliBridgeError>)
        ensures
            final(self).primary_key == old(self).primary_key,
            match batch_effect(old(self).primary_key, Event::Cdc(event)) {
                BatchEffect::Upsert(d) => r is Ok && final(self).documents_to_upsert@ == old(
                    self,
                ).documents_to_upsert@.push(d) && final(self).documents_to_delete@ == old(
                    self,
                ).documents_to_delete@,
                BatchEffect::Delete(id) => r is Ok && final(self).documents_to_upsert@ == old(
                    self,
                ).documents_to_upsert@ && final(self).documents_to_delete@.len() == old(
                    self,
                ).documents_to_delete@.len() + 1 && final(self).documents_to_delete@.drop_last()
                    == old(self).documents_to_delete@ && final(self).documents_to_delete@.last()@ == id,
                BatchEffect::Skip => r is Ok && final(self).documents_to_upsert@ == old(
                    self,
                ).documents_to_upsert@ && final(self).documents_to_delete@ == old(self).documents_to_delete@,
                BatchEffect::Refuse(m) => (r matches Err(MeiliBridgeError::Meilisearch(t)) && t@ == m)
                    && final(self).documents_to_upsert@ == old(self).documents_to_upsert@
                    && final(self).documents_to_delete@ == old(self).documents_to_delete@,
            },
    {
        match event.event_type {
            EventType::Create | EventType::Update => {
                self.documents_to_upsert.push(JsonValue::Object(event.data));
                Ok(())
            },
            EventType::Delete => {
                match &self.primary_key {
                    None => Err(MeiliBridgeError::Meilisearch("No primary key configured for delete operations".to_owned())),
                    Some(f) => match get_member(&event.data, f.as_str()) {
                        None => Err(
                            MeiliBridgeError::Meilisearch(concat3("Missing primary key field '", f.as_str(), "' in delete event")),
                        ),
                        Some(v) => {
                            match id_of(v) {
                                Some(id) => {
                                    self.documents_to_delete.push(id);
                                },
                                None => {},
                            }
                            Ok(())
                        },
                    },
                }
            },
            _ => Ok(()),
        }
    }

    /// Empties the batch.
    pub fn clear(&mut self)
        ensures
            final(self).documents_to_upsert@.len() == 0,
            final(self).documents_to_delete@.len() == 0,
            final(self).primary_key == old(self).primary_key,
    {
        self.documents_to_upsert.clear();
        self.documents_to_delete.clear();
    }

    /// Whether there is nothing to write or delete.
    pub fn is_empty(&self) -> (r: bool)
        ensures
            r == (self.documents_to_upsert@.len() == 0 && self.documents_to_delete@.len() == 0),
    {
        self.documents_to_upsert.len() == 0 && self.documents_to_delete.len() == 0
    }

    /// How many writes and deletes the batch holds.
    pub fn len(&self) -> (r: usize)
        requires
            self.documents_to_upsert@.len() + self.documents_to_delete@.len() <= usize::MAX,
        ensures
            r == self.documents_to_upsert@.len() + self.documents_to_delete@.len(),
    {
        self.documents_to_upsert.len() + self.documents_to_delete.len()
    }
}

/// A change event that creates or updates a row adds that row, as an
/// object, to the documents to write, whatever the primary key; an update
/// does exactly what a create of the same row does.
pub proof fn law_creates_and_updates_write_the_row(pk: Option<String>, e: CdcEvent)
    ensures
        (e.event_type == EventType::Create || e.event_type == EventType::Update) ==> batch_effect(pk, Event::Cdc(e))
            == BatchEffect::Upsert(JsonValue::Object(e.data)),
        batch_effect(pk, Event::Cdc(CdcEvent { event_type: EventType::Update, ..e })) == batch_effect(
            pk,
            Event::Cdc(CdcEvent { event_type: EventType::Create, ..e }),
        ),
        batch_effect(pk, Event::Cdc(CdcEvent { event_type: EventType::Update, ..e })) matches BatchEffect::Upsert(d)
            && jview(d) == JsonView::Object(members_view(e.data@)),
{
    crate::json::lemma_jview_object(e.data);
}

} // verus!
