use meilibridge::config::meilisearch::{CircuitBreakerConfig, IndexSettings, MeilisearchConfig};
use meilibridge::destination::adapter::SyncResult;
use meilibridge::destination::meilisearch::adapter::{
    chunk_bounds, group_events, record_import_chunk, swap_indexes_error, MeilisearchAdapter,
};
use meilibridge::error::MeiliBridgeError;
use meilibridge::json::{JsonNumber, JsonValue};
use meilibridge::models::event::{CdcEvent, EventType};
use meilibridge::models::stream_event::Event;
use meilibridge::position::Position;

fn row(fields: Vec<(&str, JsonValue)>) -> Vec<(String, JsonValue)> {
    fields.into_iter().map(|(k, v)| (k.to_string(), v)).collect()
}

fn cdc(table: &str, event_type: EventType, data: Vec<(&str, JsonValue)>, lsn: Option<&str>) -> Event {
    Event::Cdc(CdcEvent {
        event_type,
        table: table.to_string(),
        schema: "public".to_string(),
        data: row(data),
        timestamp: 0,
        position: lsn.map(|l| Position::PostgreSQL { lsn: l.to_string() }),
    })
}

fn num(n: u64) -> JsonValue {
    JsonValue::Number(JsonNumber::PosInt(n))
}

fn config(primary_key: Option<&str>) -> MeilisearchConfig {
    MeilisearchConfig {
        url: "http://localhost:7700".to_string(),
        api_key: None,
        timeout: 30,
        max_connections: 10,
        index_settings: IndexSettings::default(),
        primary_key: primary_key.map(|s| s.to_string()),
        batch_size: 1000,
        auto_create_index: true,
        circuit_breaker: CircuitBreakerConfig::default(),
    }
}

#[test]
fn group_events_splits_by_table_in_first_seen_order() {
    let events = vec![
        cdc("users", EventType::Create, vec![("id", num(1))], Some("0/1")),
        Event::Heartbeat,
        cdc("orders", EventType::Create, vec![("id", num(7))], None),
        Event::FullSync { table: "users".to_string(), data: JsonValue::Null },
        cdc("users", EventType::Update, vec![("id", num(1))], Some("0/2")),
        cdc("orders", EventType::Delete, vec![("id", num(7))], None),
    ];
    let groups = group_events(events);
    assert_eq!(groups.indexes, vec!["users".to_string(), "orders".to_string()]);
    assert_eq!(groups.batches[0].len(), 3);
    assert_eq!(groups.batches[1].len(), 2);
    match &groups.last_position {
        Some(Position::PostgreSQL { lsn }) => assert_eq!(lsn, "0/2"),
        other => panic!("unexpected position {:?}", other),
    }
}

#[test]
fn group_events_of_control_events_is_empty() {
    let groups = group_events(vec![Event::Heartbeat, Event::Checkpoint(Position::PostgreSQL { lsn: "0/9".to_string() })]);
    assert!(groups.indexes.is_empty());
    assert!(groups.batches.is_empty());
    assert!(groups.last_position.is_none());
}

#[test]
fn chunk_bounds_cover_every_item_once() {
    assert_eq!(chunk_bounds(10, 4), vec![(0, 4), (4, 8), (8, 10)]);
    assert_eq!(chunk_bounds(8, 4), vec![(0, 4), (4, 8)]);
    assert_eq!(chunk_bounds(0, 3), Vec::<(usize, usize)>::new());
    assert_eq!(chunk_bounds(2, 5), vec![(0, 2)]);
}

#[test]
fn known_tables_have_their_own_primary_keys() {
    let adapter = MeilisearchAdapter::new(config(Some("uid")));
    assert_eq!(adapter.primary_key_for(&"products".to_string()), Some("sku".to_string()));
    assert_eq!(adapter.primary_key_for(&"users".to_string()), Some("id".to_string()));
    assert_eq!(adapter.primary_key_for(&"items".to_string()), Some("uid".to_string()));
    assert_eq!(adapter.import_primary_key(&"users".to_string(), Some("email".to_string())), Some("email".to_string()));
    let plain = MeilisearchAdapter::new(config(None));
    assert_eq!(plain.primary_key_for(&"items".to_string()), None);
}

#[test]
fn fill_batch_collects_writes_deletes_and_refusals() {
    let mut adapter = MeilisearchAdapter::new(config(None));
    let mut result = SyncResult::new();
    let events = vec![
        cdc("items", EventType::Create, vec![("id", num(1))], None),
        cdc("items", EventType::Delete, vec![("id", num(2))], None),
    ];
    adapter.fill_batch(&"items".to_string(), events, &mut result);
    assert_eq!(adapter.batch_processor.documents_to_upsert.len(), 1);
    assert!(adapter.batch_processor.documents_to_delete.is_empty());
    assert_eq!(result.failed_count, 1);
    assert_eq!(result.errors, vec!["Meilisearch error: No primary key configured for delete operations".to_string()]);

    let mut result = SyncResult::new();
    let events = vec![cdc("users", EventType::Delete, vec![("id", num(42))], None)];
    adapter.fill_batch(&"users".to_string(), events, &mut result);
    assert_eq!(adapter.batch_processor.documents_to_delete, vec!["42".to_string()]);
    assert_eq!(result.failed_count, 0);
}

#[test]
fn record_batch_counts_each_part() {
    let mut adapter = MeilisearchAdapter::new(config(Some("id")));
    let mut result = SyncResult::new();
    let events = vec![
        cdc("items", EventType::Create, vec![("id", num(1))], None),
        cdc("items", EventType::Create, vec![("id", num(2))], None),
        cdc("items", EventType::Delete, vec![("id", num(3))], None),
    ];
    adapter.fill_batch(&"items".to_string(), events, &mut result);
    adapter.record_batch(&mut result, Ok(()), Err(MeiliBridgeError::Meilisearch("boom".to_string())));
    assert_eq!(result.success_count, 2);
    assert_eq!(result.failed_count, 2);
    assert_eq!(result.errors, vec!["Delete error: Meilisearch error: boom".to_string()]);
    assert!(adapter.batch_processor.documents_to_upsert.is_empty());
    assert!(adapter.batch_processor.documents_to_delete.is_empty());
}

#[test]
fn import_chunks_are_counted() {
    let mut result = SyncResult::new();
    record_import_chunk(&mut result, 5, Ok(()));
    record_import_chunk(&mut result, 3, Err(MeiliBridgeError::Meilisearch("down".to_string())));
    assert_eq!(result.success_count, 5);
    assert_eq!(result.failed_count, 4);
    assert_eq!(result.errors, vec!["Import error: Meilisearch error: down".to_string()]);
}

#[test]
fn import_batch_size_prefers_the_adaptive_size() {
    let adapter = MeilisearchAdapter::new(config(None));
    assert_eq!(adapter.import_batch_size(Some(Ok(250))), 250);
    assert_eq!(adapter.import_batch_size(Some(Err(MeiliBridgeError::ChannelSend))), 1000);
    assert_eq!(adapter.import_batch_size(None), 1000);
}

#[test]
fn swapping_indexes_is_refused() {
    assert_eq!(
        swap_indexes_error().message(),
        "Meilisearch error: Index swap not fully implemented - requires document copying"
    );
}
