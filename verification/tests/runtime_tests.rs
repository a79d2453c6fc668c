use meilibridge::json::{JsonNumber, JsonValue};
use meilibridge::models::event::{CdcEvent, EventType};
use meilibridge::models::runtime::{ErrorInfo, Metrics, RuntimeState, SourceStatus, TaskMetrics, TaskStatus};
use meilibridge::models::stream_event::Event;
use meilibridge::pipeline::exactly_once_helpers::{create_dedup_key_from_event, extract_position_from_event};
use meilibridge::pipeline::orchestrator::convert_to_models_event;
use meilibridge::position::Position;

fn obj(fields: Vec<(&str, JsonValue)>) -> JsonValue {
    JsonValue::Object(fields.into_iter().map(|(k, v)| (k.to_string(), v)).collect())
}

#[test]
fn counters_wrap_like_atomics() {
    let mut m = Metrics::new();
    m.record_event(10);
    m.record_event(5);
    m.record_error();
    assert_eq!((m.total_events, m.total_bytes, m.total_errors), (2, 15, 1));
    m.total_bytes = u64::MAX;
    m.record_event(2);
    assert_eq!(m.total_bytes, 1);
}

#[test]
fn uptime_rounds_toward_zero() {
    let mut m = Metrics::new();
    m.start_time = 1_000_000;
    assert_eq!(m.uptime_seconds_at(3_999_999), 2);
    assert_eq!(m.uptime_seconds_at(1_000_000), 0);
    assert_eq!(m.uptime_seconds_at(-500_000), -1);
    assert!(m.uptime_seconds() > 0);
}

#[test]
fn runtime_starts_empty() {
    let r = RuntimeState::new();
    assert_eq!(r.metrics.total_events, 0);
    assert!(r.sources.entries().is_empty());
    assert!(r.tasks.entries().is_empty());
    assert_eq!(SourceStatus::Connected, SourceStatus::Connected);
    assert_ne!(TaskStatus::Running, TaskStatus::Paused);
    let t = TaskMetrics::new();
    assert_eq!(t.error_rate, 0);
}

#[test]
fn error_info_carries_details() {
    let e = ErrorInfo::new("E1".to_string(), "broken".to_string()).with_details(JsonValue::Bool(true));
    assert_eq!(e.code, "E1");
    assert_eq!(e.message, "broken");
    assert!(matches!(e.details, Some(JsonValue::Bool(true))));
}

#[test]
fn positions_of_events() {
    let p = Position::PostgreSQL { lsn: "0/5".to_string() };
    let ins = Event::Insert { table: "t".to_string(), new_data: obj(vec![]), position: Some(p.clone()) };
    assert!(matches!(extract_position_from_event(&ins), Some(Position::PostgreSQL { lsn }) if lsn == "0/5"));
    assert!(matches!(extract_position_from_event(&Event::Checkpoint(p)), Some(_)));
    assert!(extract_position_from_event(&Event::Heartbeat).is_none());
}

#[test]
fn dedup_keys_of_events() {
    let ev = Event::Delete {
        table: "users".to_string(),
        old_data: obj(vec![("id", JsonValue::Number(JsonNumber::PosInt(9)))]),
        position: Some(Position::PostgreSQL { lsn: "0/A".to_string() }),
    };
    let (key, id) = create_dedup_key_from_event(&ev);
    assert_eq!(key.lsn, "0/A");
    assert_eq!(key.table, "users");
    assert!(key.xid.is_none() && key.primary_key.is_none());
    assert!(matches!(id, Some(JsonValue::Number(JsonNumber::PosInt(9)))));
    let mysql = Event::Insert {
        table: "t".to_string(),
        new_data: obj(vec![]),
        position: Some(Position::MySQL { file: "bin.1".to_string(), position: 4 }),
    };
    let (key, id) = create_dedup_key_from_event(&mysql);
    assert_eq!(key.lsn, "");
    assert!(id.is_none());
    let (key, _) = create_dedup_key_from_event(&Event::Heartbeat);
    assert_eq!((key.lsn.as_str(), key.table.as_str()), ("", ""));
}

#[test]
fn failed_events_become_stored_events() {
    let cdc = Event::Cdc(CdcEvent {
        event_type: EventType::Update,
        table: "users".to_string(),
        schema: "app".to_string(),
        data: vec![("id".to_string(), JsonValue::Number(JsonNumber::PosInt(3)))],
        timestamp: 0,
        position: None,
    });
    let m = convert_to_models_event(cdc);
    assert_eq!(m.event_type, EventType::Update);
    assert_eq!(m.source.schema, "app");
    assert!(matches!(m.data.key, JsonValue::Number(JsonNumber::PosInt(3))));
    assert!(m.data.new.is_some() && m.data.old.is_none());
    assert_eq!(m.id.0.len(), 36);

    let del = Event::Delete { table: "users".to_string(), old_data: obj(vec![]), position: None };
    let m = convert_to_models_event(del);
    assert_eq!(m.event_type, EventType::Delete);
    assert_eq!(m.source.schema, "public");
    assert!(matches!(m.data.key, JsonValue::Null));
    assert!(m.data.old.is_some() && m.data.new.is_none());

    let m = convert_to_models_event(Event::Heartbeat);
    assert_eq!((m.source.schema.as_str(), m.source.table.as_str()), ("system", "control"));
}

#[test]
fn uptime_of_fresh_counters_is_about_zero() {
    let m = Metrics::new();
    let up = m.uptime_seconds();
    assert!(up >= 0 && up < 60);
}
