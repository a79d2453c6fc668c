use meilibridge::config::pipeline::{Condition, FilterConfig, TableFilter};
use meilibridge::config::sync_task::SoftDeleteConfig;
use meilibridge::destination::circuit_breaker::{CircuitBreakerBuilder, CircuitBreakerError, CircuitState, MeilisearchCircuitBreaker};
use meilibridge::destination::protected::{next_task_step, start_task, TaskAction, TaskKind, TaskReply, TaskStage};
use meilibridge::error::MeiliBridgeError;
use meilibridge::json::{JsonNumber, JsonValue};
use meilibridge::models::event::{CdcEvent, EventType};
use meilibridge::models::stream_event::Event;
use meilibridge::pipeline::cdc_coordinator::CdcCoordinator;
use meilibridge::pipeline::filter::EventFilter;
use meilibridge::pipeline::memory_monitor::MemoryMonitor;
use meilibridge::pipeline::soft_delete::SoftDeleteHandler;
use meilibridge::pipeline::streaming_processor::{estimate_value_size, find_json_string_value, StreamingJsonProcessor, ZeroCopyEventRouter};

fn cdc(table: &str, schema: &str, et: EventType, data: Vec<(&str, JsonValue)>) -> Event {
    Event::Cdc(CdcEvent {
        event_type: et,
        table: table.to_string(),
        schema: schema.to_string(),
        data: data.into_iter().map(|(k, v)| (k.to_string(), v)).collect(),
        timestamp: 0,
        position: None,
    })
}

fn num(n: u64) -> JsonValue {
    JsonValue::Number(JsonNumber::PosInt(n))
}

#[test]
fn filters_by_table_type_and_condition() {
    let f = EventFilter::new(FilterConfig {
        tables: TableFilter { whitelist: Some(vec!["users".to_string()]), blacklist: None },
        event_types: Some(vec!["create".to_string()]),
        conditions: Some(vec![Condition::GreaterThan { field: "age".to_string(), value: num(18) }]),
    });
    assert!(f.should_process(&cdc("users", "public", EventType::Create, vec![("age", num(30))])).unwrap());
    assert!(!f.should_process(&cdc("users", "public", EventType::Create, vec![("age", num(10))])).unwrap());
    assert!(!f.should_process(&cdc("users", "public", EventType::Delete, vec![("age", num(30))])).unwrap());
    assert!(!f.should_process(&cdc("orders", "public", EventType::Create, vec![("age", num(30))])).unwrap());
    assert!(f.should_process(&Event::Heartbeat).unwrap());
}

#[test]
fn soft_deleted_updates_become_deletes() {
    let h = SoftDeleteHandler::new(SoftDeleteConfig {
        field: "deleted".to_string(),
        delete_values: vec![JsonValue::Bool(true)],
        handle_on_full_sync: true,
        handle_on_cdc: true,
    });
    match h.transform_event(cdc("users", "public", EventType::Update, vec![("deleted", JsonValue::Bool(true))])) {
        Some(Event::Delete { table, old_data: JsonValue::Object(ms), .. }) => {
            assert_eq!(table, "users");
            assert_eq!(ms.len(), 1);
        }
        _ => panic!("expected a delete"),
    }
    let row = Event::FullSync {
        table: "users".to_string(),
        data: JsonValue::Object(vec![("deleted".to_string(), JsonValue::Bool(true))]),
    };
    assert!(h.transform_event(row).is_none());
    assert!(h.transform_event(cdc("users", "public", EventType::Update, vec![("deleted", JsonValue::Bool(false))])).is_some());
}

#[test]
fn change_events_go_to_registered_tables_unless_paused() {
    let mut c = CdcCoordinator::new();
    c.register_task("public.users".to_string());
    let ev = cdc("users", "public", EventType::Create, vec![]);
    assert_eq!(c.distribute_event(&ev), vec!["public.users".to_string()]);
    c.pause_table("users".to_string());
    assert!(c.distribute_event(&ev).is_empty());
    assert_eq!(c.get_paused_tables(), vec!["users".to_string()]);
    c.resume_table(&"users".to_string());
    assert_eq!(c.distribute_event(&ev).len(), 1);
    c.pause_all();
    assert!(c.is_paused());
    assert!(c.distribute_event(&ev).is_empty());
    c.resume_all();
    assert!(!c.is_paused());
}

#[test]
fn memory_is_tracked_against_limits() {
    let mut m = MemoryMonitor::new(1, 1);
    let a = m.track_event_memory(1024).unwrap();
    assert_eq!(m.get_stats().queue_memory_bytes, 1024);
    assert_eq!(m.get_stats().event_count, 1);
    let err = m.track_event_memory(2 * 1024 * 1024).unwrap_err();
    assert_eq!(err.message(), "Resource exhausted: Queue memory limit exceeded: 1 MB");
    m.release(a);
    assert_eq!(m.get_stats().queue_memory_bytes, 0);
    assert_eq!(m.get_stats().event_count, 0);
    assert!(m.track_checkpoint_memory(2 * 1024 * 1024).is_err());
}

#[test]
fn string_values_are_found_without_parsing() {
    let doc = br#"{"table": "users", "id": 1}"#;
    let (s, e) = find_json_string_value(doc, b"\"table\"").unwrap();
    assert_eq!(&doc[s..e], b"users");
    assert!(find_json_string_value(doc, b"\"missing\"").is_none());
    let mut router = ZeroCopyEventRouter::new();
    assert_eq!(router.route_event(doc).unwrap().table, "users");
    match router.route_event(b"[1]") {
        Err(e) => assert_eq!(e.message(), "Validation error: Invalid JSON object"),
        Ok(_) => panic!("expected an error"),
    }
    match router.route_event(b"{\"id\": 1}") {
        Err(e) => assert_eq!(e.message(), "Validation error: Missing table field"),
        Ok(_) => panic!("expected an error"),
    }
}

#[test]
fn circuit_breaker_lets_calls_through_until_failures_open_it() {
    let mut cb = MeilisearchCircuitBreaker::with_config("meili".to_string(), 2, 60);
    let (state, ok) = cb.check_call::<MeiliBridgeError>();
    assert_eq!(state, CircuitState::Closed);
    assert!(ok.is_ok());
    assert!(matches!(cb.record::<u8, &str>(Err("x")), Err(CircuitBreakerError::OperationError("x"))));
    assert!(matches!(cb.record::<u8, &str>(Ok(3)), Ok(3)));
    let built = CircuitBreakerBuilder::new("b".to_string()).consecutive_failures(3).timeout(10).build();
    assert_eq!(built.get_state(), CircuitState::Closed);
}

#[test]
fn failures_in_a_row_up_to_the_threshold_open_the_breaker() {
    let mut cb = MeilisearchCircuitBreaker::with_config("meili".to_string(), 2, 60);
    let _ = cb.record::<u8, &str>(Err("a"));
    assert_eq!(cb.get_state(), CircuitState::Closed);
    let _ = cb.record::<u8, &str>(Err("b"));
    assert_eq!(cb.get_state(), CircuitState::Open);
    let (state, gate) = cb.check_call::<MeiliBridgeError>();
    assert_eq!(state, CircuitState::Open);
    assert!(matches!(gate, Err(CircuitBreakerError::CircuitOpen)));
}

#[test]
fn index_tasks_step_through_their_stages() {
    let (stage, action) = start_task(TaskKind::GetOrCreateIndex);
    assert_eq!(stage, TaskStage::Looking);
    assert!(matches!(action, TaskAction::GetIndex));
    let (stage, action) = next_task_step(TaskKind::GetOrCreateIndex, stage, TaskReply::Failed("missing".to_string()));
    assert!(matches!(action, TaskAction::Submit));
    let (stage, action) = next_task_step(TaskKind::GetOrCreateIndex, stage, TaskReply::Task);
    assert!(matches!(action, TaskAction::WaitForTask));
    let (_, action) = next_task_step(
        TaskKind::GetOrCreateIndex,
        stage,
        TaskReply::TaskInfo { success: false, details: "boom".to_string() },
    );
    match action {
        TaskAction::Finish(Err(e)) => assert_eq!(e.message(), "Meilisearch error: Failed to create index: boom"),
        _ => panic!("expected a failure"),
    }
}

#[test]
fn white_space_is_exactly_what_std_calls_white_space() {
    for n in 0u32..=0x10FFFF {
        if let Some(c) = char::from_u32(n) {
            assert_eq!(meilibridge::text::is_white(c), c.is_whitespace(), "U+{:04X}", n);
        }
    }
}

#[test]
fn array_items_are_the_objects_of_the_first_array() {
    let text: Vec<char> = "x [{\"a\": 1}, {\"b\": {\"c\": 2}}] [{\"z\":0}]".chars().collect();
    let items: Vec<String> = meilibridge::pipeline::streaming_processor::array_items(&text).into_iter().map(|cs| cs.into_iter().collect()).collect();
    assert_eq!(items, vec!["{\"a\":1}".replace(":1", ": 1"), "{\"b\": {\"c\": 2}}".to_string()]);
    assert!(meilibridge::pipeline::streaming_processor::array_items(&"no array".chars().collect()).is_empty());
}

#[test]
fn value_size_estimates_follow_the_kinds_of_values() {
    assert_eq!(estimate_value_size(&JsonValue::Null), 8);
    assert_eq!(estimate_value_size(&JsonValue::Bool(true)), 8);
    assert_eq!(estimate_value_size(&num(3)), 16);
    assert_eq!(estimate_value_size(&JsonValue::String("abc".to_string())), 27);
    assert_eq!(estimate_value_size(&JsonValue::String("é".to_string())), 26);
    assert_eq!(estimate_value_size(&JsonValue::Array(vec![JsonValue::Null, JsonValue::Bool(false)])), 40);
    assert_eq!(estimate_value_size(&JsonValue::Object(vec![("a".to_string(), num(1))])), 65);
    assert_eq!(estimate_value_size(&JsonValue::Array(vec![])), 24);
}

#[test]
fn documents_over_the_queue_memory_are_refused() {
    let doc = JsonValue::Object(vec![("name".to_string(), JsonValue::String("x".to_string()))]);
    let plain = StreamingJsonProcessor::new(1024);
    assert!(plain.admit_document(&doc).is_ok());
    let roomy = StreamingJsonProcessor::new(1024).with_memory_monitor(MemoryMonitor::new(1, 1));
    assert!(roomy.admit_document(&doc).is_ok());
    assert_eq!(roomy.memory_monitor.unwrap().current_queue_memory, 0);
    assert_eq!(roomy.memory_monitor.unwrap().event_count, 0);
    let tight = StreamingJsonProcessor::new(1024).with_memory_monitor(MemoryMonitor::new(0, 0));
    match tight.admit_document(&doc) {
        Err(MeiliBridgeError::ResourceExhausted(m)) => assert_eq!(m, "Queue memory limit exceeded: 0 MB"),
        _ => panic!("expected the queue limit to refuse the document"),
    }
}
