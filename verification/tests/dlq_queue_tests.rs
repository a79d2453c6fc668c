use meilibridge::dlq::memory::InMemoryDlqStorage;
use meilibridge::dlq::queue::{reprocess_send_error, DeadLetterQueue};
use meilibridge::error::MeiliBridgeError;
use meilibridge::json::JsonValue;
use meilibridge::models::event::{Event, EventData, EventId, EventMetadata, EventSource, EventType};

fn event() -> Event {
    Event {
        id: EventId::new(),
        event_type: EventType::Create,
        source: EventSource { database: String::new(), schema: "public".to_string(), table: "users".to_string() },
        data: EventData { key: JsonValue::Null, old: None, new: None },
        metadata: EventMetadata { transaction_id: None, position: String::new(), custom: Vec::new() },
        timestamp: 0,
    }
}

#[test]
fn failed_events_are_stored_with_their_error() {
    let mut q = DeadLetterQueue::new(InMemoryDlqStorage::new());
    q.add_failed_event("task".to_string(), event(), &MeiliBridgeError::Pipeline("bad".to_string()), 0);
    let stats = q.get_statistics();
    assert_eq!(stats.total_entries, 1);
    let entries = q.storage.get_by_task(&"task".to_string(), None);
    assert_eq!(entries.len(), 1);
    assert_eq!(entries[0].error, "Pipeline error: bad");
    assert_eq!(entries[0].retry_count, 0);
    assert!(entries[0].last_retry_at.is_none());
}

#[test]
fn reprocessing_needs_a_channel() {
    let mut q = DeadLetterQueue::new(InMemoryDlqStorage::new());
    assert!(q.start_reprocess(&"task".to_string(), None).unwrap().is_empty());
    q.add_failed_event("task".to_string(), event(), &MeiliBridgeError::ChannelSend, 1);
    let err = q.start_reprocess(&"task".to_string(), None).unwrap_err();
    assert_eq!(err.message(), "Configuration error: Reprocess channel not configured");
}

#[test]
fn reprocessing_counts_a_retry_and_drops_sent_entries() {
    let mut q = DeadLetterQueue::new(InMemoryDlqStorage::new());
    q.set_reprocess_channel();
    for _ in 0..3 {
        q.add_failed_event("task".to_string(), event(), &MeiliBridgeError::ChannelSend, 0);
    }
    q.add_failed_event("other".to_string(), event(), &MeiliBridgeError::ChannelSend, 0);
    let ids = q.start_reprocess(&"task".to_string(), Some(2)).unwrap();
    assert_eq!(ids.len(), 2);
    for id in &ids {
        let e = q.storage.get(id).unwrap();
        assert_eq!(e.retry_count, 1);
        assert!(e.last_retry_at.is_some());
        q.finish_reprocessed(id);
    }
    assert_eq!(q.get_statistics().total_entries, 2);
    assert_eq!(q.clear_task(&"task".to_string()), 1);
    assert_eq!(q.get_statistics().total_entries, 1);
}

#[test]
fn send_failures_are_pipeline_errors() {
    assert_eq!(reprocess_send_error("closed").message(), "Pipeline error: Failed to reprocess entry: closed");
}

#[test]
fn event_ids_are_hyphenated_version_four_uuids() {
    let id = EventId::new().0;
    let cs: Vec<char> = id.chars().collect();
    assert_eq!(cs.len(), 36);
    for (i, c) in cs.iter().enumerate() {
        if [8, 13, 18, 23].contains(&i) {
            assert_eq!(*c, '-');
        } else {
            assert!(c.is_ascii_digit() || ('a'..='f').contains(c));
        }
    }
    assert_eq!(cs[14], '4');
    assert!(['8', '9', 'a', 'b'].contains(&cs[19]));
}

#[test]
fn redis_dead_letter_keys_sit_under_the_prefix() {
    let s = meilibridge::dlq::redis_storage::RedisDlqStorage::new("redis://127.0.0.1:6379/", "mb".to_string()).ok().unwrap();
    assert_eq!(s.entry_key("e1"), "mb:dlq:entry:e1");
    assert_eq!(s.task_index_key("t1"), "mb:dlq:task:t1");
    assert_eq!(s.all_entries_key(), "mb:dlq:all");
}

#[test]
fn a_bad_redis_url_is_a_configuration_error() {
    match meilibridge::dlq::redis_storage::RedisDlqStorage::new("not a url", "mb".to_string()) {
        Err(meilibridge::error::MeiliBridgeError::Configuration(m)) => {
            assert!(m.starts_with("Failed to create Redis client: "));
            assert!(m.len() > "Failed to create Redis client: ".len());
        }
        _ => panic!("expected a configuration error"),
    }
}

#[test]
fn the_last_rank_read_follows_the_limit() {
    let rank = meilibridge::dlq::redis_storage::RedisDlqStorage::last_rank;
    assert_eq!(rank(None), 999);
    assert_eq!(rank(Some(1)), 0);
    assert_eq!(rank(Some(10)), 9);
    assert_eq!(rank(Some(usize::MAX)), -2);
}

fn entry(task: &str, error: MeiliBridgeError, created_at: i64) -> meilibridge::dlq::memory::DeadLetterEntry {
    let mut e = meilibridge::dlq::memory::DeadLetterEntry::new(task.to_string(), event(), &error, 0);
    e.created_at = created_at;
    e
}

#[test]
fn statistics_count_fetched_entries_against_the_listed_total() {
    let list = vec![
        ("a".to_string(), entry("t1", MeiliBridgeError::Pipeline("bad\nmore".to_string()), 300)),
        ("b".to_string(), entry("t1", MeiliBridgeError::Pipeline("bad".to_string()), 100)),
        ("c".to_string(), entry("t2", MeiliBridgeError::ChannelSend, 200)),
    ];
    let stats = meilibridge::dlq::memory::statistics_of(4, &list);
    assert_eq!(stats.total_entries, 4);
    assert_eq!(stats.entries_by_task.get(&"t1".to_string()), Some(&2));
    assert_eq!(stats.entries_by_task.get(&"t2".to_string()), Some(&1));
    assert_eq!(stats.entries_by_error.get(&"Pipeline error: bad".to_string()), Some(&2));
    assert_eq!(stats.entries_by_error.get(&"Channel send error".to_string()), Some(&1));
    assert_eq!(stats.oldest_entry, Some(100));
    assert_eq!(stats.newest_entry, Some(300));
    let empty = meilibridge::dlq::memory::statistics_of(0, &Vec::new());
    assert_eq!(empty.oldest_entry, None);
    assert_eq!(empty.newest_entry, None);
}
