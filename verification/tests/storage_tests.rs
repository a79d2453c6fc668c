use meilibridge::checkpoint::storage::{storage_error, MemoryStorage, RedisStorage, CHECKPOINT_TTL_SECS};
use meilibridge::config::redis::RedisConfig;
use meilibridge::models::progress::Checkpoint;
use meilibridge::position::Position;

fn checkpoint(task: &str, lsn: &str) -> Checkpoint {
    Checkpoint::new(task.to_string(), Position::PostgreSQL { lsn: lsn.to_string() })
}

fn lsn_of(c: &Checkpoint) -> String {
    match &c.position {
        Position::PostgreSQL { lsn } => lsn.clone(),
        _ => String::new(),
    }
}

#[test]
fn a_read_after_a_write_gives_the_written_checkpoint() {
    let mut s = MemoryStorage::new();
    s.save(&checkpoint("users", "0/1")).unwrap();
    s.save(&checkpoint("orders", "0/7")).unwrap();
    s.save(&checkpoint("users", "0/2")).unwrap();
    let loaded = s.load(&"users".to_string()).unwrap().unwrap();
    assert_eq!(loaded.task_id, "users");
    assert_eq!(lsn_of(&loaded), "0/2");
    assert_eq!(lsn_of(&s.load(&"orders".to_string()).unwrap().unwrap()), "0/7");
    assert!(s.load(&"items".to_string()).unwrap().is_none());
}

#[test]
fn a_read_after_a_delete_finds_nothing() {
    let mut s = MemoryStorage::new();
    s.save(&checkpoint("users", "0/1")).unwrap();
    s.save(&checkpoint("orders", "0/3")).unwrap();
    s.delete(&"users".to_string()).unwrap();
    assert!(s.load(&"users".to_string()).unwrap().is_none());
    assert!(s.load(&"orders".to_string()).unwrap().is_some());
    let mut tasks: Vec<String> = s.list().unwrap().into_iter().map(|c| c.task_id).collect();
    tasks.sort();
    assert_eq!(tasks, vec!["orders".to_string()]);
    assert!(s.is_healthy());
}

fn redis_config(url: &str) -> RedisConfig {
    RedisConfig {
        url: url.to_string(),
        password: None,
        database: 0,
        key_prefix: "meilibridge".to_string(),
        pool: Default::default(),
        checkpoint_retention: Default::default(),
    }
}

#[test]
fn redis_keys_are_prefixed() {
    let s = RedisStorage::new(redis_config("redis://localhost:6379"));
    assert_eq!(s.key_prefix, "meilibridge:checkpoint:");
    assert_eq!(s.make_key("users"), "meilibridge:checkpoint:users");
    assert_eq!(s.key_pattern(), "meilibridge:checkpoint:*");
    assert_eq!(CHECKPOINT_TTL_SECS, 7 * 24 * 3600);
}

#[test]
fn redis_store_errors() {
    let s = RedisStorage::new(redis_config("redis://localhost:6379"));
    assert_eq!(s.client().unwrap_err().message(), "Configuration error: Redis client not initialized");
    assert!(s.open_client().is_ok());
    let bad = RedisStorage::new(redis_config("not a url"));
    assert!(bad.open_client().unwrap_err().message().starts_with("Configuration error: Failed to create Redis client: "));
    assert_eq!(storage_error("save checkpoint", "io").message(), "Configuration error: Failed to save checkpoint: io");
}
