use meilibridge::checkpoint::{CheckpointCommand, ManagerAction, ManagerEvent, PendingCheckpoints};
use meilibridge::health::{parse_redis_version, system_health, HealthCheckResult, HealthStatus};
use meilibridge::json::JsonValue;
use meilibridge::models::progress::Checkpoint;
use meilibridge::position::Position;

#[test]
fn overall_status_is_the_worst() {
    let comps = vec![
        ("a".to_string(), HealthCheckResult::healthy()),
        ("b".to_string(), HealthCheckResult::degraded("slow".to_string())),
    ];
    assert_eq!(system_health(comps, "1.0".to_string(), 5).status, HealthStatus::Degraded);
    let comps = vec![
        ("a".to_string(), HealthCheckResult::unhealthy("down".to_string())),
        ("b".to_string(), HealthCheckResult::degraded("slow".to_string())),
    ];
    assert_eq!(system_health(comps, "1.0".to_string(), 5).status, HealthStatus::Unhealthy);
    assert_eq!(system_health(vec![], "1.0".to_string(), 0).status, HealthStatus::Healthy);
}

#[test]
fn results_carry_messages_and_details() {
    let r = HealthCheckResult::unhealthy("down".to_string()).with_detail("code", JsonValue::Bool(false));
    assert_eq!(r.status, HealthStatus::Unhealthy);
    assert_eq!(r.message, Some("down".to_string()));
}

#[test]
fn redis_version_is_read_from_info() {
    assert_eq!(parse_redis_version("# Server\r\nredis_version:7.0.11\r\nos:Linux\r\n"), Some("7.0.11".to_string()));
    assert_eq!(parse_redis_version("os:Linux"), None);
}

fn save(task: &str, lsn: &str) -> ManagerEvent {
    ManagerEvent::Command(CheckpointCommand::Save {
        task_id: task.to_string(),
        position: Position::PostgreSQL { lsn: lsn.to_string() },
    })
}

fn load(task: &str) -> ManagerEvent {
    ManagerEvent::Command(CheckpointCommand::Load { task_id: task.to_string() })
}

#[test]
fn a_load_after_a_save_answers_without_storage() {
    let mut p = PendingCheckpoints::new(10);
    assert!(matches!(p.handle(save("users", "0/5")), ManagerAction::Nothing));
    match p.handle(load("users")) {
        ManagerAction::Reply(Some(c)) => {
            assert_eq!(c.task_id, "users");
            assert!(matches!(c.position, Position::PostgreSQL { lsn } if lsn == "0/5"));
        }
        other => panic!("unexpected {:?}", other),
    }
    assert!(matches!(p.handle(load("orders")), ManagerAction::LoadFromStorage(t) if t == "orders"));
}

#[test]
fn a_load_after_a_delete_goes_to_storage() {
    let mut p = PendingCheckpoints::new(10);
    p.handle(save("users", "0/5"));
    assert!(matches!(
        p.handle(ManagerEvent::Command(CheckpointCommand::Delete { task_id: "users".to_string() })),
        ManagerAction::DeleteFromStorage(t) if t == "users"
    ));
    assert!(matches!(p.handle(load("users")), ManagerAction::LoadFromStorage(_)));
}

#[test]
fn a_full_batch_asks_for_a_flush_and_failed_writes_stay() {
    let mut p = PendingCheckpoints::new(2);
    p.handle(save("a", "0/1"));
    assert!(matches!(p.handle(save("b", "0/2")), ManagerAction::Flush));
    assert_eq!(p.snapshot().len(), 2);
    p.retain_tasks(&vec!["b".to_string()]);
    assert_eq!(p.len(), 1);
    assert!(p.get(&"b".to_string()).is_some());
    p.retain_tasks(&vec![]);
    assert_eq!(p.len(), 0);
    assert!(matches!(p.handle(ManagerEvent::ShutdownChanged(true)), ManagerAction::FlushAndStop));
    assert!(matches!(p.handle(ManagerEvent::Tick), ManagerAction::Flush));
}

#[test]
fn a_later_save_replaces_the_waiting_checkpoint() {
    let mut p = PendingCheckpoints::new(10);
    p.insert(Checkpoint::new("a".to_string(), Position::PostgreSQL { lsn: "0/1".to_string() }));
    p.insert(Checkpoint::new("a".to_string(), Position::PostgreSQL { lsn: "0/9".to_string() }));
    assert_eq!(p.len(), 1);
    assert!(matches!(p.get(&"a".to_string()).unwrap().position, Position::PostgreSQL { lsn } if lsn == "0/9"));
}
