use meilibridge::dedup::DeduplicationKey;
use meilibridge::delivery::transaction::{checkpoint_task_id, CheckpointPrepare, TransactionCoordinator, TransactionState};
use meilibridge::delivery::{ExactlyOnceConfig, ExactlyOnceManager};
use meilibridge::position::Position;

fn pos(l: &str) -> Position {
    Position::PostgreSQL { lsn: l.to_string() }
}

#[test]
fn task_of_a_transaction_id_is_its_first_part() {
    assert_eq!(checkpoint_task_id("orders-1234-abcd"), "orders");
    assert_eq!(checkpoint_task_id("plain"), "plain");
    assert_eq!(checkpoint_task_id("-x"), "");
}

#[test]
fn coordinated_transaction_prepares_then_commits() {
    let mut c = TransactionCoordinator::new(30);
    let task = "users".to_string();
    let id = c.begin(&task).unwrap();
    assert!(id.starts_with("users-"));
    assert_eq!(id.len(), "users-".len() + 36);
    assert_eq!(c.two_phase_commit.state_of(&id), Some(TransactionState::Started));
    assert_eq!(c.finish_prepare(&id, pos("0/10"), CheckpointPrepare::Prepared).unwrap(), true);
    assert_eq!(c.two_phase_commit.state_of(&id), Some(TransactionState::Prepared));
    c.finish_commit(&id).unwrap();
    assert_eq!(c.two_phase_commit.state_of(&id), Some(TransactionState::Committed));
}

#[test]
fn commit_without_prepare_fails() {
    let mut c = TransactionCoordinator::new(30);
    let id = c.begin(&"users".to_string()).unwrap();
    let err = c.finish_commit(&id).unwrap_err();
    assert_eq!(err.message(), format!("Pipeline error: Transaction {} not prepared: Started", id));
    assert_eq!(c.two_phase_commit.state_of(&id), Some(TransactionState::Started));
}

#[test]
fn a_checkpoint_that_did_not_prepare_answers_false() {
    let mut c = TransactionCoordinator::new(30);
    let id = c.begin(&"users".to_string()).unwrap();
    assert_eq!(c.finish_prepare(&id, pos("0/1"), CheckpointPrepare::NotPrepared).unwrap(), false);
    assert_eq!(c.two_phase_commit.state_of(&id), Some(TransactionState::Started));
    let missing = c.finish_prepare(&"nope".to_string(), pos("0/1"), CheckpointPrepare::NoHandler).unwrap_err();
    assert_eq!(missing.message(), "Pipeline error: Transaction nope not found");
}

#[test]
fn rollback_drops_the_transaction() {
    let mut c = TransactionCoordinator::new(30);
    let id = c.begin(&"users".to_string()).unwrap();
    c.finish_rollback(&id).unwrap();
    assert_eq!(c.two_phase_commit.state_of(&id), None);
}

#[test]
fn exactly_once_defaults() {
    let c = ExactlyOnceConfig::default();
    assert!(c.enabled && c.two_phase_commit && c.checkpoint_before_write);
    assert_eq!(c.deduplication_window, 10000);
    assert_eq!(c.transaction_timeout_secs, 30);
}

#[test]
fn duplicates_are_seen_only_when_enabled() {
    let key = || DeduplicationKey::new("0/1".to_string(), None, "users".to_string());
    let mut on = ExactlyOnceManager::new(ExactlyOnceConfig::default());
    assert!(!on.is_duplicate(&key()));
    on.mark_processed(key());
    assert!(on.is_duplicate(&key()));

    let mut config = ExactlyOnceConfig::default();
    config.enabled = false;
    let mut off = ExactlyOnceManager::new(config);
    off.mark_processed(key());
    assert!(!off.is_duplicate(&key()));
}

#[test]
fn without_two_phase_commit_transactions_are_no_ops() {
    let mut config = ExactlyOnceConfig::default();
    config.two_phase_commit = false;
    let mut m = ExactlyOnceManager::new(config);
    let id = m.begin_transaction(&"users".to_string()).unwrap();
    assert_eq!(id, "");
    assert_eq!(m.prepare(&id, pos("0/1"), CheckpointPrepare::NotPrepared).unwrap(), true);
    m.commit(&id).unwrap();
    m.rollback(&id).unwrap();
}

#[test]
fn with_two_phase_commit_the_manager_coordinates() {
    let mut m = ExactlyOnceManager::new(ExactlyOnceConfig::default());
    let id = m.begin_transaction(&"users".to_string()).unwrap();
    assert_eq!(m.prepare(&id, pos("0/5"), CheckpointPrepare::NoHandler).unwrap(), true);
    m.commit(&id).unwrap();
    assert_eq!(m.transaction_coordinator.two_phase_commit.state_of(&id), Some(TransactionState::Committed));
}
