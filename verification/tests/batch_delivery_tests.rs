use meilibridge::destination::adapter::SyncResult;
use meilibridge::error::MeiliBridgeError;
use meilibridge::json::JsonValue;
use meilibridge::models::stream_event::Event;
use meilibridge::pipeline::batch_delivery::{
    at_least_once_committed, at_least_once_prepare, at_least_once_prepared, at_least_once_settle, settle_batch,
    AtLeastOnceStart, DeliveryOutcome, SettleStep, StreamAction, StreamBatcher, StreamInput,
};
use meilibridge::delivery::checkpoint::TransactionalCheckpoint;
use meilibridge::delivery::{ExactlyOnceConfig, ExactlyOnceManager};
use meilibridge::position::Position;

fn row(id: u64) -> Event {
    Event::Insert {
        table: "users".to_string(),
        new_data: JsonValue::Object(vec![("id".to_string(), JsonValue::Number(meilibridge::json::JsonNumber::PosInt(id)))]),
        position: Some(Position::postgresql(format!("0/{}", id))),
    }
}

#[test]
fn a_full_batch_is_sent_and_the_timer_sends_the_rest() {
    let mut b = StreamBatcher::new(2);
    assert_eq!(b.step(StreamInput::Tick), StreamAction::Wait);
    assert_eq!(b.step(StreamInput::Kept(row(1))), StreamAction::Wait);
    assert_eq!(b.step(StreamInput::Dropped), StreamAction::Wait);
    assert_eq!(b.step(StreamInput::Kept(row(2))), StreamAction::ProcessBatch);
    assert_eq!(b.batch.len(), 2);
    b.batch.clear();
    assert_eq!(b.step(StreamInput::Kept(row(3))), StreamAction::Wait);
    assert_eq!(b.step(StreamInput::Tick), StreamAction::ProcessBatch);
    assert_eq!(b.step(StreamInput::Shutdown(false)), StreamAction::Wait);
    assert_eq!(b.step(StreamInput::Shutdown(true)), StreamAction::ProcessBatchThenStop);
    b.batch.clear();
    assert_eq!(b.step(StreamInput::Shutdown(true)), StreamAction::Stop);
}

#[test]
fn failures_become_dead_letters_in_batch_order() {
    let events = vec![row(1), row(2), row(3)];
    let mut res = SyncResult::new();
    res.success_count = 1;
    res.failed_count = 2;
    res.errors = vec!["bad one".to_string(), "bad two".to_string()];
    res.last_position = Some(Position::postgresql("0/3".to_string()));
    let s = settle_batch(&events, &DeliveryOutcome::Responded(res));
    assert_eq!(s.dead_letters.len(), 2);
    assert_eq!(s.dead_letters[0].0.source.table, "users");
    match &s.dead_letters[1].1 {
        MeiliBridgeError::Pipeline(m) => assert_eq!(m, "bad two"),
        other => panic!("unexpected {:?}", other),
    }
    assert!(matches!(s.position, Some(Position::PostgreSQL { ref lsn }) if lsn == "0/3"));
}

#[test]
fn a_clean_answer_or_no_answer_leaves_no_dead_letters() {
    let events = vec![row(1)];
    let mut res = SyncResult::new();
    res.success_count = 1;
    let s = settle_batch(&events, &DeliveryOutcome::Responded(res));
    assert!(s.dead_letters.is_empty());
    let s = settle_batch(&events, &DeliveryOutcome::NoResponse);
    assert!(s.dead_letters.is_empty() && s.position.is_none());
    let s = settle_batch(&events, &DeliveryOutcome::SendFailed("closed".to_string()));
    assert!(s.dead_letters.is_empty());
}

fn ids(n: u64) -> Vec<Option<String>> {
    (1..=n).map(|i| Some(i.to_string())).collect()
}

#[test]
fn an_at_least_once_batch_is_prepared_sent_and_committed_once() {
    let mut mgr = ExactlyOnceManager::new(ExactlyOnceConfig::default());
    let mut tc = TransactionalCheckpoint::new();
    let task = "users_sync".to_string();
    let batch = vec![row(1), row(2)];
    let (id, events, checkpoint) = match at_least_once_prepare(&mut mgr, &mut tc, &task, &batch, &ids(2)) {
        Ok(AtLeastOnceStart::Save { transaction_id, position, events, checkpoint }) => {
            assert!(matches!(position, Position::PostgreSQL { ref lsn } if lsn == "0/2"));
            (transaction_id, events, checkpoint)
        }
        _ => panic!("expected a checkpoint to save"),
    };
    assert_eq!(events.len(), 2);
    assert_eq!(checkpoint.task_id, task);
    assert!(at_least_once_prepared(&mut mgr, &mut tc, &id, Position::postgresql("0/2".to_string()), true).is_ok());
    let mut res = SyncResult::new();
    res.success_count = 2;
    let step = at_least_once_settle(&mut mgr, &mut tc, &id, &events, DeliveryOutcome::Responded(res)).unwrap();
    let stored = match step {
        SettleStep::MarkCommitted(t) => {
            assert_eq!(t, task);
            TransactionalCheckpoint::committed_checkpoint(&id, &t, Some(checkpoint), "now".to_string()).unwrap()
        }
        _ => panic!("expected the checkpoint to be marked committed"),
    };
    assert!(TransactionalCheckpoint::get_latest_committed(Some(stored)).is_some());
    assert!(at_least_once_committed(&mut mgr, &mut tc, &id).is_ok());

    // The same events again are all duplicates: nothing is sent.
    let again = at_least_once_prepare(&mut mgr, &mut tc, &task, &vec![row(1), row(2)], &ids(2)).unwrap();
    assert!(matches!(again, AtLeastOnceStart::AllDuplicates { .. }));
}

#[test]
fn a_failed_at_least_once_batch_rolls_back_with_dead_letters() {
    let mut mgr = ExactlyOnceManager::new(ExactlyOnceConfig::default());
    let mut tc = TransactionalCheckpoint::new();
    let task = "users_sync".to_string();
    let (id, events) = match at_least_once_prepare(&mut mgr, &mut tc, &task, &vec![row(7)], &vec![Some("7".to_string())]) {
        Ok(AtLeastOnceStart::Save { transaction_id, events, .. }) => (transaction_id, events),
        _ => panic!("expected a checkpoint to save"),
    };
    assert!(at_least_once_prepared(&mut mgr, &mut tc, &id, Position::postgresql("0/7".to_string()), true).is_ok());
    let mut res = SyncResult::new();
    res.failed_count = 1;
    res.errors = vec!["rejected".to_string()];
    match at_least_once_settle(&mut mgr, &mut tc, &id, &events, DeliveryOutcome::Responded(res)).unwrap() {
        SettleStep::RolledBack { delete, dead_letters, error } => {
            assert_eq!(delete, Some(task.clone()));
            assert_eq!(dead_letters.len(), 1);
            assert!(matches!(error, MeiliBridgeError::Pipeline(ref m) if m == "Batch processing failed with 1 errors"));
        }
        _ => panic!("expected a rollback"),
    }
}

#[test]
fn an_unsaved_prepared_checkpoint_fails_the_batch() {
    let mut mgr = ExactlyOnceManager::new(ExactlyOnceConfig::default());
    let mut tc = TransactionalCheckpoint::new();
    let task = "t".to_string();
    let id = match at_least_once_prepare(&mut mgr, &mut tc, &task, &vec![row(3)], &ids(1)) {
        Ok(AtLeastOnceStart::Save { transaction_id, .. }) => transaction_id,
        _ => panic!("expected a checkpoint to save"),
    };
    let r = at_least_once_prepared(&mut mgr, &mut tc, &id, Position::postgresql("0/3".to_string()), false);
    assert!(matches!(r, Err(MeiliBridgeError::Pipeline(ref m)) if m == "Transaction prepare failed"));
}

#[test]
fn a_batch_whose_last_event_has_no_position_sends_nothing() {
    let mut mgr = ExactlyOnceManager::new(ExactlyOnceConfig::default());
    let mut tc = TransactionalCheckpoint::new();
    let r = at_least_once_prepare(&mut mgr, &mut tc, &"t".to_string(), &vec![Event::Heartbeat], &vec![None]).unwrap();
    assert!(matches!(r, AtLeastOnceStart::NoPosition));
}

#[test]
fn a_default_sync_result_is_a_new_one() {
    let r = SyncResult::default();
    assert_eq!((r.success_count, r.failed_count), (0, 0));
    assert!(r.last_position.is_none() && r.errors.is_empty() && r.is_successful());
}
