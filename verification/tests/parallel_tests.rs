use meilibridge::json::{JsonNumber, JsonValue};
use meilibridge::pipeline::parallel_processor::{ParallelConfig, ParallelTableProcessor, WorkStealingCoordinator};
use meilibridge::models::stream_event::Event;

fn row(n: u64) -> Event {
    Event::FullSync { table: "t".to_string(), data: JsonValue::Number(JsonNumber::PosInt(n)) }
}

fn rows(from: u64, count: u64) -> Vec<Event> {
    (from..from + count).map(row).collect()
}

fn id(e: &Event) -> u64 {
    match e {
        Event::FullSync { data: JsonValue::Number(JsonNumber::PosInt(n)), .. } => *n,
        _ => u64::MAX,
    }
}

#[test]
fn parallel_defaults() {
    let c = ParallelConfig::default();
    assert_eq!(c.workers_per_table, 4);
    assert_eq!(c.max_concurrent_events, 1000);
    assert!(c.work_stealing);
    assert_eq!(c.steal_interval_ms, 100);
}

#[test]
fn stealing_takes_at_most_half_from_the_end() {
    let mut p = ParallelTableProcessor::new("a".to_string(), ParallelConfig::default());
    p.enqueue_events(rows(0, 10));
    let stolen = p.steal_events(8);
    assert_eq!(stolen.iter().map(id).collect::<Vec<_>>(), vec![9, 8, 7, 6, 5]);
    assert_eq!(p.queue_size(), 5);
    assert!(p.steal_events(0).is_empty());
    let mut one = ParallelTableProcessor::new("b".to_string(), ParallelConfig::default());
    one.enqueue_events(rows(0, 1));
    assert!(one.steal_events(3).is_empty());
}

#[test]
fn workers_take_the_oldest_ten() {
    let mut p = ParallelTableProcessor::new("a".to_string(), ParallelConfig::default());
    p.enqueue_events(rows(0, 12));
    let batch = p.take_batch();
    assert_eq!(batch.iter().map(id).collect::<Vec<_>>(), (0..10).collect::<Vec<_>>());
    assert_eq!(p.take_batch().iter().map(id).collect::<Vec<_>>(), vec![10, 11]);
    assert!(p.take_batch().is_empty());
}

#[test]
fn balancing_moves_work_and_keeps_every_event() {
    let mut c = WorkStealingCoordinator::new(ParallelConfig::default());
    let mut a = ParallelTableProcessor::new("a".to_string(), ParallelConfig::default());
    a.enqueue_events(rows(0, 300));
    let mut b = ParallelTableProcessor::new("b".to_string(), ParallelConfig::default());
    b.enqueue_events(rows(1000, 10));
    c.register_processor(a);
    c.register_processor(b);
    assert_eq!(c.balance_work(), Some((1, 0)));
    assert_eq!(c.processors[0].queue_size(), 155);
    assert_eq!(c.processors[1].queue_size(), 155);
    assert_eq!(id(&c.processors[1].event_queue[10]), 299);
}

#[test]
fn small_differences_are_left_alone() {
    let mut c = WorkStealingCoordinator::new(ParallelConfig::default());
    let mut a = ParallelTableProcessor::new("a".to_string(), ParallelConfig::default());
    a.enqueue_events(rows(0, 110));
    c.register_processor(a);
    assert_eq!(c.balance_work(), None);
    c.register_processor(ParallelTableProcessor::new("b".to_string(), ParallelConfig::default()));
    assert_eq!(c.balance_work(), Some((1, 0)));
    assert_eq!(c.processors[0].queue_size() + c.processors[1].queue_size(), 110);
    let mut d = WorkStealingCoordinator::new(ParallelConfig::default());
    let mut x = ParallelTableProcessor::new("x".to_string(), ParallelConfig::default());
    x.enqueue_events(rows(0, 100));
    d.register_processor(x);
    d.register_processor(ParallelTableProcessor::new("y".to_string(), ParallelConfig::default()));
    assert_eq!(d.balance_work(), None);
}
