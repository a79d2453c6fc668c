use meilibridge::dedup::{DeduplicationKey, EventDeduplicator};
use meilibridge::position::{compare_lsn, Position};
use std::cmp::Ordering;

fn pg(l: &str) -> Position {
    Position::postgresql(l.to_string())
}

#[test]
fn lsns_compare_by_their_two_hex_parts() {
    assert_eq!(compare_lsn("0/16B3748", "0/16B3749"), Ordering::Less);
    assert_eq!(compare_lsn("1/0", "0/FFFFFFFF"), Ordering::Greater);
    assert_eq!(compare_lsn("A/1", "A/1"), Ordering::Equal);
}

#[test]
fn is_after_is_a_strict_order() {
    let (a, b, c) = (pg("0/1"), pg("0/2"), pg("1/0"));
    assert!(!a.is_after(&a));
    assert!(b.is_after(&a) && !a.is_after(&b));
    assert!(c.is_after(&b) && b.is_after(&a) && c.is_after(&a));
}

#[test]
fn positions_of_other_sources_are_not_after() {
    let m1 = Position::mysql("bin.1".to_string(), 10);
    let m2 = Position::mysql("bin.1".to_string(), 20);
    assert!(m2.is_after(&m1));
    assert!(!pg("1/0").is_after(&m1));
    let t = Position::mongodb("tok".to_string());
    assert!(!t.is_after(&Position::mongodb("a".to_string())));
    assert!(!pg("zz").is_after(&pg("0/1")));
}

fn key(l: &str) -> DeduplicationKey {
    DeduplicationKey::new(l.to_string(), Some(7), "users".to_string())
}

#[test]
fn an_added_key_is_seen_and_a_repeat_is_a_duplicate() {
    let mut d = EventDeduplicator::new(10);
    assert!(!d.contains(&key("0/1")));
    d.add(key("0/1"));
    assert!(d.contains(&key("0/1")));
    d.add(key("0/1"));
    assert_eq!(d.stats().total_events, 2);
    assert_eq!(d.stats().duplicate_events, 1);
    assert_eq!(d.current_size(), 1);
}

#[test]
fn the_window_forgets_the_oldest_key() {
    let mut d = EventDeduplicator::new(2);
    d.add(key("0/1"));
    d.add(key("0/2"));
    d.add(key("0/3"));
    assert_eq!(d.current_size(), 2);
    assert!(!d.contains(&key("0/1")));
    assert!(d.contains(&key("0/3")));
    assert_eq!(d.stats().window_evictions, 1);
    d.clear();
    assert_eq!(d.current_size(), 0);
}

#[test]
fn primary_keys_distinguish_rows() {
    let a = key("0/1").with_primary_key("1".to_string());
    let b = key("0/1").with_primary_key("2".to_string());
    assert!(!a.same_as(&b));
    assert!(a.same_as(&a.copy()));
}

#[test]
fn positions_print_with_their_source() {
    assert_eq!(pg("0/16B3748").to_text(), "pg:0/16B3748");
    assert_eq!(Position::mysql("binlog.000042".to_string(), 1234).to_text(), "mysql:binlog.000042:1234");
    assert_eq!(Position::mongodb("tok".to_string()).to_text(), "mongo:tok");
    assert_eq!(Position::mysql("f".to_string(), 0).to_text(), "mysql:f:0");
}

#[test]
fn a_repeated_key_still_leaves_the_window_when_evicted() {
    let mut d = EventDeduplicator::new(1);
    let ka = DeduplicationKey::new("0/1".to_string(), None, "t".to_string());
    let kb = DeduplicationKey::new("0/2".to_string(), None, "t".to_string());
    d.add(ka.clone());
    d.add(ka.clone());
    d.add(kb.clone());
    assert!(!d.contains(&ka));
    assert!(d.contains(&kb));
    assert_eq!(d.current_size(), 1);
    assert_eq!(d.stats().duplicate_events, 1);
    assert_eq!(d.stats().window_evictions, 1);
}

#[test]
fn clearing_forgets_keys_but_keeps_the_counters() {
    let mut d = EventDeduplicator::new(4);
    d.add(key("0/1"));
    d.add(key("0/1"));
    d.clear();
    assert!(!d.contains(&key("0/1")));
    assert_eq!(d.stats().total_events, 2);
    assert_eq!(d.stats().duplicate_events, 1);
    d.add(key("0/1"));
    assert_eq!(d.stats().total_events, 3);
    assert_eq!(d.stats().duplicate_events, 1);
    assert_eq!(d.current_size(), 1);
}
