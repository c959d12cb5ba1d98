use egui_tracing::{Event, EventStore, Fields, Level};
use std::time::{Duration, SystemTime};

fn numbered(n: u64) -> Event {
    let mut fields = Fields::new();
    fields.insert(String::from("message"), format!("event {}", n));
    Event {
        timestamp: SystemTime::UNIX_EPOCH + Duration::from_secs(n),
        level: Level::Info,
        target: format!("t{}", n),
        fields,
    }
}

fn targets(events: &[Event]) -> Vec<String> {
    events.iter().map(|event| event.target.clone()).collect()
}

#[test]
fn new_store_is_empty() {
    let store = EventStore::new(3);
    assert_eq!(store.len(), 0);
    assert!(store.is_empty());
    assert!(!store.is_full());
    assert_eq!(store.max_events(), 3);
    assert!(store.snapshot().is_empty());
}

#[test]
fn append_below_capacity_keeps_everything_in_order() {
    let mut store = EventStore::new(5);
    for n in 1..=3 {
        store.append(numbered(n));
    }
    assert_eq!(store.len(), 3);
    assert_eq!(targets(&store.snapshot()), vec!["t1", "t2", "t3"]);
    assert_eq!(store.snapshot()[1], numbered(2));
}

#[test]
fn append_at_capacity_evicts_exactly_the_oldest() {
    let mut store = EventStore::new(3);
    for n in 1..=3 {
        store.append(numbered(n));
    }
    assert!(store.is_full());
    store.append(numbered(4));
    assert_eq!(store.len(), 3);
    assert_eq!(targets(&store.snapshot()), vec!["t2", "t3", "t4"]);
    store.append(numbered(5));
    assert_eq!(targets(&store.snapshot()), vec!["t3", "t4", "t5"]);
}

#[test]
fn more_appends_than_capacity_leave_the_most_recent() {
    for capacity in [1usize, 2, 3, 7] {
        let total = 20u64;
        let mut store = EventStore::new(capacity);
        for n in 1..=total {
            store.append(numbered(n));
            assert!(store.len() <= capacity);
        }
        assert_eq!(store.len(), capacity);
        let expected: Vec<String> =
            ((total - capacity as u64 + 1)..=total).map(|n| format!("t{}", n)).collect();
        assert_eq!(targets(&store.snapshot()), expected);
    }
}

#[test]
fn a_store_without_capacity_keeps_nothing() {
    let mut store = EventStore::new(0);
    store.append(numbered(1));
    store.append(numbered(2));
    assert_eq!(store.len(), 0);
    assert!(store.is_full());
    assert!(store.snapshot().is_empty());
}

#[test]
fn snapshot_is_not_reached_by_later_appends() {
    let mut store = EventStore::new(2);
    store.append(numbered(1));
    let before = store.snapshot();
    store.append(numbered(2));
    store.append(numbered(3));
    assert_eq!(targets(&before), vec!["t1"]);
    assert_eq!(targets(&store.snapshot()), vec!["t2", "t3"]);
}

#[test]
fn reset_drops_the_events_and_keeps_the_capacity() {
    let mut store = EventStore::new(2);
    store.append(numbered(1));
    store.append(numbered(2));
    store.reset();
    assert!(store.is_empty());
    assert_eq!(store.max_events(), 2);
    store.append(numbered(3));
    assert_eq!(targets(&store.snapshot()), vec!["t3"]);
}

#[test]
fn cloned_store_holds_the_same_events() {
    let mut store = EventStore::new(2);
    store.append(numbered(1));
    store.append(numbered(2));
    let mut copy = store.clone();
    assert_eq!(copy.snapshot(), store.snapshot());
    assert_eq!(copy.max_events(), 2);
    copy.append(numbered(3));
    assert_eq!(targets(&store.snapshot()), vec!["t1", "t2"]);
    assert_eq!(targets(&copy.snapshot()), vec!["t2", "t3"]);
}
