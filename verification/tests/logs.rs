use egui_tracing::{Event, EventCollector, Fields, Level, Logs, LogsState, Row};
use std::time::{Duration, SystemTime};

fn filled() -> EventCollector {
    let collector = EventCollector::new(3);
    let arrivals = [
        ("a::x", Level::Info),
        ("b::y", Level::Error),
        ("a::z", Level::Debug),
        ("c::w", Level::Warn),
    ];
    for (n, (target, level)) in arrivals.iter().enumerate() {
        collector.record_at(
            SystemTime::UNIX_EPOCH + Duration::from_secs(n as u64),
            *level,
            String::from(*target),
            Fields::new(),
        );
    }
    collector
}

fn targets(events: &[&Event]) -> Vec<String> {
    events.iter().map(|event| event.target.clone()).collect()
}

#[test]
fn default_state_shows_everything() {
    let mut state = LogsState::default();
    for level in [Level::Trace, Level::Debug, Level::Info, Level::Warn, Level::Error] {
        assert!(state.level_filter.get(level));
    }
    assert!(state.target_filter.patterns().is_empty());
    assert!(!state.target_filter.is_excluded("anything"));
    let fresh = LogsState::new();
    assert_eq!(fresh.level_filter, state.level_filter);
}

#[test]
fn cloned_state_keeps_the_selections() {
    let mut state = LogsState::new();
    state.level_filter.set(Level::Debug, false);
    state.target_filter.add_pattern(String::from("a::*"));
    let mut copy = state.clone();
    assert!(!copy.level_filter.get(Level::Debug));
    assert_eq!(copy.target_filter.patterns(), state.target_filter.patterns());
    assert!(copy.target_filter.is_excluded("a::x"));
}

#[test]
fn a_new_viewer_shows_the_whole_snapshot() {
    let mut logs = Logs::new(filled());
    let snapshot = logs.snapshot();
    assert_eq!(snapshot.len(), 3);
    let rows = logs.rows(&snapshot);
    assert_eq!(targets(&rows), vec!["c::w", "a::z", "b::y"]);
}

#[test]
fn the_viewer_applies_its_selections() {
    let mut logs = Logs::new(filled());
    logs.logs_state.level_filter.set(Level::Debug, false);
    logs.logs_state.target_filter.add_pattern(String::from("a::*"));
    let snapshot = logs.snapshot();
    let rows = logs.rows(&snapshot);
    assert_eq!(targets(&rows), vec!["c::w", "b::y"]);
    logs.logs_state.target_filter.add_pattern(String::from("c::*"));
    let rows = logs.rows(&snapshot);
    assert_eq!(targets(&rows), vec!["b::y"]);
}

#[test]
fn the_viewer_sees_what_producers_record_later() {
    let producer = EventCollector::new(3);
    let mut logs = Logs::new(producer.clone());
    assert!(logs.snapshot().is_empty());
    producer.record(Level::Info, String::from("late"), Fields::new());
    let snapshot = logs.snapshot();
    assert_eq!(targets(&logs.rows(&snapshot)), vec!["late"]);
}

#[test]
fn a_row_past_the_end_is_a_placeholder() {
    let mut logs = Logs::new(filled());
    let snapshot = logs.snapshot();
    let rows = logs.rows(&snapshot);
    assert!(matches!(Logs::row(&rows, 0), Row::Entry(event) if event.target == "c::w"));
    assert!(matches!(Logs::row(&rows, 2), Row::Entry(event) if event.target == "b::y"));
    assert!(matches!(Logs::row(&rows, 3), Row::OutOfBounds));
    assert!(matches!(Logs::row(&rows, usize::MAX), Row::OutOfBounds));
    assert!(matches!(Logs::row(&Vec::new(), 0), Row::OutOfBounds));
    assert_eq!(egui_tracing::logs::OUT_OF_BOUNDS, "Out of bounds index");
}

#[test]
fn cloned_viewer_reads_the_same_store() {
    let mut logs = Logs::new(filled());
    logs.logs_state.level_filter.set(Level::Warn, false);
    let mut copy = logs.clone();
    copy.collector.record(Level::Info, String::from("new"), Fields::new());
    let snapshot = logs.snapshot();
    assert_eq!(targets(&logs.rows(&snapshot)), vec!["new", "a::z"]);
    assert_eq!(targets(&copy.rows(&snapshot)), vec!["new", "a::z"]);
}

#[test]
fn a_new_viewer_has_nothing_typed_and_no_matcher_yet() {
    let collector = EventCollector::new(3);
    let logs = Logs::new(collector.clone());
    assert_eq!(logs.logs_state.target_filter.input(), "");
    assert!(logs.logs_state.target_filter.stale());
    assert!(logs.logs_state.target_filter.patterns().is_empty());
    assert_eq!(logs.collector.max_events(), 3);
    assert!(LogsState::new().target_filter.stale());
    assert!(LogsState::default().target_filter.stale());
}

#[test]
fn cloned_viewer_keeps_the_typed_text() {
    let mut logs = Logs::new(filled());
    logs.logs_state.target_filter.set_input(String::from("svc::"));
    logs.logs_state.target_filter.add_pattern(String::from("a::*"));
    let snapshot = logs.snapshot();
    let _ = logs.rows(&snapshot);
    let copy = logs.clone();
    assert_eq!(copy.logs_state.target_filter.input(), "svc::");
    assert!(copy.logs_state.target_filter.stale());
    assert_eq!(copy.logs_state.target_filter.patterns(), logs.logs_state.target_filter.patterns());
}
