use egui_tracing::{Level, LevelFilter};

const LEVELS: [Level; 5] = [Level::Trace, Level::Debug, Level::Info, Level::Warn, Level::Error];

#[test]
fn severity_rises_from_trace_to_error() {
    assert_eq!(Level::Trace.severity(), 0);
    assert_eq!(Level::Debug.severity(), 1);
    assert_eq!(Level::Info.severity(), 2);
    assert_eq!(Level::Warn.severity(), 3);
    assert_eq!(Level::Error.severity(), 4);
    assert!(Level::Trace < Level::Debug);
    assert!(Level::Warn < Level::Error);
}

#[test]
fn level_names_are_upper_case() {
    assert_eq!(Level::Trace.as_str(), "TRACE");
    assert_eq!(Level::Debug.as_str(), "DEBUG");
    assert_eq!(Level::Info.as_str(), "INFO");
    assert_eq!(Level::Warn.as_str(), "WARN");
    assert_eq!(Level::Error.as_str(), "ERROR");
}

#[test]
fn default_level_filter_shows_every_level() {
    let filter = LevelFilter::default();
    for level in LEVELS {
        assert!(filter.get(level));
    }
    assert_eq!(filter, LevelFilter::new());
}

#[test]
fn get_reads_the_flag_of_its_level() {
    let filter = LevelFilter { trace: true, debug: false, info: true, warn: false, error: true };
    assert!(filter.get(Level::Trace));
    assert!(!filter.get(Level::Debug));
    assert!(filter.get(Level::Info));
    assert!(!filter.get(Level::Warn));
    assert!(filter.get(Level::Error));
}

#[test]
fn set_changes_one_level_only() {
    for changed in LEVELS {
        let mut filter = LevelFilter::new();
        filter.set(changed, false);
        for level in LEVELS {
            assert_eq!(filter.get(level), level != changed);
        }
        filter.set(changed, true);
        assert_eq!(filter, LevelFilter::new());
    }
}

#[test]
fn toggle_flips_and_reports_the_new_position() {
    let mut filter = LevelFilter::new();
    assert!(!filter.toggle(Level::Warn));
    assert!(!filter.get(Level::Warn));
    assert!(filter.get(Level::Error));
    assert!(filter.toggle(Level::Warn));
    assert!(filter.get(Level::Warn));
}
