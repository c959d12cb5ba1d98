use egui_tracing::{Event, Fields, Level, Logs};
use std::time::{Duration, SystemTime};

fn event_with(fields: Fields) -> Event {
    Event {
        timestamp: SystemTime::UNIX_EPOCH + Duration::from_secs(7),
        level: Level::Info,
        target: String::from("svc::db"),
        fields,
    }
}

#[test]
fn new_fields_are_empty() {
    let fields = Fields::new();
    assert_eq!(fields.len(), 0);
    assert!(fields.is_empty());
    assert_eq!(fields.get("message"), None);
    assert!(fields.entries().is_empty());
}

#[test]
fn insert_then_get_returns_the_value() {
    let mut fields = Fields::new();
    assert_eq!(fields.insert(String::from("message"), String::from("started")), None);
    assert_eq!(fields.insert(String::from("port"), String::from("8080")), None);
    assert_eq!(fields.len(), 2);
    assert!(!fields.is_empty());
    assert_eq!(fields.get("message"), Some(&String::from("started")));
    assert_eq!(fields.get("port"), Some(&String::from("8080")));
    assert_eq!(fields.get("host"), None);
    assert_eq!(fields.get(""), None);
}

#[test]
fn insert_under_a_known_name_replaces_in_place() {
    let mut fields = Fields::new();
    fields.insert(String::from("a"), String::from("1"));
    fields.insert(String::from("b"), String::from("2"));
    fields.insert(String::from("c"), String::from("3"));
    let previous = fields.insert(String::from("b"), String::from("two"));
    assert_eq!(previous, Some(String::from("2")));
    assert_eq!(fields.len(), 3);
    let names: Vec<&str> = fields.entries().iter().map(|field| field.name.as_str()).collect();
    let values: Vec<&str> = fields.entries().iter().map(|field| field.value.as_str()).collect();
    assert_eq!(names, vec!["a", "b", "c"]);
    assert_eq!(values, vec!["1", "two", "3"]);
}

#[test]
fn fields_keep_the_order_of_first_insertion() {
    let mut fields = Fields::new();
    fields.insert(String::from("zeta"), String::from("1"));
    fields.insert(String::from("alpha"), String::from("2"));
    fields.insert(String::from(""), String::from("3"));
    let names: Vec<&str> = fields.entries().iter().map(|field| field.name.as_str()).collect();
    assert_eq!(names, vec!["zeta", "alpha", ""]);
    assert_eq!(fields.get(""), Some(&String::from("3")));
}

#[test]
fn cloned_fields_are_equal_and_independent() {
    let mut fields = Fields::new();
    fields.insert(String::from("message"), String::from("hello"));
    let mut copy = fields.clone();
    assert_eq!(copy, fields);
    copy.insert(String::from("message"), String::from("changed"));
    assert_eq!(fields.get("message"), Some(&String::from("hello")));
    assert_eq!(copy.get("message"), Some(&String::from("changed")));
}

#[test]
fn message_is_the_message_field() {
    let mut fields = Fields::new();
    fields.insert(String::from("user"), String::from("ada"));
    fields.insert(String::from("message"), String::from("logged in"));
    let event = event_with(fields);
    assert_eq!(event.message(), Some(&String::from("logged in")));
    assert_eq!(Logs::message_text(&event), "logged in");
}

#[test]
fn an_event_without_message_is_valid() {
    let mut fields = Fields::new();
    fields.insert(String::from("user"), String::from("ada"));
    let event = event_with(fields);
    assert_eq!(event.message(), None);
    assert_eq!(Logs::message_text(&event), "No Message available");
    assert_eq!(egui_tracing::logs::NO_MESSAGE, "No Message available");
    assert_eq!(egui_tracing::event::MESSAGE, "message");
}

#[test]
fn an_empty_message_is_shown_as_it_is() {
    let mut fields = Fields::new();
    fields.insert(String::from("message"), String::new());
    let event = event_with(fields);
    assert_eq!(event.message(), Some(&String::new()));
    assert_eq!(Logs::message_text(&event), "");
}

#[test]
fn cloned_event_equals_its_source() {
    let mut fields = Fields::new();
    fields.insert(String::from("message"), String::from("m"));
    let event = event_with(fields);
    let copy = event.clone();
    assert_eq!(copy, event);
    assert_eq!(copy.timestamp, SystemTime::UNIX_EPOCH + Duration::from_secs(7));
    assert_eq!(copy.level, Level::Info);
    assert_eq!(copy.target, "svc::db");
}
