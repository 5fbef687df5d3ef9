use elk_mq::broker::LogEntry;
use elk_mq::event_queue::reading::{find_field, last_entry_id, read_body, scan_entries};
use elk_mq::EventQueueError;

fn entry(id: &str, fields: &[(&str, &str)]) -> LogEntry {
    LogEntry {
        id: String::from(id),
        fields: fields.iter().map(|(name, value)| (String::from(*name), String::from(*value))).collect(),
    }
}

fn dequeue_error(reason: &str) -> EventQueueError {
    EventQueueError::DequeueError(String::from(reason))
}

#[test]
fn field_is_found_by_its_name() {
    let e = entry("1-0", &[("event", "a"), ("response", "b")]);

    assert_eq!(find_field(&e, &String::from("event")), Some(String::from("a")));
    assert_eq!(find_field(&e, &String::from("response")), Some(String::from("b")));
    assert_eq!(find_field(&e, &String::from("other")), None);
    assert_eq!(find_field(&e, &String::from("")), None);
}

#[test]
fn first_of_two_fields_of_one_name_is_found() {
    let e = entry("1-0", &[("event", "first"), ("event", "second")]);

    assert_eq!(find_field(&e, &String::from("event")), Some(String::from("first")));
}

#[test]
fn entry_without_fields_has_no_field() {
    let e = entry("1-0", &[]);

    assert_eq!(find_field(&e, &String::from("event")), None);
}

#[test]
fn body_of_the_entry_that_was_asked_for() {
    let entries = vec![entry("5-1", &[("event", "body")])];

    assert_eq!(
        read_body(&entries, &String::from("5-1"), &String::from("event")),
        Ok(String::from("body"))
    );
}

#[test]
fn body_is_read_from_the_first_entry_only() {
    let entries = vec![entry("5-1", &[("event", "one")]), entry("5-2", &[("event", "two")])];

    assert_eq!(
        read_body(&entries, &String::from("5-1"), &String::from("event")),
        Ok(String::from("one"))
    );
    assert_eq!(
        read_body(&entries, &String::from("5-2"), &String::from("event")),
        Err(dequeue_error("expected event map, found None"))
    );
}

#[test]
fn no_body_without_entries() {
    assert_eq!(
        read_body(&vec![], &String::from("5-1"), &String::from("event")),
        Err(dequeue_error("unexpected empty value in stream"))
    );
}

#[test]
fn no_body_in_another_entry() {
    let entries = vec![entry("5-2", &[("event", "body")])];

    assert_eq!(
        read_body(&entries, &String::from("5-1"), &String::from("event")),
        Err(dequeue_error("expected event map, found None"))
    );
}

#[test]
fn no_body_under_another_field() {
    let entries = vec![entry("5-1", &[("response", "body")])];

    assert_eq!(
        read_body(&entries, &String::from("5-1"), &String::from("event")),
        Err(dequeue_error("expected event at key \"event\", found None"))
    );
    assert_eq!(
        read_body(&entries, &String::from("5-1"), &String::from("response")),
        Ok(String::from("body"))
    );
}

#[test]
fn empty_log_is_read_from_the_beginning() {
    assert_eq!(last_entry_id(&vec![]), Ok(String::from("0-0")));
}

#[test]
fn log_is_read_from_behind_its_newest_entry() {
    assert_eq!(last_entry_id(&vec![entry("8-3", &[("u", "1-0")])]), Ok(String::from("8-3")));
    assert_eq!(last_entry_id(&vec![entry("8-3", &[])]), Ok(String::from("8-3")));
}

#[test]
fn more_than_the_newest_entry_is_refused() {
    let entries = vec![entry("8-3", &[("u", "1-0")]), entry("8-2", &[("v", "1-1")])];

    assert_eq!(last_entry_id(&entries), Err(dequeue_error("unexpected response length")));
}

#[test]
fn pass_over_nothing() {
    let pass = scan_entries(&vec![], &String::from("u"), String::from("0-0")).unwrap();

    assert_eq!(pass.cursor, "0-0");
    assert_eq!(pass.found, None);
}

#[test]
fn pass_finds_the_entry_of_the_target() {
    let entries = vec![entry("3-0", &[("u", "1-5")])];

    let pass = scan_entries(&entries, &String::from("u"), String::from("2-0")).unwrap();

    assert_eq!(pass.found, Some(String::from("1-5")));
    assert_eq!(pass.cursor, "2-0");
}

#[test]
fn pass_moves_the_cursor_over_other_entries() {
    let entries = vec![entry("3-0", &[("v", "1-5")]), entry("4-0", &[("w", "1-6")])];

    let pass = scan_entries(&entries, &String::from("u"), String::from("2-0")).unwrap();

    assert_eq!(pass.found, None);
    assert_eq!(pass.cursor, "4-0");
}

#[test]
fn pass_stops_at_the_first_match() {
    let entries = vec![
        entry("3-0", &[("v", "1-5")]),
        entry("4-0", &[("u", "1-6")]),
        entry("5-0", &[("u", "1-7")]),
        entry("6-0", &[]),
    ];

    let pass = scan_entries(&entries, &String::from("u"), String::from("2-0")).unwrap();

    assert_eq!(pass.found, Some(String::from("1-6")));
    assert_eq!(pass.cursor, "3-0");
}

#[test]
fn pass_goes_by_the_first_field() {
    let entries = vec![entry("3-0", &[("v", "1-5"), ("u", "1-6")])];

    let pass = scan_entries(&entries, &String::from("u"), String::from("2-0")).unwrap();

    assert_eq!(pass.found, None);
    assert_eq!(pass.cursor, "3-0");
}

#[test]
fn pass_fails_at_an_entry_without_fields() {
    let entries = vec![entry("3-0", &[("v", "1-5")]), entry("4-0", &[]), entry("5-0", &[("u", "1-6")])];

    let found = scan_entries(&entries, &String::from("u"), String::from("2-0"));

    assert_eq!(found.err(), Some(dequeue_error("UUID string not found in metadata {}")));
}

#[test]
fn pass_in_either_order_finds_its_own() {
    let one_two = vec![entry("3-0", &[("one", "1-1")]), entry("4-0", &[("two", "1-2")])];
    let two_one = vec![entry("3-0", &[("two", "1-2")]), entry("4-0", &[("one", "1-1")])];

    for entries in [&one_two, &two_one] {
        let first = scan_entries(entries, &String::from("one"), String::from("0-0")).unwrap();
        let second = scan_entries(entries, &String::from("two"), String::from("0-0")).unwrap();
        assert_eq!(first.found, Some(String::from("1-1")));
        assert_eq!(second.found, Some(String::from("1-2")));
    }
}
