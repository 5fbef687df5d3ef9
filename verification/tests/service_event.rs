use elk_mq::ServiceEvent;

#[test]
fn service_event_create_ok() {
    let event = ServiceEvent::new(10, "test_event_create", None);

    assert_eq!(event.get_action(), "test_event_create");
    assert_eq!(event.get_payload(), None);
    assert_eq!(event.get_timeout(), 10);
}

#[test]
fn create_response_ok() {
    let event_a = ServiceEvent::new(10, "test_event_create", None);

    let event_b = ServiceEvent::new_response(&event_a, "test_event_response", None);

    assert_eq!(event_a.get_uuid(), event_b.get_uuid());
}

#[test]
fn create_with_payload() {
    let event = ServiceEvent::new(1, "my_event", Some("{ \"foo\": \"bar\" }".to_string()));

    assert_eq!(event.get_action(), "my_event");
    assert_eq!(event.get_payload(), Some(String::from("{ \"foo\": \"bar\" }")));
    assert_eq!(event.borrow_payload(), Some("{ \"foo\": \"bar\" }"));
    assert_eq!(event.get_timeout(), 1);
}

#[test]
fn create_with_chosen_uuid() {
    let event = ServiceEvent::with_uuid(42, u16::MAX, "", Some(String::new()));

    assert_eq!(event.get_uuid(), 42);
    assert_eq!(event.get_timeout(), 65535);
    assert_eq!(event.get_action(), "");
    assert_eq!(event.get_payload(), Some(String::new()));
}

#[test]
fn response_takes_over_uuid_and_timeout() {
    let request = ServiceEvent::with_uuid(7, 3, "ask", Some(String::from("ping")));

    let response = ServiceEvent::new_response(&request, "answer", Some(String::from("pong")));

    assert_eq!(response.get_uuid(), 7);
    assert_eq!(response.get_timeout(), 3);
    assert_eq!(response.get_action(), "answer");
    assert_eq!(response.get_payload(), Some(String::from("pong")));
    assert_eq!(response, ServiceEvent::with_uuid(7, 3, "answer", Some(String::from("pong"))));
    // the request is as it was
    assert_eq!(request, ServiceEvent::with_uuid(7, 3, "ask", Some(String::from("ping"))));
}

#[test]
fn response_to_a_response_keeps_the_uuid() {
    let request = ServiceEvent::new(5, "ask", None);
    let first = ServiceEvent::new_response(&request, "first", None);
    let second = ServiceEvent::new_response(&first, "second", None);

    assert_eq!(second.get_uuid(), request.get_uuid());
    assert_eq!(second.get_timeout(), 5);
}

#[test]
fn fresh_uuids_are_random_uuids() {
    let event = ServiceEvent::new(10, "a", None);
    let uuid = event.get_uuid();

    // version 4, variant of RFC 9562
    assert_eq!((uuid >> 76) & 0xf, 4);
    assert_eq!((uuid >> 62) & 0x3, 2);
}

#[test]
fn fresh_uuids_differ() {
    let a = ServiceEvent::new(10, "a", None);
    let b = ServiceEvent::new(10, "a", None);

    assert_ne!(a.get_uuid(), b.get_uuid());
    assert_ne!(a, b);
}

#[test]
fn clone_is_equal() {
    let event = ServiceEvent::with_uuid(9, 2, "copy", Some(String::from("me")));
    let copy = event.clone();

    assert_eq!(copy, event);
    assert_eq!(copy.get_uuid(), 9);
    assert_eq!(copy.get_timeout(), 2);
    assert_eq!(copy.get_action(), "copy");
    assert_eq!(copy.get_payload(), Some(String::from("me")));
}
