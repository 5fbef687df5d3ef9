use elk_mq::event_queue::exchange::{Completion, Progress};
use elk_mq::broker::{Command, LogEntry, Reply};
use elk_mq::service_interface::service_event::ServiceEvent;
use elk_mq::service_interface::{InterfaceError, ServiceInterface, TimestampedEvent};
use elk_mq::{EventQueue, EventQueueError};

#[test]
fn borrowed_service_event_create_ok() {
    let event = ServiceEvent::new(10, "test_event_create", None);

    assert_eq!(event.get_action(), "test_event_create");
    assert_eq!(event.get_payload(), None);
    assert_eq!(event.get_timeout(), 10);
    assert_eq!(event.get_timestamp(), None);
}

#[test]
fn set_timestamp() {
    let mut event = ServiceEvent::new(10, "test_event_create", None);

    event.set_timestamp(42).unwrap();

    assert_eq!(event.get_timestamp().unwrap(), 42);
}

#[test]
#[should_panic(expected = "can set event timestamp only once")]
fn set_timestamp_twice() {
    let mut event = ServiceEvent::new(10, "test_event_create", None);

    event.set_timestamp(42).unwrap();
    event.set_timestamp(43).unwrap();
}

#[test]
fn second_timestamp_is_refused_and_first_stays() {
    let mut event = ServiceEvent::with_uuid(1, 10, "a", Some("p"));

    assert_eq!(event.set_timestamp(42), Ok(()));
    assert_eq!(event.set_timestamp(43), Err("can set event timestamp only once"));
    assert_eq!(event.get_timestamp(), Some(42));
    assert_eq!(event.get_uuid(), 1);
    assert_eq!(event.get_timeout(), 10);
    assert_eq!(event.get_action(), "a");
    assert_eq!(event.get_payload(), Some("p"));
}

#[test]
fn change_uuid() {
    let mut event = ServiceEvent::new(10, "test_event_create", None);

    event.set_uuid(42);

    assert_eq!(event.get_uuid(), 42);
    assert_eq!(event.get_action(), "test_event_create");
    assert_eq!(event.get_payload(), None);
    assert_eq!(event.get_timeout(), 10);
    assert_eq!(event.get_timestamp(), None);
}

#[test]
fn borrowed_event_to_owned() {
    let mut event = ServiceEvent::with_uuid(5, 10, "act", Some("load"));
    event.set_timestamp(77).unwrap();

    let owned = event.to_owned_event();

    assert_eq!(owned, elk_mq::ServiceEvent::with_uuid(5, 10, "act", Some(String::from("load"))));
}

#[test]
fn service_interface_create_ok() {
    let interface = ServiceInterface::new("test_queue", "redis://127.0.0.1");

    assert_eq!(interface.queue_name(), "test_queue");
    assert_eq!(interface.connection_url(), "redis://127.0.0.1");
}

#[test]
fn interface_error_keeps_kind_and_reason() {
    assert_eq!(
        InterfaceError::of(EventQueueError::ConnectionError(String::from("a"))),
        InterfaceError::ConnectionError(String::from("a"))
    );
    assert_eq!(
        InterfaceError::of(EventQueueError::JSONDumpError(String::from("b"))),
        InterfaceError::JSONDumpError(String::from("b"))
    );
    assert_eq!(
        InterfaceError::of(EventQueueError::JSONParseError(String::from("c"))),
        InterfaceError::JSONParseError(String::from("c"))
    );
    assert_eq!(
        InterfaceError::of(EventQueueError::EnqueueError(String::from("d"))),
        InterfaceError::EnqueueError(String::from("d"))
    );
    assert_eq!(
        InterfaceError::of(EventQueueError::DequeueError(String::from("e"))),
        InterfaceError::DequeueError(String::from("e"))
    );
    assert_eq!(InterfaceError::of(EventQueueError::EmptyQueue), InterfaceError::EmptyQueue);
    assert_eq!(InterfaceError::of(EventQueueError::TimeoutExpired), InterfaceError::TimeoutExpired);
}

fn reply_to(progress: Progress, reply: Reply) -> (Progress, Command) {
    match progress {
        Progress::Ask(exchange, command) => (exchange.step(reply), command),
        Progress::Done(outcome) => panic!("the exchange is over: {:?}", outcome),
    }
}

#[test]
fn service_interface_enqueue_dequeue_ok() {
    let mut interface = ServiceInterface::new("test_event_enqueue_dequeue", "redis://127.0.0.1");

    let event = ServiceEvent::new(10, "test_enqueue", None);
    let owned = event.to_owned_event();

    // enqueue: the body goes to the log `stream<name>`, its id onto the list `<name>`
    let progress = interface.enqueue(&event);
    let (progress, command) = reply_to(progress, Reply::Connected);
    assert_eq!(command, Command::Connect);
    let (progress, command) = reply_to(progress, Reply::Encoded(String::from("body")));
    assert_eq!(command, Command::Encode { event: owned.clone() });
    let (progress, command) = reply_to(progress, Reply::Appended(String::from("5-1")));
    assert_eq!(
        command,
        Command::Append {
            log: String::from("streamtest_event_enqueue_dequeue"),
            field: String::from("event"),
            value: String::from("body"),
        }
    );
    let (progress, command) = reply_to(progress, Reply::Pushed);
    assert_eq!(
        command,
        Command::PushLeft {
            list: String::from("test_event_enqueue_dequeue"),
            value: String::from("5-1"),
        }
    );
    assert!(matches!(progress, Progress::Done(Ok(Completion::Stored))));

    // dequeue
    let progress = interface.dequeue();
    let (progress, _) = reply_to(progress, Reply::Connected);
    let (progress, command) = reply_to(progress, Reply::Popped(Some(String::from("5-1"))));
    assert_eq!(
        command,
        Command::PopRight { list: String::from("test_event_enqueue_dequeue"), wait: None }
    );
    let entry = LogEntry {
        id: String::from("5-1"),
        fields: vec![(String::from("event"), String::from("body"))],
    };
    let (progress, command) = reply_to(progress, Reply::Entries(vec![entry]));
    assert_eq!(
        command,
        Command::ReadRange {
            log: String::from("streamtest_event_enqueue_dequeue"),
            first: String::from("5-1"),
            last: String::from("5-1"),
            limit: 1,
        }
    );
    let (progress, command) = reply_to(progress, Reply::Decoded(owned));
    assert_eq!(command, Command::Decode { text: String::from("body") });
    let stamped = match progress {
        Progress::Done(Ok(Completion::Received(stamped))) => stamped,
        _ => panic!("nothing was received"),
    };
    let result = TimestampedEvent::of(&stamped);

    assert_eq!(&event, result.get_event());
    assert_eq!(result.get_timestamp(), 5);
    assert_eq!(result.get_event().get_timestamp(), None);
}

#[test]
fn lent_event_is_the_owned_event() {
    let mut interface = ServiceInterface::new("lend", "redis://127.0.0.1");
    let owned = elk_mq::ServiceEvent::with_uuid(9, 3, "act", Some(String::from("load")));

    let progress = interface.dequeue();
    let (progress, _) = reply_to(progress, Reply::Connected);
    let (progress, _) = reply_to(progress, Reply::Popped(Some(String::from("77-4"))));
    let entry = LogEntry {
        id: String::from("77-4"),
        fields: vec![(String::from("event"), String::from("body"))],
    };
    let (progress, _) = reply_to(progress, Reply::Entries(vec![entry]));
    let (progress, _) = reply_to(progress, Reply::Decoded(owned.clone()));
    let stamped = match progress {
        Progress::Done(Ok(Completion::Received(stamped))) => stamped,
        _ => panic!("nothing was received"),
    };
    let lent = TimestampedEvent::of(&stamped);

    assert_eq!(lent.get_timestamp(), 77);
    assert_eq!(lent.get_event(), &ServiceEvent::with_uuid(9, 3, "act", Some("load")));
    assert_eq!(lent.get_event().to_owned_event(), owned);
    assert_eq!(lent.get_event().get_timestamp(), None);
}

#[test]
fn service_interface_dequeue_blocking_ok() {
    let mut interface = ServiceInterface::new("test_event_dequeue_blocking", "redis://127.0.0.1");

    let event = ServiceEvent::new(10, "test_enqueue", Some("Payload!"));

    let event_uuid = event.get_uuid();

    // another service puts the event on the queue
    let mut local_interface =
        ServiceInterface::new("test_event_dequeue_blocking", "redis://127.0.0.1");
    let progress = local_interface.enqueue(&event);
    let (progress, _) = reply_to(progress, Reply::Connected);
    let (progress, _) = reply_to(progress, Reply::Encoded(String::from("body")));
    let (progress, _) = reply_to(progress, Reply::Appended(String::from("1000-0")));
    let (progress, _) = reply_to(progress, Reply::Pushed);
    assert!(matches!(progress, Progress::Done(Ok(Completion::Stored))));

    // and the pop that waited for it takes it
    let progress = interface.dequeue_blocking(10);
    let (progress, _) = reply_to(progress, Reply::Connected);
    let taken = (String::from("test_event_dequeue_blocking"), String::from("1000-0"));
    let (progress, command) = reply_to(progress, Reply::PoppedFrom(Some(taken)));
    assert_eq!(
        command,
        Command::PopRight { list: String::from("test_event_dequeue_blocking"), wait: Some(10) }
    );
    let entry = LogEntry {
        id: String::from("1000-0"),
        fields: vec![(String::from("event"), String::from("body"))],
    };
    let (progress, _) = reply_to(progress, Reply::Entries(vec![entry]));
    let (progress, _) = reply_to(progress, Reply::Decoded(event.to_owned_event()));
    let stamped = match progress {
        Progress::Done(Ok(Completion::Received(stamped))) => stamped,
        _ => panic!("nothing was received"),
    };
    let result = TimestampedEvent::of(&stamped);

    assert_eq!(event_uuid, result.get_event().get_uuid());
    assert_eq!(result.get_event().get_payload(), Some("Payload!"));
}

#[test]
fn service_interface_dequeue_blocking_names_the_wait() {
    let mut interface = ServiceInterface::new("q", "redis://127.0.0.1");

    let progress = interface.dequeue_blocking(10);
    let (progress, _) = reply_to(progress, Reply::Connected);
    let (progress, command) = reply_to(progress, Reply::PoppedFrom(None));
    assert_eq!(command, Command::PopRight { list: String::from("q"), wait: Some(10) });
    assert!(matches!(progress, Progress::Done(Err(EventQueueError::EmptyQueue))));
}

#[test]
fn event_queue_and_interface_name_their_resources_differently() {
    let mut queue = EventQueue::new("q", "redis://127.0.0.1");
    let (_, _) = reply_to(queue.dequeue(), Reply::Connected);
    let (progress, _) = reply_to(queue.dequeue(), Reply::Connected);
    let (_, command) = reply_to(progress, Reply::Popped(None));
    assert_eq!(command, Command::PopRight { list: String::from("q(queue)"), wait: None });
}
