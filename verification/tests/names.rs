use elk_mq::broker::{Command, Reply};
use elk_mq::name_generator::{
    generate_event_stream_name, generate_message_queue_name, generate_response_stream_name,
    with_suffix,
};
use elk_mq::{EventQueue, Progress, ServiceEvent};

#[test]
fn event_stream_name() {
    assert_eq!(generate_event_stream_name("orders"), "orders(event_stream)");
    assert_eq!(generate_event_stream_name(""), "(event_stream)");
}

#[test]
fn response_stream_name() {
    assert_eq!(generate_response_stream_name("orders"), "orders(response_stream)");
    assert_eq!(generate_response_stream_name(""), "(response_stream)");
}

#[test]
fn message_queue_name() {
    assert_eq!(generate_message_queue_name("orders"), "orders(queue)");
    assert_eq!(generate_message_queue_name(""), "(queue)");
}

#[test]
fn suffix_follows_the_name() {
    assert_eq!(with_suffix("a", "b"), "ab");
    assert_eq!(with_suffix("", ""), "");
    assert_eq!(with_suffix("caf\u{e9}", "(queue)"), "caf\u{e9}(queue)");
}

#[test]
fn names_of_one_queue_differ() {
    let name = "x";
    let event = generate_event_stream_name(name);
    let response = generate_response_stream_name(name);
    let queue = generate_message_queue_name(name);

    assert_ne!(event, response);
    assert_ne!(event, queue);
    assert_ne!(response, queue);
}

#[test]
fn queue_takes_the_generated_names() {
    let mut queue = EventQueue::new("orders", "redis://127.0.0.1");
    let event = ServiceEvent::with_uuid(1, 10, "a", None);
    let replies = vec![
        Reply::Connected,
        Reply::Encoded(String::from("text")),
        Reply::Appended(String::from("1-1")),
        Reply::Appended(String::from("1-2")),
    ];

    let mut progress = queue.enqueue_response(&event);
    let mut commands = vec![];
    for reply in replies {
        progress = match progress {
            Progress::Ask(exchange, command) => {
                commands.push(command);
                exchange.step(reply)
            }
            Progress::Done(outcome) => panic!("the exchange is over: {:?}", outcome),
        };
    }
    assert_eq!(
        commands[2],
        Command::Append {
            log: generate_event_stream_name("orders"),
            field: String::from("response"),
            value: String::from("text"),
        }
    );
    assert_eq!(
        commands[3],
        Command::Append {
            log: generate_response_stream_name("orders"),
            field: String::from("00000000-0000-0000-0000-000000000001"),
            value: String::from("1-1"),
        }
    );

    let progress = match queue.dequeue() {
        Progress::Ask(exchange, _) => exchange.step(Reply::Connected),
        Progress::Done(outcome) => panic!("the exchange is over: {:?}", outcome),
    };
    match progress {
        Progress::Ask(_, command) => assert_eq!(
            command,
            Command::PopRight { list: generate_message_queue_name("orders"), wait: None }
        ),
        Progress::Done(outcome) => panic!("the exchange is over: {:?}", outcome),
    }
}

#[test]
fn names_of_two_queues_differ() {
    assert_ne!(generate_event_stream_name("a"), generate_event_stream_name("b"));
    // a logical name that ends like a suffix does not run into another resource
    assert_ne!(
        generate_event_stream_name("a(response_stream)"),
        generate_response_stream_name("a(event_stream)")
    );
}
