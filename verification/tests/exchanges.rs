use std::collections::HashMap;

use elk_mq::broker::{Command, LogBatch, LogEntry, Reply};
use elk_mq::{
    Completion, EventQueue, EventQueueError, EventQueueResult, Progress, ServiceEvent,
    TimestampedEvent,
};

/// A broker in memory: lists, append logs, a clock that each reading moves on.
struct Broker {
    lists: HashMap<String, Vec<String>>,
    logs: HashMap<String, Vec<LogEntry>>,
    millis: u64,
    sequence: u64,
    now: u128,
    tick: u128,
    down: bool,
}

fn encode(event: &ServiceEvent) -> String {
    let payload = match event.get_payload() {
        Some(text) => format!("+{}", text),
        None => String::from("-"),
    };
    format!("{}\n{}\n{}\n{}", event.get_uuid(), event.get_timeout(), event.get_action(), payload)
}

fn decode(text: &str) -> Option<ServiceEvent> {
    let mut parts = text.splitn(4, '\n');
    let uuid = parts.next()?.parse::<u128>().ok()?;
    let timeout = parts.next()?.parse::<u16>().ok()?;
    let action = parts.next()?;
    let payload = parts.next()?;
    let payload = match payload.strip_prefix('+') {
        Some(text) => Some(String::from(text)),
        None => None,
    };
    if timeout == 0 {
        return None;
    }
    Some(ServiceEvent::with_uuid(uuid, timeout, action, payload))
}

fn id_pair(id: &str) -> (u64, u64) {
    let mut parts = id.splitn(2, '-');
    let millis = parts.next().unwrap().parse::<u64>().unwrap();
    let sequence = parts.next().unwrap().parse::<u64>().unwrap();
    (millis, sequence)
}

impl Broker {
    fn new() -> Self {
        Broker {
            lists: HashMap::new(),
            logs: HashMap::new(),
            millis: 1000,
            sequence: 0,
            now: 5_000_000_000,
            tick: 300_000_000,
            down: false,
        }
    }

    fn append(&mut self, log: String, field: String, value: String) -> String {
        self.sequence += 1;
        if self.sequence % 3 == 0 {
            self.millis += 1;
            self.sequence = 0;
        }
        let id = format!("{}-{}", self.millis, self.sequence);
        self.logs.entry(log).or_default().push(LogEntry { id: id.clone(), fields: vec![(field, value)] });
        id
    }

    fn perform(&mut self, command: Command) -> Reply {
        match command {
            Command::Connect => {
                if self.down {
                    Reply::Failed(String::from("connection refused"))
                } else {
                    Reply::Connected
                }
            }
            Command::Encode { event } => Reply::Encoded(encode(&event)),
            Command::Append { log, field, value } => Reply::Appended(self.append(log, field, value)),
            Command::PushLeft { list, value } => {
                self.lists.entry(list).or_default().insert(0, value);
                Reply::Pushed
            }
            Command::PopRight { list, wait } => {
                let popped = self.lists.entry(list.clone()).or_default().pop();
                match wait {
                    None => Reply::Popped(popped),
                    Some(_) => Reply::PoppedFrom(popped.map(|value| (list, value))),
                }
            }
            Command::ReadRange { log, first, last, limit } => {
                let entries = self.logs.entry(log).or_default();
                let found: Vec<LogEntry> = entries
                    .iter()
                    .filter(|e| id_pair(&first) <= id_pair(&e.id) && id_pair(&e.id) <= id_pair(&last))
                    .take(limit)
                    .cloned()
                    .collect();
                Reply::Entries(found)
            }
            Command::ReadLatest { log } => {
                let entries = self.logs.entry(log).or_default();
                Reply::Entries(entries.last().cloned().into_iter().collect())
            }
            Command::TailFrom { log, after } => {
                let entries = self.logs.entry(log.clone()).or_default();
                let news: Vec<LogEntry> =
                    entries.iter().filter(|e| id_pair(&e.id) > id_pair(&after)).cloned().collect();
                if news.is_empty() {
                    Reply::Batches(vec![])
                } else {
                    Reply::Batches(vec![LogBatch { log, entries: news }])
                }
            }
            Command::ReadClock => {
                self.now += self.tick;
                Reply::Time(self.now)
            }
            Command::Decode { text } => match decode(&text) {
                Some(event) => Reply::Decoded(event),
                None => Reply::Failed(String::from("no event in the text")),
            },
        }
    }
}

/// Carries one command out and takes the exchange one step on.
fn advance(broker: &mut Broker, progress: Progress) -> Progress {
    match progress {
        Progress::Ask(exchange, command) => {
            let reply = broker.perform(command);
            exchange.step(reply)
        }
        done => done,
    }
}

fn is_polling(progress: &Progress) -> bool {
    matches!(progress, Progress::Ask(_, Command::TailFrom { .. }))
}

/// Runs the exchange to its end.
fn run(broker: &mut Broker, progress: Progress) -> EventQueueResult<Completion> {
    let mut progress = progress;
    loop {
        match progress {
            Progress::Done(outcome) => return outcome,
            asked => progress = advance(broker, asked),
        }
    }
}

fn stored(outcome: EventQueueResult<Completion>) -> EventQueueResult<()> {
    match outcome? {
        Completion::Stored => Ok(()),
        Completion::Received(_) => panic!("an event was received"),
    }
}

fn received(outcome: EventQueueResult<Completion>) -> EventQueueResult<TimestampedEvent> {
    match outcome? {
        Completion::Received(stamped) => Ok(stamped),
        Completion::Stored => panic!("an event was stored"),
    }
}

fn enqueue(broker: &mut Broker, queue: &mut EventQueue, event: &ServiceEvent) -> EventQueueResult<()> {
    stored(run(broker, queue.enqueue(event)))
}

fn enqueue_response(broker: &mut Broker, queue: &mut EventQueue, event: &ServiceEvent) -> EventQueueResult<()> {
    stored(run(broker, queue.enqueue_response(event)))
}

fn dequeue(broker: &mut Broker, queue: &mut EventQueue) -> EventQueueResult<TimestampedEvent> {
    received(run(broker, queue.dequeue()))
}

fn dequeue_blocking(broker: &mut Broker, queue: &mut EventQueue, timeout: u16) -> EventQueueResult<TimestampedEvent> {
    received(run(broker, queue.dequeue_blocking(timeout)))
}

fn await_response(broker: &mut Broker, queue: &mut EventQueue, event: &ServiceEvent) -> EventQueueResult<TimestampedEvent> {
    received(run(broker, queue.await_response(event)))
}

/// Takes an awaiting exchange on until it is about to read the response log.
fn until_polling(broker: &mut Broker, progress: Progress) -> Progress {
    let mut progress = progress;
    while !is_polling(&progress) {
        assert!(matches!(progress, Progress::Ask(_, _)));
        progress = advance(broker, progress);
    }
    progress
}

/// What a consumer does: takes one request off the queue and answers it.
fn answer_one(broker: &mut Broker, name: &str) {
    let mut queue = EventQueue::new(name, "redis://127.0.0.1");
    let event = dequeue_blocking(broker, &mut queue, 10).unwrap();
    let event = event.get_event();

    assert_eq!(event.get_payload(), Some(String::from("ping")));

    let response = ServiceEvent::new_response(event, "await_response", Some(String::from("pong")));
    enqueue_response(broker, &mut queue, &response).unwrap();
}

#[test]
fn event_queue_create_ok() {
    let _interface = EventQueue::new("test_queue", "redis://127.0.0.1");
}

#[test]
fn tls_enabled() {
    let queue = EventQueue::new("tls", "rediss://127.0.0.1");

    assert_eq!(queue.connection_url(), "rediss://127.0.0.1");
}

#[test]
fn event_queue_enqueue_dequeue_ok() {
    let mut broker = Broker::new();
    let mut interface = EventQueue::new("test_event_enqueue_dequeue", "redis://127.0.0.1");

    let event = ServiceEvent::new(10, "test_enqueue", None);

    enqueue(&mut broker, &mut interface, &event).unwrap();

    let result = dequeue(&mut broker, &mut interface).unwrap();

    assert_eq!(&event, result.get_event());
}

#[test]
fn test_basic_public_api_ok() {
    let mut broker = Broker::new();
    let mut queue = EventQueue::new("lib_queue", "redis://127.0.0.1");

    let event = ServiceEvent::new(10, "lib_test", None);

    enqueue(&mut broker, &mut queue, &event).unwrap();
    let timestamp = broker.millis;

    let timestamped_event = dequeue(&mut broker, &mut queue).unwrap();

    assert_eq!(timestamp, timestamped_event.get_timestamp());
    assert_eq!(&event, timestamped_event.get_event());
}

#[test]
fn tls_simple_queue() {
    let mut broker = Broker::new();
    let mut q = EventQueue::new("tls_simple_queue", "rediss://127.0.0.1");

    let event = ServiceEvent::new(10, "tls_test", None);

    enqueue(&mut broker, &mut q, &event).unwrap();
    let timestamp = broker.millis;
    let result = dequeue_blocking(&mut broker, &mut q, 10).unwrap();

    assert_eq!(timestamp, result.get_timestamp());
    assert_eq!(result.get_event(), &event);
}

#[test]
fn ping_comes_back_with_the_timestamp_of_its_id() {
    let mut broker = Broker::new();
    let mut queue = EventQueue::new("scenario", "redis://127.0.0.1");

    let event = ServiceEvent::new(10, "ping", Some(String::from("hi")));
    enqueue(&mut broker, &mut queue, &event).unwrap();
    let id = broker.logs["scenario(event_stream)"][0].id.clone();
    assert_eq!(id, "1000-1");

    let result = dequeue(&mut broker, &mut queue).unwrap();

    assert_eq!(result.get_event().get_action(), "ping");
    assert_eq!(result.get_event().get_payload(), Some(String::from("hi")));
    assert_eq!(result.get_timestamp(), 1000);
}

#[test]
fn enqueue_leaves_one_log_entry_and_one_list_entry() {
    let mut broker = Broker::new();
    let mut queue = EventQueue::new("q", "redis://127.0.0.1");
    let event = ServiceEvent::with_uuid(1, 10, "a", None);

    enqueue(&mut broker, &mut queue, &event).unwrap();

    assert_eq!(broker.lists["q(queue)"], vec![String::from("1000-1")]);
    assert_eq!(
        broker.logs["q(event_stream)"],
        vec![LogEntry {
            id: String::from("1000-1"),
            fields: vec![(String::from("event"), encode(&event))],
        }]
    );
    assert!(!broker.logs.contains_key("q(response_stream)"));
}

#[test]
fn events_come_out_in_the_order_in_which_they_went_in() {
    let mut broker = Broker::new();
    let mut queue = EventQueue::new("fifo", "redis://127.0.0.1");
    let first = ServiceEvent::new(10, "first", None);
    let second = ServiceEvent::new(10, "second", None);
    let third = ServiceEvent::new(10, "third", Some(String::from("3")));

    enqueue(&mut broker, &mut queue, &first).unwrap();
    enqueue(&mut broker, &mut queue, &second).unwrap();
    enqueue(&mut broker, &mut queue, &third).unwrap();

    let a = dequeue(&mut broker, &mut queue).unwrap();
    let b = dequeue(&mut broker, &mut queue).unwrap();
    let c = dequeue(&mut broker, &mut queue).unwrap();

    assert_eq!(a.get_event(), &first);
    assert_eq!(b.get_event(), &second);
    assert_eq!(c.get_event(), &third);
    assert!(a.get_timestamp() <= b.get_timestamp());
    assert!(b.get_timestamp() <= c.get_timestamp());
    assert_eq!(dequeue(&mut broker, &mut queue), Err(EventQueueError::EmptyQueue));
    // the log keeps what the list gave away
    assert_eq!(broker.logs["fifo(event_stream)"].len(), 3);
}

#[test]
fn dequeue_of_an_empty_queue() {
    let mut broker = Broker::new();
    let mut queue = EventQueue::new("empty", "redis://127.0.0.1");

    assert_eq!(dequeue(&mut broker, &mut queue), Err(EventQueueError::EmptyQueue));
}

#[test]
fn event_queue_dequeue_blocking_ok() {
    let mut broker = Broker::new();
    let mut interface = EventQueue::new("test_event_dequeue_blocking", "redis://127.0.0.1");

    let event = ServiceEvent::new(10, "test_enqueue", Some(String::from("Payload!")));

    let event_uuid = event.get_uuid();

    let mut local_interface = EventQueue::new("test_event_dequeue_blocking", "redis://127.0.0.1");
    enqueue(&mut broker, &mut local_interface, &event).unwrap();

    let result = dequeue_blocking(&mut broker, &mut interface, 10).unwrap();

    assert_eq!(event_uuid, result.get_event().get_uuid());
    assert_eq!(result.get_event().get_payload(), Some(String::from("Payload!")));
}

#[test]
#[should_panic(expected = "called `Result::unwrap()` on an `Err` value: EmptyQueue")]
fn dequeue_blocking_timeout() {
    let mut broker = Broker::new();
    let mut interface = EventQueue::new("test_event_dequeue_blocking_timeout", "redis://127.0.0.1");

    dequeue_blocking(&mut broker, &mut interface, 1).unwrap();
}

#[test]
fn blocking_pop_is_asked_with_the_timeout() {
    let mut queue = EventQueue::new("q", "redis://127.0.0.1");
    let progress = queue.dequeue_blocking(7);
    let progress = match progress {
        Progress::Ask(exchange, Command::Connect) => exchange.step(Reply::Connected),
        _ => panic!("the first command is to connect"),
    };
    match progress {
        Progress::Ask(_, command) => assert_eq!(
            command,
            Command::PopRight { list: String::from("q(queue)"), wait: Some(7) }
        ),
        Progress::Done(_) => panic!("the exchange is not over"),
    }
}

#[test]
fn await_ok() {
    let mut broker = Broker::new();
    let mut interface = EventQueue::new("test_event_await", "redis://127.0.0.1");

    let event = ServiceEvent::new(10, "await_test", Some(String::from("ping")));

    let waiting = until_polling(&mut broker, interface.await_response(&event));
    answer_one(&mut broker, "test_event_await");

    let response = received(run(&mut broker, waiting)).unwrap();
    let response = response.get_event();

    assert_eq!(response.get_action(), "await_response");
    assert_eq!(response.get_payload(), Some(String::from("pong")));
    assert_eq!(response.get_uuid(), event.get_uuid());
}

#[test]
fn await_finds_a_response_that_comes_late() {
    let mut broker = Broker::new();
    let mut queue = EventQueue::new("late", "redis://127.0.0.1");
    let event = ServiceEvent::new(10, "await_test", Some(String::from("ping")));

    let mut waiting = until_polling(&mut broker, queue.await_response(&event));
    // a few reads of the response log find nothing
    for _ in 0..6 {
        waiting = advance(&mut broker, waiting);
        assert!(matches!(waiting, Progress::Ask(_, _)));
    }
    let waiting = until_polling(&mut broker, waiting);
    answer_one(&mut broker, "late");

    let response = received(run(&mut broker, waiting)).unwrap();

    assert_eq!(response.get_event().get_payload(), Some(String::from("pong")));
    assert_eq!(response.get_event().get_uuid(), event.get_uuid());
}

#[test]
fn await_passes_over_responses_to_others() {
    let mut broker = Broker::new();
    let mut queue = EventQueue::new("crowd", "redis://127.0.0.1");
    let event = ServiceEvent::new(10, "await_test", Some(String::from("ping")));

    let waiting = until_polling(&mut broker, queue.await_response(&event));
    for n in 0..5 {
        let other = ServiceEvent::with_uuid(n, 10, "other", Some(String::from("nothing")));
        enqueue_response(&mut broker, &mut queue, &other).unwrap();
    }
    answer_one(&mut broker, "crowd");
    let other = ServiceEvent::with_uuid(99, 10, "other", Some(String::from("nothing")));
    enqueue_response(&mut broker, &mut queue, &other).unwrap();

    let response = received(run(&mut broker, waiting)).unwrap();

    assert_eq!(response.get_event().get_action(), "await_response");
    assert_eq!(response.get_event().get_uuid(), event.get_uuid());
}

#[test]
fn await_does_not_see_what_was_there_before() {
    let mut broker = Broker::new();
    let mut queue = EventQueue::new("old", "redis://127.0.0.1");
    let event = ServiceEvent::with_uuid(77, 2, "await_test", None);

    // the response log already files an entry under the uuid of the request
    let stale = ServiceEvent::new_response(&event, "stale", None);
    enqueue_response(&mut broker, &mut queue, &stale).unwrap();

    assert_eq!(await_response(&mut broker, &mut queue, &event), Err(EventQueueError::TimeoutExpired));
}

#[test]
fn simultaneous_await_ok() {
    for answers_first in [false, true] {
        let mut broker = Broker::new();
        let mut interface = EventQueue::new("test_event_await_sim", "redis://127.0.0.1");
        let mut thread_interface = EventQueue::new("test_event_await_sim", "redis://127.0.0.1");

        let thread_event = ServiceEvent::new(1, "await_test", Some(String::from("ping")));
        let event = ServiceEvent::new(1, "await_test", Some(String::from("ping")));

        let (one, two) = if answers_first {
            let one = until_polling(&mut broker, thread_interface.await_response(&thread_event));
            let two = until_polling(&mut broker, interface.await_response(&event));
            (one, two)
        } else {
            let two = until_polling(&mut broker, interface.await_response(&event));
            let one = until_polling(&mut broker, thread_interface.await_response(&thread_event));
            (one, two)
        };

        for _ in 0..2 {
            answer_one(&mut broker, "test_event_await_sim");
        }

        let response = received(run(&mut broker, one)).unwrap();
        let response = response.get_event();

        assert_eq!(response.get_action(), "await_response");
        assert_eq!(response.get_payload(), Some(String::from("pong")));
        assert_eq!(response.get_uuid(), thread_event.get_uuid());

        let response = received(run(&mut broker, two)).unwrap();
        let response = response.get_event();

        assert_eq!(response.get_action(), "await_response");
        assert_eq!(response.get_payload(), Some(String::from("pong")));
        assert_eq!(response.get_uuid(), event.get_uuid());
    }
}

#[test]
#[should_panic(expected = "called `Result::unwrap()` on an `Err` value: TimeoutExpired")]
fn await_timeout() {
    let mut broker = Broker::new();
    let mut interface = EventQueue::new("test_event_await_timeout", "redis://127.0.0.1");

    let event = ServiceEvent::new(1, "await_test", Some(String::from("ping")));

    await_response(&mut broker, &mut interface, &event).unwrap();
}

#[test]
fn await_gives_up_when_the_timeout_is_over() {
    let mut broker = Broker::new();
    broker.tick = 400_000_000;
    let mut queue = EventQueue::new("patience", "redis://127.0.0.1");
    let event = ServiceEvent::new(2, "await_test", None);

    let started = broker.now;
    let outcome = await_response(&mut broker, &mut queue, &event);

    assert_eq!(outcome, Err(EventQueueError::TimeoutExpired));
    // the clock was read once at the start and then until two seconds were over:
    // 0.4 s, 0.8 s, 1.2 s, 1.6 s and 2.0 s after the start
    assert_eq!(broker.now - started, 6 * 400_000_000);
    // the request itself is on the queue
    assert_eq!(broker.lists["patience(queue)"].len(), 1);
}

#[test]
fn await_reads_the_log_at_the_last_moment() {
    let mut broker = Broker::new();
    broker.tick = 999_999_999;
    let mut queue = EventQueue::new("edge", "redis://127.0.0.1");
    let event = ServiceEvent::new(1, "await_test", None);

    // first reading: the start; second reading: one nanosecond before the end
    let waiting = until_polling(&mut broker, queue.await_response(&event));
    let waiting = advance(&mut broker, waiting);
    assert!(matches!(waiting, Progress::Ask(_, Command::ReadClock)));
    let waiting = advance(&mut broker, waiting);
    assert!(is_polling(&waiting));
    // third reading: behind the end
    let waiting = advance(&mut broker, waiting);
    let waiting = advance(&mut broker, waiting);
    assert!(matches!(waiting, Progress::Done(Err(EventQueueError::TimeoutExpired))));
}

#[test]
fn response_is_filed_under_the_hyphenated_uuid() {
    let mut broker = Broker::new();
    let mut queue = EventQueue::new("file", "redis://127.0.0.1");
    let request =
        ServiceEvent::with_uuid(0xa1a2a3a4b1b2c1c2d1d2d3d4d5d6d7d8, 10, "ask", None);
    let response = ServiceEvent::new_response(&request, "answer", None);

    enqueue_response(&mut broker, &mut queue, &response).unwrap();

    assert_eq!(
        broker.logs["file(event_stream)"],
        vec![LogEntry {
            id: String::from("1000-1"),
            fields: vec![(String::from("response"), encode(&response))],
        }]
    );
    assert_eq!(
        broker.logs["file(response_stream)"],
        vec![LogEntry {
            id: String::from("1000-2"),
            fields: vec![(
                String::from("a1a2a3a4-b1b2-c1c2-d1d2-d3d4d5d6d7d8"),
                String::from("1000-1")
            )],
        }]
    );
    assert!(!broker.lists.contains_key("file(queue)"));
}

#[test]
fn small_uuid_is_written_with_all_its_digits() {
    let mut broker = Broker::new();
    let mut queue = EventQueue::new("zero", "redis://127.0.0.1");
    let response = ServiceEvent::with_uuid(0x1f, 10, "answer", None);

    enqueue_response(&mut broker, &mut queue, &response).unwrap();

    assert_eq!(
        broker.logs["zero(response_stream)"][0].fields[0].0,
        "00000000-0000-0000-0000-00000000001f"
    );
}

#[test]
fn two_uuids_are_filed_under_two_texts() {
    let mut broker = Broker::new();
    let mut queue = EventQueue::new("two", "redis://127.0.0.1");
    let one = ServiceEvent::with_uuid(1 << 127, 10, "answer", None);
    let other = ServiceEvent::with_uuid(1, 10, "answer", None);

    enqueue_response(&mut broker, &mut queue, &one).unwrap();
    enqueue_response(&mut broker, &mut queue, &other).unwrap();

    let filed = &broker.logs["two(response_stream)"];
    assert_eq!(filed[0].fields[0].0, "80000000-0000-0000-0000-000000000000");
    assert_eq!(filed[1].fields[0].0, "00000000-0000-0000-0000-000000000001");
}

#[test]
fn response_is_not_handed_out_as_an_event() {
    let mut broker = Broker::new();
    let mut queue = EventQueue::new("apart", "redis://127.0.0.1");
    let response = ServiceEvent::with_uuid(3, 10, "answer", None);

    enqueue_response(&mut broker, &mut queue, &response).unwrap();

    assert_eq!(dequeue(&mut broker, &mut queue), Err(EventQueueError::EmptyQueue));
}

#[test]
fn no_session() {
    let mut broker = Broker::new();
    broker.down = true;
    let mut queue = EventQueue::new("down", "redis://127.0.0.1");
    let event = ServiceEvent::new(1, "a", None);
    let refused = EventQueueError::ConnectionError(String::from("connection refused"));

    assert_eq!(enqueue(&mut broker, &mut queue, &event), Err(refused));
    let refused = EventQueueError::ConnectionError(String::from("connection refused"));
    assert_eq!(dequeue(&mut broker, &mut queue), Err(refused));
    let refused = EventQueueError::ConnectionError(String::from("connection refused"));
    assert_eq!(dequeue_blocking(&mut broker, &mut queue, 1), Err(refused));
    let refused = EventQueueError::ConnectionError(String::from("connection refused"));
    assert_eq!(enqueue_response(&mut broker, &mut queue, &event), Err(refused));
    let refused = EventQueueError::ConnectionError(String::from("connection refused"));
    assert_eq!(await_response(&mut broker, &mut queue, &event), Err(refused));
    assert!(broker.logs.is_empty());
    assert!(broker.lists.is_empty());
}

/// Gives the replies one after the other, and the outcome of the exchange.
fn feed(progress: Progress, replies: Vec<Reply>) -> EventQueueResult<Completion> {
    let mut progress = progress;
    for reply in replies {
        progress = match progress {
            Progress::Ask(exchange, _) => exchange.step(reply),
            Progress::Done(outcome) => panic!("the exchange is over: {:?}", outcome),
        };
    }
    match progress {
        Progress::Done(outcome) => outcome,
        Progress::Ask(_, command) => panic!("the exchange goes on with {:?}", command),
    }
}

fn failed(reason: &str) -> Reply {
    Reply::Failed(String::from(reason))
}

#[test]
fn failures_of_enqueue() {
    let mut queue = EventQueue::new("q", "redis://127.0.0.1");
    let event = ServiceEvent::new(1, "a", None);

    assert_eq!(
        feed(queue.enqueue(&event), vec![Reply::Connected, failed("no text")]),
        Err(EventQueueError::JSONDumpError(String::from("no text")))
    );
    assert_eq!(
        feed(
            queue.enqueue(&event),
            vec![Reply::Connected, Reply::Encoded(String::from("t")), failed("log is full")]
        ),
        Err(EventQueueError::EnqueueError(String::from("log is full")))
    );
    assert_eq!(
        feed(
            queue.enqueue(&event),
            vec![
                Reply::Connected,
                Reply::Encoded(String::from("t")),
                Reply::Appended(String::from("1-1")),
                failed("list is full")
            ]
        ),
        Err(EventQueueError::EnqueueError(String::from("list is full")))
    );
    assert_eq!(
        feed(
            queue.enqueue_response(&event),
            vec![
                Reply::Connected,
                Reply::Encoded(String::from("t")),
                Reply::Appended(String::from("1-1")),
                failed("log is full")
            ]
        ),
        Err(EventQueueError::EnqueueError(String::from("log is full")))
    );
}

#[test]
fn failures_of_dequeue() {
    let mut queue = EventQueue::new("q", "redis://127.0.0.1");
    let popped = || Reply::Popped(Some(String::from("4-2")));
    let entry = || LogEntry {
        id: String::from("4-2"),
        fields: vec![(String::from("event"), String::from("text"))],
    };

    assert_eq!(
        feed(queue.dequeue(), vec![Reply::Connected, failed("pop failed")]),
        Err(EventQueueError::DequeueError(String::from("pop failed")))
    );
    assert_eq!(
        feed(queue.dequeue(), vec![Reply::Connected, popped(), failed("read failed")]),
        Err(EventQueueError::DequeueError(String::from("read failed")))
    );
    assert_eq!(
        feed(queue.dequeue(), vec![Reply::Connected, popped(), Reply::Entries(vec![])]),
        Err(EventQueueError::DequeueError(String::from("unexpected empty value in stream")))
    );
    assert_eq!(
        feed(
            queue.dequeue(),
            vec![Reply::Connected, popped(), Reply::Entries(vec![entry()]), failed("no json")]
        ),
        Err(EventQueueError::JSONParseError(String::from("no json")))
    );
    assert_eq!(
        feed(
            queue.dequeue_blocking(3),
            vec![
                Reply::Connected,
                Reply::PoppedFrom(Some((String::from("q(queue)"), String::from("4-2")))),
                Reply::Entries(vec![LogEntry {
                    id: String::from("4-2"),
                    fields: vec![(String::from("response"), String::from("text"))],
                }]),
            ]
        ),
        Err(EventQueueError::DequeueError(String::from(
            "expected event at key \"event\", found None"
        )))
    );
}

#[test]
fn key_that_is_no_entry_id() {
    let mut queue = EventQueue::new("q", "redis://127.0.0.1");
    let event = ServiceEvent::new(1, "a", None);

    let outcome = feed(
        queue.dequeue(),
        vec![
            Reply::Connected,
            Reply::Popped(Some(String::from("today"))),
            Reply::Entries(vec![LogEntry {
                id: String::from("today"),
                fields: vec![(String::from("event"), String::from("text"))],
            }]),
            Reply::Decoded(event),
        ],
    );

    assert_eq!(outcome, Err(EventQueueError::DequeueError(String::from("invalid event key"))));
}

#[test]
fn failures_of_await() {
    let mut queue = EventQueue::new("q", "redis://127.0.0.1");
    let event = ServiceEvent::with_uuid(1, 1, "a", None);
    let begin = || vec![Reply::Connected, Reply::Time(10)];
    let sent = || {
        vec![
            Reply::Connected,
            Reply::Time(10),
            Reply::Entries(vec![]),
            Reply::Encoded(String::from("t")),
            Reply::Appended(String::from("1-1")),
            Reply::Pushed,
        ]
    };

    let mut replies = begin();
    replies.push(failed("read failed"));
    assert_eq!(
        feed(queue.await_response(&event), replies),
        Err(EventQueueError::DequeueError(String::from("read failed")))
    );

    let mut replies = begin();
    replies.push(Reply::Entries(vec![
        LogEntry { id: String::from("2-0"), fields: vec![] },
        LogEntry { id: String::from("1-0"), fields: vec![] },
    ]));
    assert_eq!(
        feed(queue.await_response(&event), replies),
        Err(EventQueueError::DequeueError(String::from("unexpected response length")))
    );

    let mut replies = sent();
    replies.push(failed("tail failed"));
    assert_eq!(
        feed(queue.await_response(&event), replies),
        Err(EventQueueError::DequeueError(String::from("tail failed")))
    );

    let mut replies = sent();
    replies.push(Reply::Batches(vec![LogBatch { log: String::from("other"), entries: vec![] }]));
    assert_eq!(
        feed(queue.await_response(&event), replies),
        Err(EventQueueError::DequeueError(String::from("invalid stream name in response map")))
    );

    let mut replies = sent();
    replies.push(Reply::Batches(vec![LogBatch {
        log: String::from("q(response_stream)"),
        entries: vec![LogEntry { id: String::from("2-0"), fields: vec![] }],
    }]));
    assert_eq!(
        feed(queue.await_response(&event), replies),
        Err(EventQueueError::DequeueError(String::from("UUID string not found in metadata {}")))
    );

    let mut replies = sent();
    replies.push(Reply::Batches(vec![]));
    replies.push(Reply::Time(1_000_000_010));
    assert_eq!(feed(queue.await_response(&event), replies), Err(EventQueueError::TimeoutExpired));
}

#[test]
fn reply_of_another_kind_ends_the_exchange() {
    let mut queue = EventQueue::new("q", "redis://127.0.0.1");
    let event = ServiceEvent::new(1, "a", None);

    assert_eq!(
        feed(queue.dequeue(), vec![Reply::Pushed]),
        Err(EventQueueError::ConnectionError(String::from("unexpected reply")))
    );
    assert_eq!(
        feed(queue.dequeue(), vec![Reply::Connected, Reply::Connected]),
        Err(EventQueueError::DequeueError(String::from("unexpected reply")))
    );
    assert_eq!(
        feed(queue.enqueue(&event), vec![Reply::Connected, Reply::Pushed]),
        Err(EventQueueError::JSONDumpError(String::from("unexpected reply")))
    );
    assert_eq!(
        feed(
            queue.enqueue(&event),
            vec![Reply::Connected, Reply::Encoded(String::from("t")), Reply::Pushed]
        ),
        Err(EventQueueError::EnqueueError(String::from("unexpected reply")))
    );
}

#[test]
fn reply_to_the_other_pop_ends_the_exchange() {
    let mut queue = EventQueue::new("q", "redis://127.0.0.1");
    let unexpected = || Err(EventQueueError::DequeueError(String::from("unexpected reply")));

    assert_eq!(feed(queue.dequeue(), vec![Reply::Connected, Reply::PoppedFrom(None)]), unexpected());
    assert_eq!(
        feed(queue.dequeue_blocking(1), vec![Reply::Connected, Reply::Popped(None)]),
        unexpected()
    );
    assert_eq!(
        feed(
            queue.dequeue_blocking(1),
            vec![Reply::Connected, Reply::Popped(Some(String::from("1-1")))]
        ),
        unexpected()
    );
}

#[test]
fn reply_to_the_other_write_ends_the_exchange() {
    let mut queue = EventQueue::new("q", "redis://127.0.0.1");
    let event = ServiceEvent::new(1, "a", None);
    let unexpected = || Err(EventQueueError::EnqueueError(String::from("unexpected reply")));
    let written = |last: Reply| {
        vec![
            Reply::Connected,
            Reply::Encoded(String::from("t")),
            Reply::Appended(String::from("1-1")),
            last,
        ]
    };

    assert_eq!(
        feed(queue.enqueue(&event), written(Reply::Appended(String::from("1-2")))),
        unexpected()
    );
    assert_eq!(feed(queue.enqueue_response(&event), written(Reply::Pushed)), unexpected());
    assert_eq!(
        feed(queue.enqueue_response(&event), written(Reply::Appended(String::from("1-2")))),
        Ok(Completion::Stored)
    );
    assert_eq!(feed(queue.enqueue(&event), written(Reply::Pushed)), Ok(Completion::Stored));
}

#[test]
fn commands_of_await_in_their_order() {
    let mut queue = EventQueue::new("q", "redis://127.0.0.1");
    let request = ServiceEvent::with_uuid(0x1f, 2, "ask", None);
    let response = ServiceEvent::new_response(&request, "answer", None);
    let second = 1_000_000_000;
    let record = |id: &str, uuid: &str, key: &str| LogEntry {
        id: String::from(id),
        fields: vec![(String::from(uuid), String::from(key))],
    };
    let replies = vec![
        Reply::Connected,
        Reply::Time(7),
        Reply::Entries(vec![record("3-0", "someone", "2-0")]),
        Reply::Encoded(String::from("request")),
        Reply::Appended(String::from("4-0")),
        Reply::Pushed,
        Reply::Batches(vec![]),
        Reply::Time(7 + second),
        Reply::Batches(vec![LogBatch {
            log: String::from("q(response_stream)"),
            entries: vec![record("5-0", "someone", "2-1"), record("5-1", "else", "2-2")],
        }]),
        Reply::Time(7 + 2 * second - 1),
        Reply::Batches(vec![LogBatch {
            log: String::from("q(response_stream)"),
            entries: vec![
                record("6-0", "00000000-0000-0000-0000-00000000001f", "5-7"),
                record("6-1", "else", "2-3"),
            ],
        }]),
        Reply::Entries(vec![LogEntry {
            id: String::from("5-7"),
            fields: vec![(String::from("response"), String::from("text"))],
        }]),
        Reply::Decoded(response.clone()),
    ];
    let expected = vec![
        Command::Connect,
        Command::ReadClock,
        Command::ReadLatest { log: String::from("q(response_stream)") },
        Command::Encode { event: request.clone() },
        Command::Append {
            log: String::from("q(event_stream)"),
            field: String::from("event"),
            value: String::from("request"),
        },
        Command::PushLeft { list: String::from("q(queue)"), value: String::from("4-0") },
        Command::TailFrom { log: String::from("q(response_stream)"), after: String::from("3-0") },
        Command::ReadClock,
        Command::TailFrom { log: String::from("q(response_stream)"), after: String::from("3-0") },
        Command::ReadClock,
        Command::TailFrom { log: String::from("q(response_stream)"), after: String::from("5-1") },
        Command::ReadRange {
            log: String::from("q(event_stream)"),
            first: String::from("5-7"),
            last: String::from("5-7"),
            limit: 1,
        },
        Command::Decode { text: String::from("text") },
    ];

    let mut progress = queue.await_response(&request);
    let mut commands = vec![];
    for reply in replies {
        progress = match progress {
            Progress::Ask(exchange, command) => {
                commands.push(command);
                exchange.step(reply)
            }
            Progress::Done(outcome) => panic!("the exchange is over: {:?}", outcome),
        };
    }

    assert_eq!(commands, expected);
    match progress {
        Progress::Done(Ok(Completion::Received(stamped))) => {
            assert_eq!(stamped.get_timestamp(), 5);
            assert_eq!(stamped.get_event(), &response);
        }
        _ => panic!("nothing was received"),
    }
}
