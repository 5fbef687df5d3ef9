//! One exchange with the broker, step by step.
//!
//! An exchange is what one call on the queue amounts to: a short run of
//! commands, each chosen from the replies to the ones before it. `step` takes
//! the reply to the last command and gives the next one, or the outcome.

use vstd::prelude::*;
use vstd::string::*;
use crate::broker::{
    batches_view, entries_view, Command, CommandView, LogBatch, LogBatchView, LogEntry,
    LogEntryView, Reply, ReplyView,
};
use crate::event_key::{id_timestamp, is_entry_id, key_timestamp, timestamp_of_key};
use crate::event_queue::reading::{
    fetched_body, last_entry_id, last_seen, read_body, scan, scan_entries,
};
use crate::event_queue::service_event::{ServiceEvent, ServiceEventView};
use crate::event_queue::{EventQueueError, EventQueueErrorView, TimestampedEvent};

verus! {

/// What a call on the queue is for.
#[derive(Clone, Copy, Debug, PartialEq, Eq, Structural)]
pub enum Operation {
    Enqueue,
    EnqueueResponse,
    Dequeue,
    DequeueBlocking,
    AwaitResponse,
}

/// Which reply an exchange waits for.
#[derive(Clone, Copy, Debug, PartialEq, Eq, Structural)]
pub enum Phase {
    /// The session is being opened.
    Connecting,
    /// The clock is being read for the first time.
    Starting,
    /// The newest entry of the response log is being read.
    Locating,
    /// The event is being turned into text.
    Encoding,
    /// The event's text is being appended to the event log.
    Appending,
    /// The id of the new entry is being pushed onto the list, or filed in
    /// the response log.
    Linking,
    /// The tail of the list is being popped.
    Popping,
    /// The response log is being read from the cursor on.
    Polling,
    /// The clock is being read between two reads of the response log.
    Waiting,
    /// An entry of the event log is being read.
    Fetching,
    /// The entry's text is being turned into an event.
    Decoding,
}

/// The state of an exchange between two steps.
#[derive(Debug)]
pub struct Exchange {
    operation: Operation,
    phase: Phase,
    queue_name: String,
    stream_name: String,
    response_stream_name: String,
    event: Option<ServiceEvent>,
    wait: u16,
    target: String,
    timeout: u16,
    started: u128,
    cursor: String,
    key: String,
}

pub struct ExchangeView {
    pub operation: Operation,
    pub phase: Phase,
    /// The list of pending work.
    pub queue_name: Seq<char>,
    /// The event log.
    pub stream_name: Seq<char>,
    /// The response log.
    pub response_stream_name: Seq<char>,
    /// The event that is still to be sent.
    pub event: Option<ServiceEventView>,
    /// For how many seconds a blocking pop waits.
    pub wait: u16,
    /// The text of the uuid under which a response is filed or awaited.
    pub target: Seq<char>,
    /// For how many seconds a response is awaited.
    pub timeout: u16,
    /// The clock's reading when the wait for a response began.
    pub started: u128,
    /// The id of the last entry of the response log that was passed over.
    pub cursor: Seq<char>,
    /// The id of the entry of the event log that is handed out.
    pub key: Seq<char>,
}

impl View for Exchange {
    type V = ExchangeView;

    closed spec fn view(&self) -> ExchangeView {
        ExchangeView {
            operation: self.operation,
            phase: self.phase,
            queue_name: self.queue_name@,
            stream_name: self.stream_name@,
            response_stream_name: self.response_stream_name@,
            event: match self.event {
                Some(event) => Some(event@),
                None => None,
            },
            wait: self.wait,
            target: self.target@,
            timeout: self.timeout,
            started: self.started,
            cursor: self.cursor@,
            key: self.key@,
        }
    }
}

/// What an exchange that went well leaves.
#[derive(Debug, PartialEq)]
pub enum Completion {
    /// The event is on the broker.
    Stored,
    /// The event came from the broker.
    Received(TimestampedEvent),
}

pub enum CompletionView {
    Stored,
    Received((u64, ServiceEventView)),
}

impl View for Completion {
    type V = CompletionView;

    open spec fn view(&self) -> CompletionView {
        match *self {
            Completion::Stored => CompletionView::Stored,
            Completion::Received(stamped) => CompletionView::Received(stamped@),
        }
    }
}

/// Where an exchange stands after a step.
#[derive(Debug)]
pub enum Progress {
    /// The command is due; its reply goes to the next step of the exchange.
    Ask(Exchange, Command),
    /// The exchange is over.
    Done(Result<Completion, EventQueueError>),
}

pub enum ProgressView {
    Ask(ExchangeView, CommandView),
    Done(Result<CompletionView, EventQueueErrorView>),
}

impl View for Progress {
    type V = ProgressView;

    open spec fn view(&self) -> ProgressView {
        match *self {
            Progress::Ask(exchange, command) => ProgressView::Ask(exchange@, command@),
            Progress::Done(outcome) => ProgressView::Done(
                match outcome {
                    Ok(completion) => Ok(completion@),
                    Err(error) => Err(error@),
                },
            ),
        }
    }
}

/// The number of nanoseconds in a second.
pub const NANOS_PER_SECOND: u128 = 1_000_000_000;

/// The error that a failed command of the phase `phase` stands for.
pub open spec fn failure(phase: Phase, reason: Seq<char>) -> EventQueueErrorView {
    match phase {
        Phase::Connecting => EventQueueErrorView::ConnectionError(reason),
        Phase::Encoding => EventQueueErrorView::JSONDumpError(reason),
        Phase::Appending => EventQueueErrorView::EnqueueError(reason),
        Phase::Linking => EventQueueErrorView::EnqueueError(reason),
        Phase::Decoding => EventQueueErrorView::JSONParseError(reason),
        _ => EventQueueErrorView::DequeueError(reason),
    }
}

/// The end of the exchange `x` by a command that failed for `reason`.
pub open spec fn fail(x: ExchangeView, reason: Seq<char>) -> ProgressView {
    ProgressView::Done(Err(failure(x.phase, reason)))
}

/// The end of the exchange `x` by a reply that answers another command than
/// the last one.
pub open spec fn unexpected(x: ExchangeView) -> ProgressView {
    fail(x, "unexpected reply"@)
}

/// Whether the exchange files a response: its second entry goes to the
/// response log, not onto the list.
pub open spec fn files_response(operation: Operation) -> bool {
    operation == Operation::EnqueueResponse
}

/// Whether the exchange pops with a wait.
pub open spec fn blocks(operation: Operation) -> bool {
    operation == Operation::DequeueBlocking
}

/// The name of the field under which the event log takes a body in.
pub open spec fn written_field(operation: Operation) -> Seq<char> {
    if operation == Operation::EnqueueResponse {
        "response"@
    } else {
        "event"@
    }
}

/// The name of the field from which the event log hands a body out.
pub open spec fn read_field(operation: Operation) -> Seq<char> {
    if operation == Operation::AwaitResponse {
        "response"@
    } else {
        "event"@
    }
}

/// Whether a wait that began at the reading `started` and is to last
/// `timeout` seconds still goes on at the reading `now`.
pub open spec fn within_timeout(started: u128, now: u128, timeout: u16) -> bool {
    now - started < timeout * NANOS_PER_SECOND
}

/// The exchange hands out its event, to be turned into text.
pub open spec fn ask_encode(x: ExchangeView) -> ProgressView {
    match x.event {
        Some(event) => ProgressView::Ask(
            ExchangeView { phase: Phase::Encoding, event: None, ..x },
            CommandView::Encode { event },
        ),
        None => ProgressView::Done(
            Err(EventQueueErrorView::JSONDumpError("no event to encode"@)),
        ),
    }
}

/// The exchange pops the tail of the list: with its wait where it blocks,
/// without one where it does not.
pub open spec fn ask_pop(x: ExchangeView) -> ProgressView {
    ProgressView::Ask(
        ExchangeView { phase: Phase::Popping, ..x },
        CommandView::PopRight {
            list: x.queue_name,
            wait: if blocks(x.operation) {
                Some(x.wait)
            } else {
                None
            },
        },
    )
}

/// The exchange reads the response log from behind its cursor on.
pub open spec fn ask_tail(x: ExchangeView) -> ProgressView {
    ProgressView::Ask(
        ExchangeView { phase: Phase::Polling, ..x },
        CommandView::TailFrom { log: x.response_stream_name, after: x.cursor },
    )
}

/// The exchange reads the clock before it looks at the response log again.
pub open spec fn ask_clock(x: ExchangeView) -> ProgressView {
    ProgressView::Ask(ExchangeView { phase: Phase::Waiting, ..x }, CommandView::ReadClock)
}

/// The exchange reads the entry `key` of the event log, and no other.
pub open spec fn ask_fetch(x: ExchangeView, key: Seq<char>) -> ProgressView {
    ProgressView::Ask(
        ExchangeView { phase: Phase::Fetching, key, ..x },
        CommandView::ReadRange { log: x.stream_name, first: key, last: key, limit: 1 },
    )
}

/// With a session, an exchange that stores encodes first, one that takes
/// pops, and one that awaits a response reads the clock.
pub open spec fn after_connect(x: ExchangeView) -> ProgressView {
    match x.operation {
        Operation::Enqueue => ask_encode(x),
        Operation::EnqueueResponse => ask_encode(x),
        Operation::Dequeue => ask_pop(x),
        Operation::DequeueBlocking => ask_pop(x),
        Operation::AwaitResponse => ProgressView::Ask(
            ExchangeView { phase: Phase::Starting, ..x },
            CommandView::ReadClock,
        ),
    }
}

/// The wait for a response begins at the first reading of the clock. Next
/// the exchange reads the newest entry of the response log.
pub open spec fn after_start(x: ExchangeView, now: u128) -> ProgressView {
    ProgressView::Ask(
        ExchangeView { phase: Phase::Locating, started: now, ..x },
        CommandView::ReadLatest { log: x.response_stream_name },
    )
}

/// The cursor starts at the newest entry of the response log: what the log
/// holds up to there was filed before the request is sent. Next the request is
/// sent, as `enqueue` sends an event.
pub open spec fn after_locate(x: ExchangeView, entries: Seq<LogEntryView>) -> ProgressView {
    match last_seen(entries) {
        Ok(id) => ask_encode(ExchangeView { cursor: id, ..x }),
        Err(error) => ProgressView::Done(Err(error)),
    }
}

/// The text of the event goes to the event log.
pub open spec fn after_encode(x: ExchangeView, body: Seq<char>) -> ProgressView {
    ProgressView::Ask(
        ExchangeView { phase: Phase::Appending, ..x },
        CommandView::Append {
            log: x.stream_name,
            field: written_field(x.operation),
            value: body,
        },
    )
}

/// The id that the broker gave the entry goes onto the list; that of a
/// response goes to the response log, filed under the uuid of the request.
pub open spec fn after_append(x: ExchangeView, id: Seq<char>) -> ProgressView {
    if files_response(x.operation) {
        ProgressView::Ask(
            ExchangeView { phase: Phase::Linking, ..x },
            CommandView::Append { log: x.response_stream_name, field: x.target, value: id },
        )
    } else {
        ProgressView::Ask(
            ExchangeView { phase: Phase::Linking, ..x },
            CommandView::PushLeft { list: x.queue_name, value: id },
        )
    }
}

/// With both writes done the event is stored. An exchange that awaits a
/// response turns to the response log.
pub open spec fn after_link(x: ExchangeView) -> ProgressView {
    if x.operation == Operation::AwaitResponse {
        ask_tail(x)
    } else {
        ProgressView::Done(Ok(CompletionView::Stored))
    }
}

/// What the pop took is the id of an entry of the event log, which the
/// exchange reads next. Where it took nothing the queue is empty.
pub open spec fn after_pop(x: ExchangeView, key: Option<Seq<char>>) -> ProgressView {
    match key {
        Some(key) => ask_fetch(x, key),
        None => ProgressView::Done(Err(EventQueueErrorView::EmptyQueue)),
    }
}

/// The news of the response log.
///
/// Without news the exchange reads the clock. News must come from the response
/// log; the pass over them moves the cursor and may find the key of the
/// response, which the exchange then reads from the event log. Without a find
/// it reads the clock.
pub open spec fn after_tail(x: ExchangeView, batches: Seq<LogBatchView>) -> ProgressView {
    if batches.len() == 0 {
        ask_clock(x)
    } else if batches[0].log != x.response_stream_name {
        ProgressView::Done(
            Err(EventQueueErrorView::DequeueError("invalid stream name in response map"@)),
        )
    } else {
        match scan(batches[0].entries, x.target, x.cursor) {
            Ok(pass) => match pass.found {
                Some(key) => ask_fetch(ExchangeView { cursor: pass.cursor, ..x }, key),
                None => ask_clock(ExchangeView { cursor: pass.cursor, ..x }),
            },
            Err(error) => ProgressView::Done(Err(error)),
        }
    }
}

/// As long as the timeout is not over the exchange looks at the response
/// log again; after that it gives up.
pub open spec fn after_clock(x: ExchangeView, now: u128) -> ProgressView {
    if within_timeout(x.started, now, x.timeout) {
        ask_tail(x)
    } else {
        ProgressView::Done(Err(EventQueueErrorView::TimeoutExpired))
    }
}

/// The body of the entry is turned into an event next.
pub open spec fn after_fetch(x: ExchangeView, entries: Seq<LogEntryView>) -> ProgressView {
    match fetched_body(entries, x.key, read_field(x.operation)) {
        Ok(text) => ProgressView::Ask(
            ExchangeView { phase: Phase::Decoding, ..x },
            CommandView::Decode { text },
        ),
        Err(error) => ProgressView::Done(Err(error)),
    }
}

/// The event is handed out with the timestamp of its entry's id. An id that
/// carries none ends the exchange with an error.
pub open spec fn after_decode(x: ExchangeView, event: ServiceEventView) -> ProgressView {
    match key_timestamp(x.key) {
        Some(timestamp) => ProgressView::Done(Ok(CompletionView::Received((timestamp, event)))),
        None => ProgressView::Done(Err(EventQueueErrorView::DequeueError("invalid event key"@))),
    }
}

/// Where the exchange `x` stands after the reply `reply` to its last command.
///
/// A reply of another kind than the command asks for ends the exchange like
/// a failed command.
pub open spec fn step_spec(x: ExchangeView, reply: ReplyView) -> ProgressView {
    match (x.phase, reply) {
        (_, ReplyView::Failed(reason)) => fail(x, reason),
        (Phase::Connecting, ReplyView::Connected) => after_connect(x),
        (Phase::Starting, ReplyView::Time(now)) => after_start(x, now),
        (Phase::Locating, ReplyView::Entries(entries)) => after_locate(x, entries),
        (Phase::Encoding, ReplyView::Encoded(body)) => after_encode(x, body),
        (Phase::Appending, ReplyView::Appended(id)) => after_append(x, id),
        (Phase::Linking, ReplyView::Pushed) => if files_response(x.operation) {
            unexpected(x)
        } else {
            after_link(x)
        },
        (Phase::Linking, ReplyView::Appended(_)) => if files_response(x.operation) {
            after_link(x)
        } else {
            unexpected(x)
        },
        (Phase::Popping, ReplyView::Popped(key)) => if blocks(x.operation) {
            unexpected(x)
        } else {
            after_pop(x, key)
        },
        (Phase::Popping, ReplyView::PoppedFrom(taken)) => if blocks(x.operation) {
            after_pop(
                x,
                match taken {
                    Some(pair) => Some(pair.1),
                    None => None,
                },
            )
        } else {
            unexpected(x)
        },
        (Phase::Polling, ReplyView::Batches(batches)) => after_tail(x, batches),
        (Phase::Waiting, ReplyView::Time(now)) => after_clock(x, now),
        (Phase::Fetching, ReplyView::Entries(entries)) => after_fetch(x, entries),
        (Phase::Decoding, ReplyView::Decoded(event)) => after_decode(x, event),
        _ => unexpected(x),
    }
}

/// A pass over entries fails with a `DequeueError` only.
proof fn lemma_scan_fails_as_dequeue(
    entries: Seq<LogEntryView>,
    target: Seq<char>,
    cursor: Seq<char>,
)
    ensures
        scan(entries, target, cursor) is Err ==> scan(entries, target, cursor)->Err_0
            is DequeueError,
    decreases entries.len(),
{
    if entries.len() > 0 && entries[0].fields.len() > 0 && entries[0].fields[0].0 != target {
        lemma_scan_fails_as_dequeue(entries.drop_first(), target, entries[0].id);
    }
}

/// An exchange ends with `TimeoutExpired` at a reading of the clock between
/// two looks at the response log, at which the timeout is over, and at no
/// other step.
pub proof fn lemma_timeout_expires_by_the_clock(x: ExchangeView, reply: ReplyView)
    ensures
        step_spec(x, reply) == ProgressView::Done(Err(EventQueueErrorView::TimeoutExpired)) <==> {
            &&& x.phase == Phase::Waiting
            &&& reply is Time
            &&& reply->Time_0 - x.started >= x.timeout * NANOS_PER_SECOND
        },
{
    match reply {
        ReplyView::Batches(batches) => {
            if batches.len() > 0 {
                lemma_scan_fails_as_dequeue(batches[0].entries, x.target, x.cursor);
            }
        },
        _ => {},
    }
}

/// An exchange ends with `EmptyQueue` where the pop brought nothing, and at
/// no other step.
pub proof fn lemma_queue_is_empty_by_the_pop(x: ExchangeView, reply: ReplyView)
    ensures
        step_spec(x, reply) == ProgressView::Done(Err(EventQueueErrorView::EmptyQueue)) <==> {
            &&& x.phase == Phase::Popping
            &&& if blocks(x.operation) {
                reply == ReplyView::PoppedFrom(None)
            } else {
                reply == ReplyView::Popped(None)
            }
        },
{
    match reply {
        ReplyView::Batches(batches) => {
            if batches.len() > 0 {
                lemma_scan_fails_as_dequeue(batches[0].entries, x.target, x.cursor);
            }
        },
        _ => {},
    }
}

/// An exchange ends with an event stored at one step only: when the second
/// of its two writes is done, and it is not one that awaits a response.
pub proof fn lemma_event_is_stored_by_two_writes(x: ExchangeView, reply: ReplyView)
    ensures
        step_spec(x, reply) == ProgressView::Done(Ok(CompletionView::Stored)) <==> {
            &&& x.phase == Phase::Linking
            &&& x.operation != Operation::AwaitResponse
            &&& if files_response(x.operation) {
                reply is Appended
            } else {
                reply is Pushed
            }
        },
{
}

/// An exchange hands out an event at one step only: when the text of a log
/// entry was turned into that event. The timestamp that goes with it is the
/// number before the hyphen of the entry's id.
pub proof fn lemma_event_comes_with_timestamp_of_its_id(
    x: ExchangeView,
    reply: ReplyView,
    timestamp: u64,
    event: ServiceEventView,
)
    ensures
        step_spec(x, reply) == ProgressView::Done(
            Ok(CompletionView::Received((timestamp, event))),
        ) <==> {
            &&& x.phase == Phase::Decoding
            &&& reply == ReplyView::Decoded(event)
            &&& is_entry_id(x.key)
            &&& id_timestamp(x.key) == timestamp
        },
{
}

/// The exchange for `operation` on the resources named, before its first
/// command.
pub open spec fn opening(
    operation: Operation,
    queue_name: Seq<char>,
    stream_name: Seq<char>,
    response_stream_name: Seq<char>,
    event: Option<ServiceEventView>,
    wait: u16,
    target: Seq<char>,
) -> ExchangeView {
    ExchangeView {
        operation,
        phase: Phase::Connecting,
        queue_name,
        stream_name,
        response_stream_name,
        event,
        wait,
        target,
        timeout: match event {
            Some(e) => e.timeout,
            None => 0,
        },
        started: 0,
        cursor: Seq::empty(),
        key: Seq::empty(),
    }
}

impl Exchange {
    /// Begins an exchange: its first command is to connect.
    pub(crate) fn begin(
        operation: Operation,
        queue_name: String,
        stream_name: String,
        response_stream_name: String,
        event: Option<ServiceEvent>,
        wait: u16,
        target: String,
    ) -> (progress: Progress)
        ensures
            progress@ == ProgressView::Ask(
                opening(
                    operation,
                    queue_name@,
                    stream_name@,
                    response_stream_name@,
                    match event {
                        Some(e) => Some(e@),
                        None => None,
                    },
                    wait,
                    target@,
                ),
                CommandView::Connect,
            ),
    {
        let timeout = match &event {
            Some(e) => e.get_timeout(),
            None => 0,
        };
        let exchange = Exchange {
            operation,
            phase: Phase::Connecting,
            queue_name,
            stream_name,
            response_stream_name,
            event,
            wait,
            target,
            timeout,
            started: 0,
            cursor: String::new(),
            key: String::new(),
        };
        Progress::Ask(exchange, Command::Connect)
    }

    /// The error that a failed command of the phase `phase` stands for.
    fn error_of(phase: Phase, reason: String) -> (error: EventQueueError)
        ensures
            error@ == failure(phase, reason@),
    {
        match phase {
            Phase::Connecting => EventQueueError::ConnectionError(reason),
            Phase::Encoding => EventQueueError::JSONDumpError(reason),
            Phase::Appending => EventQueueError::EnqueueError(reason),
            Phase::Linking => EventQueueError::EnqueueError(reason),
            Phase::Decoding => EventQueueError::JSONParseError(reason),
            _ => EventQueueError::DequeueError(reason),
        }
    }

    fn unexpected(phase: Phase) -> (progress: Progress)
        ensures
            progress@ == ProgressView::Done(Err(failure(phase, "unexpected reply"@))),
    {
        Progress::Done(Err(Self::error_of(phase, String::from_str("unexpected reply"))))
    }

    fn request_encode(self) -> (progress: Progress)
        ensures
            progress@ == ask_encode(self@),
    {
        let mut next = self;
        match next.event.take() {
            Some(event) => {
                next.phase = Phase::Encoding;
                Progress::Ask(next, Command::Encode { event })
            },
            None => Progress::Done(
                Err(EventQueueError::JSONDumpError(String::from_str("no event to encode"))),
            ),
        }
    }

    fn request_pop(self) -> (progress: Progress)
        ensures
            progress@ == ask_pop(self@),
    {
        let wait = if self.operation == Operation::DequeueBlocking {
            Some(self.wait)
        } else {
            None
        };
        let command = Command::PopRight { list: self.queue_name.clone(), wait };
        Progress::Ask(Exchange { phase: Phase::Popping, ..self }, command)
    }

    fn request_tail(self) -> (progress: Progress)
        ensures
            progress@ == ask_tail(self@),
    {
        let command = Command::TailFrom {
            log: self.response_stream_name.clone(),
            after: self.cursor.clone(),
        };
        Progress::Ask(Exchange { phase: Phase::Polling, ..self }, command)
    }

    fn request_clock(self) -> (progress: Progress)
        ensures
            progress@ == ask_clock(self@),
    {
        Progress::Ask(Exchange { phase: Phase::Waiting, ..self }, Command::ReadClock)
    }

    fn request_fetch(self, key: String) -> (progress: Progress)
        ensures
            progress@ == ask_fetch(self@, key@),
    {
        let command = Command::ReadRange {
            log: self.stream_name.clone(),
            first: key.clone(),
            last: key.clone(),
            limit: 1,
        };
        Progress::Ask(Exchange { phase: Phase::Fetching, key, ..self }, command)
    }

    fn on_connect(self) -> (progress: Progress)
        ensures
            progress@ == after_connect(self@),
    {
        match self.operation {
            Operation::Enqueue => self.request_encode(),
            Operation::EnqueueResponse => self.request_encode(),
            Operation::Dequeue => self.request_pop(),
            Operation::DequeueBlocking => self.request_pop(),
            Operation::AwaitResponse => Progress::Ask(
                Exchange { phase: Phase::Starting, ..self },
                Command::ReadClock,
            ),
        }
    }

    fn on_start(self, now: u128) -> (progress: Progress)
        ensures
            progress@ == after_start(self@, now),
    {
        let command = Command::ReadLatest { log: self.response_stream_name.clone() };
        Progress::Ask(Exchange { phase: Phase::Locating, started: now, ..self }, command)
    }

    fn on_locate(self, entries: Vec<LogEntry>) -> (progress: Progress)
        ensures
            progress@ == after_locate(self@, entries_view(entries@)),
    {
        match last_entry_id(&entries) {
            Ok(id) => (Exchange { cursor: id, ..self }).request_encode(),
            Err(error) => Progress::Done(Err(error)),
        }
    }

    fn on_encode(self, body: String) -> (progress: Progress)
        ensures
            progress@ == after_encode(self@, body@),
    {
        let field = if self.operation == Operation::EnqueueResponse {
            String::from_str("response")
        } else {
            String::from_str("event")
        };
        let command = Command::Append { log: self.stream_name.clone(), field, value: body };
        Progress::Ask(Exchange { phase: Phase::Appending, ..self }, command)
    }

    fn on_append(self, id: String) -> (progress: Progress)
        ensures
            progress@ == after_append(self@, id@),
    {
        let command = if self.operation == Operation::EnqueueResponse {
            Command::Append {
                log: self.response_stream_name.clone(),
                field: self.target.clone(),
                value: id,
            }
        } else {
            Command::PushLeft { list: self.queue_name.clone(), value: id }
        };
        Progress::Ask(Exchange { phase: Phase::Linking, ..self }, command)
    }

    fn on_link(self) -> (progress: Progress)
        ensures
            progress@ == after_link(self@),
    {
        if self.operation == Operation::AwaitResponse {
            self.request_tail()
        } else {
            Progress::Done(Ok(Completion::Stored))
        }
    }

    fn on_pop(self, key: Option<String>) -> (progress: Progress)
        ensures
            progress@ == after_pop(
                self@,
                match key {
                    Some(k) => Some(k@),
                    None => None,
                },
            ),
    {
        match key {
            Some(key) => self.request_fetch(key),
            None => Progress::Done(Err(EventQueueError::EmptyQueue)),
        }
    }

    fn on_tail(self, batches: Vec<LogBatch>) -> (progress: Progress)
        ensures
            progress@ == after_tail(self@, batches_view(batches@)),
    {
        if batches.len() == 0 {
            return self.request_clock();
        }
        let batch = &batches[0];
        assert(batches_view(batches@)[0] == batch@);
        if batch.log != self.response_stream_name {
            return Progress::Done(
                Err(
                    EventQueueError::DequeueError(
                        String::from_str("invalid stream name in response map"),
                    ),
                ),
            );
        }
        let mut next = self;
        let cursor = next.cursor.clone();
        match scan_entries(&batch.entries, &next.target, cursor) {
            Ok(pass) => {
                next.cursor = pass.cursor;
                match pass.found {
                    Some(key) => next.request_fetch(key),
                    None => next.request_clock(),
                }
            },
            Err(error) => Progress::Done(Err(error)),
        }
    }

    fn on_clock(self, now: u128) -> (progress: Progress)
        ensures
            progress@ == after_clock(self@, now),
    {
        if now < self.started || now - self.started < (self.timeout as u128) * NANOS_PER_SECOND {
            self.request_tail()
        } else {
            Progress::Done(Err(EventQueueError::TimeoutExpired))
        }
    }

    fn on_fetch(self, entries: Vec<LogEntry>) -> (progress: Progress)
        ensures
            progress@ == after_fetch(self@, entries_view(entries@)),
    {
        let field = if self.operation == Operation::AwaitResponse {
            String::from_str("response")
        } else {
            String::from_str("event")
        };
        match read_body(&entries, &self.key, &field) {
            Ok(text) => Progress::Ask(
                Exchange { phase: Phase::Decoding, ..self },
                Command::Decode { text },
            ),
            Err(error) => Progress::Done(Err(error)),
        }
    }

    fn on_decode(self, event: ServiceEvent) -> (progress: Progress)
        ensures
            progress@ == after_decode(self@, event@),
    {
        match timestamp_of_key(self.key.as_str()) {
            Some(timestamp) => Progress::Done(
                Ok(Completion::Received(TimestampedEvent::stamp(timestamp, event))),
            ),
            None => Progress::Done(
                Err(EventQueueError::DequeueError(String::from_str("invalid event key"))),
            ),
        }
    }

    /// Takes the reply to the last command and says what is due next.
    pub fn step(self, reply: Reply) -> (progress: Progress)
        ensures
            progress@ == step_spec(self@, reply@),
    {
        let phase = self.phase;
        match (phase, reply) {
            (_, Reply::Failed(reason)) => Progress::Done(Err(Self::error_of(phase, reason))),
            (Phase::Connecting, Reply::Connected) => self.on_connect(),
            (Phase::Starting, Reply::Time(now)) => self.on_start(now),
            (Phase::Locating, Reply::Entries(entries)) => self.on_locate(entries),
            (Phase::Encoding, Reply::Encoded(body)) => self.on_encode(body),
            (Phase::Appending, Reply::Appended(id)) => self.on_append(id),
            (Phase::Linking, Reply::Pushed) => if self.operation == Operation::EnqueueResponse {
                Self::unexpected(phase)
            } else {
                self.on_link()
            },
            (Phase::Linking, Reply::Appended(_)) => if self.operation
                == Operation::EnqueueResponse {
                self.on_link()
            } else {
                Self::unexpected(phase)
            },
            (Phase::Popping, Reply::Popped(key)) => if self.operation
                == Operation::DequeueBlocking {
                Self::unexpected(phase)
            } else {
                self.on_pop(key)
            },
            (Phase::Popping, Reply::PoppedFrom(taken)) => if self.operation
                == Operation::DequeueBlocking {
                match taken {
                    Some(pair) => self.on_pop(Some(pair.1)),
                    None => self.on_pop(None),
                }
            } else {
                Self::unexpected(phase)
            },
            (Phase::Polling, Reply::Batches(batches)) => self.on_tail(batches),
            (Phase::Waiting, Reply::Time(now)) => self.on_clock(now),
            (Phase::Fetching, Reply::Entries(entries)) => self.on_fetch(entries),
            (Phase::Decoding, Reply::Decoded(event)) => self.on_decode(event),
            _ => Self::unexpected(phase),
        }
    }
}

} // verus!
