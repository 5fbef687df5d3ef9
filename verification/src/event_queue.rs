//! The queue: which broker resources it uses, and the exchanges that it
//! starts on them.

pub mod exchange;
pub mod reading;
pub mod service_event;

use vstd::prelude::*;
use vstd::string::*;
use crate::name_generator::{
    event_stream_name, generate_event_stream_name, generate_message_queue_name,
    generate_response_stream_name, message_queue_name, response_stream_name,
};
use crate::correlation::{hyphenated, id_text};
use crate::broker::CommandView;
use crate::event_key::{key_timestamp, timestamp_of_key};
use crate::event_queue::exchange::{opening, Exchange, Operation, Progress, ProgressView};
use crate::event_queue::service_event::{ServiceEvent, ServiceEventView};

verus! {

/// Why an exchange with the broker came to nothing.
#[derive(Debug, PartialEq)]
pub enum EventQueueError {
    /// No session to the broker could be opened.
    ConnectionError(String),
    /// The event could not be turned into text.
    JSONDumpError(String),
    /// A log entry held no event.
    JSONParseError(String),
    /// The broker did not take the event in.
    EnqueueError(String),
    /// The broker did not hand the event out, or what it handed out had
    /// another shape than the queue gives its entries.
    DequeueError(String),
    /// The list of pending work is empty.
    EmptyQueue,
    /// No response came within the event's timeout.
    TimeoutExpired,
}

pub enum EventQueueErrorView {
    ConnectionError(Seq<char>),
    JSONDumpError(Seq<char>),
    JSONParseError(Seq<char>),
    EnqueueError(Seq<char>),
    DequeueError(Seq<char>),
    EmptyQueue,
    TimeoutExpired,
}

impl View for EventQueueError {
    type V = EventQueueErrorView;

    open spec fn view(&self) -> EventQueueErrorView {
        match *self {
            EventQueueError::ConnectionError(reason) => EventQueueErrorView::ConnectionError(
                reason@,
            ),
            EventQueueError::JSONDumpError(reason) => EventQueueErrorView::JSONDumpError(reason@),
            EventQueueError::JSONParseError(reason) => EventQueueErrorView::JSONParseError(reason@),
            EventQueueError::EnqueueError(reason) => EventQueueErrorView::EnqueueError(reason@),
            EventQueueError::DequeueError(reason) => EventQueueErrorView::DequeueError(reason@),
            EventQueueError::EmptyQueue => EventQueueErrorView::EmptyQueue,
            EventQueueError::TimeoutExpired => EventQueueErrorView::TimeoutExpired,
        }
    }
}

pub type EventQueueResult<T> = Result<T, EventQueueError>;

/// The time at which the broker took an entry in, in milliseconds.
pub type Timestamp = u64;

/// An event as it came out of the event log, with the time at which the
/// broker took it in.
#[derive(Debug, PartialEq)]
pub struct TimestampedEvent(u64, ServiceEvent);

impl View for TimestampedEvent {
    type V = (u64, ServiceEventView);

    closed spec fn view(&self) -> (u64, ServiceEventView) {
        (self.0, self.1@)
    }
}

impl TimestampedEvent {
    pub(crate) fn stamp(timestamp: u64, event: ServiceEvent) -> (stamped: Self)
        ensures
            stamped@ == (timestamp, event@),
    {
        TimestampedEvent(timestamp, event)
    }

    pub fn get_timestamp(&self) -> (timestamp: u64)
        ensures
            timestamp == self@.0,
    {
        self.0
    }

    pub fn get_event(&self) -> (event: &ServiceEvent)
        ensures
            event@ == self@.1,
    {
        &self.1
    }
}

/// What the queue with the logical name `name` on the broker at `url` holds.
pub open spec fn resources(name: Seq<char>, url: Seq<char>) -> EventQueueView {
    EventQueueView {
        connection_url: url,
        queue_name: message_queue_name(name),
        stream_name: event_stream_name(name),
        response_stream_name: response_stream_name(name),
    }
}

/// A queue of events on a broker.
///
/// The queue holds the url of the broker and the names of its three
/// resources there: the list of pending work, the log of event bodies, and
/// the log that files each response under the uuid of its request.
pub struct EventQueue {
    connection_url: String,
    queue_name: String,
    stream_name: String,
    response_stream_name: String,
}

pub struct EventQueueView {
    pub connection_url: Seq<char>,
    pub queue_name: Seq<char>,
    pub stream_name: Seq<char>,
    pub response_stream_name: Seq<char>,
}

impl View for EventQueue {
    type V = EventQueueView;

    closed spec fn view(&self) -> EventQueueView {
        EventQueueView {
            connection_url: self.connection_url@,
            queue_name: self.queue_name@,
            stream_name: self.stream_name@,
            response_stream_name: self.response_stream_name@,
        }
    }
}

impl EventQueue {
    /// The queue with the logical name `queue_name` on the broker at
    /// `connection_url`.
    pub fn new(queue_name: &str, connection_url: &str) -> (queue: Self)
        ensures
            queue@ == resources(queue_name@, connection_url@),
    {
        EventQueue {
            connection_url: String::from_str(connection_url),
            queue_name: generate_message_queue_name(queue_name),
            stream_name: generate_event_stream_name(queue_name),
            response_stream_name: generate_response_stream_name(queue_name),
        }
    }

    /// The exchange that `operation` begins on this queue.
    pub open spec fn begins(
        self,
        operation: Operation,
        event: Option<ServiceEventView>,
        wait: u16,
        target: Seq<char>,
    ) -> ProgressView {
        ProgressView::Ask(
            opening(
                operation,
                self@.queue_name,
                self@.stream_name,
                self@.response_stream_name,
                event,
                wait,
                target,
            ),
            CommandView::Connect,
        )
    }

    fn begin(
        &self,
        operation: Operation,
        event: Option<ServiceEvent>,
        wait: u16,
        target: String,
    ) -> (progress: Progress)
        ensures
            progress@ == self.begins(
                operation,
                match event {
                    Some(e) => Some(e@),
                    None => None,
                },
                wait,
                target@,
            ),
    {
        Exchange::begin(
            operation,
            self.queue_name.clone(),
            self.stream_name.clone(),
            self.response_stream_name.clone(),
            event,
            wait,
            target,
        )
    }

    /// Begins the exchange that puts `event` on the queue: its text goes to
    /// the event log, and the id of that entry onto the list.
    pub fn enqueue(&mut self, event: &ServiceEvent) -> (progress: Progress)
        ensures
            *final(self) == *old(self),
            progress@ == old(self).begins(Operation::Enqueue, Some(event@), 0, Seq::empty()),
    {
        self.begin(Operation::Enqueue, Some(event.clone()), 0, String::new())
    }

    /// Begins the exchange that takes the oldest event off the queue, or
    /// finds the queue empty.
    pub fn dequeue(&mut self) -> (progress: Progress)
        ensures
            *final(self) == *old(self),
            progress@ == old(self).begins(Operation::Dequeue, None, 0, Seq::empty()),
    {
        self.begin(Operation::Dequeue, None, 0, String::new())
    }

    /// Begins the exchange that takes the oldest event off the queue, and
    /// waits for one for up to `timeout` seconds.
    pub fn dequeue_blocking(&mut self, timeout: u16) -> (progress: Progress)
        ensures
            *final(self) == *old(self),
            progress@ == old(self).begins(Operation::DequeueBlocking, None, timeout, Seq::empty()),
    {
        self.begin(Operation::DequeueBlocking, None, timeout, String::new())
    }

    /// Begins the exchange that answers a request: the text of `event` goes
    /// to the event log, and the response log files the id of that entry
    /// under the uuid of `event`.
    pub fn enqueue_response(&mut self, event: &ServiceEvent) -> (progress: Progress)
        ensures
            *final(self) == *old(self),
            progress@ == old(self).begins(
                Operation::EnqueueResponse,
                Some(event@),
                0,
                hyphenated(event@.request_uuid),
            ),
    {
        let target = id_text(event.get_uuid());
        self.begin(Operation::EnqueueResponse, Some(event.clone()), 0, target)
    }

    /// Begins the exchange that puts `event` on the queue and waits, for
    /// the event's timeout, until the response log files an entry under the
    /// uuid of `event`.
    pub fn await_response(&mut self, event: &ServiceEvent) -> (progress: Progress)
        ensures
            *final(self) == *old(self),
            progress@ == old(self).begins(
                Operation::AwaitResponse,
                Some(event@),
                0,
                hyphenated(event@.request_uuid),
            ),
    {
        let target = id_text(event.get_uuid());
        self.begin(Operation::AwaitResponse, Some(event.clone()), 0, target)
    }

    /// The timestamp of the entry id `event_key`.
    pub fn extract_timestamp_from_event_key(event_key: &str) -> (timestamp: u64)
        requires
            key_timestamp(event_key@) is Some,
        ensures
            key_timestamp(event_key@) == Some(timestamp),
    {
        timestamp_of_key(event_key).unwrap()
    }

    /// Where the broker is.
    pub fn connection_url(&self) -> (url: &str)
        ensures
            url@ == self@.connection_url,
    {
        self.connection_url.as_str()
    }
}

} // verus!
