//! A queue without responses, and events that borrow their texts.
//!
//! The interface runs the same exchanges as the event queue does, on a list
//! and an event log of its own naming. What comes out of an exchange is owned;
//! the types of this module lend it out.

pub mod service_event;

use vstd::prelude::*;
use vstd::string::*;
use crate::broker::CommandView;
use crate::event_key::key_timestamp;
use crate::event_queue::exchange::{opening, Exchange, Operation, Progress, ProgressView};
use crate::event_queue::service_event::ServiceEvent as OwnedEvent;
use crate::event_queue::service_event::ServiceEventView as OwnedEventView;
use crate::event_queue::{EventQueueError, EventQueueErrorView};
use crate::service_interface::service_event::{ServiceEvent, ServiceEventView};

verus! {

/// Why an exchange with the broker came to nothing.
#[derive(Debug, PartialEq)]
pub enum InterfaceError {
    ConnectionError(String),
    JSONDumpError(String),
    JSONParseError(String),
    EnqueueError(String),
    DequeueError(String),
    EmptyQueue,
    TimeoutExpired,
}

impl View for InterfaceError {
    type V = EventQueueErrorView;

    open spec fn view(&self) -> EventQueueErrorView {
        match *self {
            InterfaceError::ConnectionError(reason) => EventQueueErrorView::ConnectionError(
                reason@,
            ),
            InterfaceError::JSONDumpError(reason) => EventQueueErrorView::JSONDumpError(reason@),
            InterfaceError::JSONParseError(reason) => EventQueueErrorView::JSONParseError(reason@),
            InterfaceError::EnqueueError(reason) => EventQueueErrorView::EnqueueError(reason@),
            InterfaceError::DequeueError(reason) => EventQueueErrorView::DequeueError(reason@),
            InterfaceError::EmptyQueue => EventQueueErrorView::EmptyQueue,
            InterfaceError::TimeoutExpired => EventQueueErrorView::TimeoutExpired,
        }
    }
}

impl InterfaceError {
    /// The same error, as the interface names it.
    pub fn of(error: EventQueueError) -> (same: Self)
        ensures
            same@ == error@,
    {
        match error {
            EventQueueError::ConnectionError(reason) => InterfaceError::ConnectionError(reason),
            EventQueueError::JSONDumpError(reason) => InterfaceError::JSONDumpError(reason),
            EventQueueError::JSONParseError(reason) => InterfaceError::JSONParseError(reason),
            EventQueueError::EnqueueError(reason) => InterfaceError::EnqueueError(reason),
            EventQueueError::DequeueError(reason) => InterfaceError::DequeueError(reason),
            EventQueueError::EmptyQueue => InterfaceError::EmptyQueue,
            EventQueueError::TimeoutExpired => InterfaceError::TimeoutExpired,
        }
    }
}

pub type InterfaceResult<T> = Result<T, InterfaceError>;

/// An event as it came out of the event log, with the time at which the
/// broker took it in.
#[derive(Debug, PartialEq)]
pub struct TimestampedEvent<'a>(u64, ServiceEvent<'a>);

impl<'a> View for TimestampedEvent<'a> {
    type V = (u64, ServiceEventView);

    closed spec fn view(&self) -> (u64, ServiceEventView) {
        (self.0, self.1@)
    }
}

impl<'a> TimestampedEvent<'a> {
    /// Lends out an event that an exchange handed out: the same timestamp,
    /// and the same event with borrowed texts. The event itself bears no
    /// timestamp, as it bore none when it went onto the queue.
    pub fn of(stamped: &'a crate::event_queue::TimestampedEvent) -> (lent: Self)
        ensures
            lent@ == (
                stamped@.0,
                ServiceEventView {
                    request_uuid: stamped@.1.request_uuid,
                    timestamp: None,
                    timeout: stamped@.1.timeout,
                    action: stamped@.1.action,
                    payload: stamped@.1.payload,
                },
            ),
            lent@.1.owned() == stamped@.1,
    {
        let owned = stamped.get_event();
        let event = ServiceEvent::with_uuid(
            owned.get_uuid(),
            owned.get_timeout(),
            owned.get_action(),
            owned.borrow_payload(),
        );
        TimestampedEvent(stamped.get_timestamp(), event)
    }

    pub fn get_timestamp(&self) -> (timestamp: u64)
        ensures
            timestamp == self@.0,
    {
        self.0
    }

    pub fn get_event(&self) -> (event: &ServiceEvent<'a>)
        ensures
            event@ == self@.1,
    {
        &self.1
    }
}

/// The event log of the interface `name`.
pub open spec fn interface_stream_name(name: Seq<char>) -> Seq<char> {
    "stream"@ + name
}

/// A queue of events on a broker, without responses.
///
/// The list of pending work bears the interface's own name, the log of event
/// bodies that name behind the word `stream`.
pub struct ServiceInterface {
    connection_url: String,
    queue_name: String,
    stream_name: String,
}

pub struct ServiceInterfaceView {
    pub connection_url: Seq<char>,
    pub queue_name: Seq<char>,
    pub stream_name: Seq<char>,
}

impl View for ServiceInterface {
    type V = ServiceInterfaceView;

    closed spec fn view(&self) -> ServiceInterfaceView {
        ServiceInterfaceView {
            connection_url: self.connection_url@,
            queue_name: self.queue_name@,
            stream_name: self.stream_name@,
        }
    }
}

impl ServiceInterface {
    /// The interface with the name `queue_name` on the broker at
    /// `connection_url`.
    pub fn new(queue_name: &str, connection_url: &str) -> (interface: Self)
        ensures
            interface@ == (ServiceInterfaceView {
                connection_url: connection_url@,
                queue_name: queue_name@,
                stream_name: interface_stream_name(queue_name@),
            }),
    {
        ServiceInterface {
            connection_url: String::from_str(connection_url),
            queue_name: String::from_str(queue_name),
            stream_name: String::from_str("stream").concat(queue_name),
        }
    }

    /// The timestamp of the entry id `key`.
    pub fn extract_timestamp_from_event_key(key: &str) -> (timestamp: u64)
        requires
            key_timestamp(key@) is Some,
        ensures
            key_timestamp(key@) == Some(timestamp),
    {
        crate::event_queue::EventQueue::extract_timestamp_from_event_key(key)
    }

    /// Where the broker is.
    pub fn connection_url(&self) -> (url: &str)
        ensures
            url@ == self@.connection_url,
    {
        self.connection_url.as_str()
    }

    /// The list of pending work.
    pub fn queue_name(&self) -> (name: &str)
        ensures
            name@ == self@.queue_name,
    {
        self.queue_name.as_str()
    }

    /// The exchange that `operation` begins on this interface.
    pub open spec fn begins(
        self,
        operation: Operation,
        event: Option<OwnedEventView>,
        wait: u16,
    ) -> ProgressView {
        ProgressView::Ask(
            opening(
                operation,
                self@.queue_name,
                self@.stream_name,
                Seq::empty(),
                event,
                wait,
                Seq::empty(),
            ),
            CommandView::Connect,
        )
    }

    fn begin(&self, operation: Operation, event: Option<OwnedEvent>, wait: u16) -> (progress:
        Progress)
        ensures
            progress@ == self.begins(
                operation,
                match event {
                    Some(e) => Some(e@),
                    None => None,
                },
                wait,
            ),
    {
        Exchange::begin(
            operation,
            self.queue_name.clone(),
            self.stream_name.clone(),
            String::new(),
            event,
            wait,
            String::new(),
        )
    }

    /// Begins the exchange that puts `event` on the queue, without its
    /// timestamp.
    pub fn enqueue(&mut self, event: &ServiceEvent) -> (progress: Progress)
        ensures
            *final(self) == *old(self),
            progress@ == old(self).begins(Operation::Enqueue, Some(event@.owned()), 0),
    {
        self.begin(Operation::Enqueue, Some(event.to_owned_event()), 0)
    }

    /// Begins the exchange that takes the oldest event off the queue, or
    /// finds the queue empty.
    pub fn dequeue(&mut self) -> (progress: Progress)
        ensures
            *final(self) == *old(self),
            progress@ == old(self).begins(Operation::Dequeue, None, 0),
    {
        self.begin(Operation::Dequeue, None, 0)
    }

    /// Begins the exchange that takes the oldest event off the queue, and
    /// waits for one for up to `timeout` seconds.
    pub fn dequeue_blocking(&mut self, timeout: u16) -> (progress: Progress)
        ensures
            *final(self) == *old(self),
            progress@ == old(self).begins(Operation::DequeueBlocking, None, timeout),
    {
        self.begin(Operation::DequeueBlocking, None, timeout)
    }
}

} // verus!
