//! A message queue for services, on top of a broker that offers lists and
//! append logs.
//!
//! Services put events on a queue and take them off it, and a service can
//! await the response to an event that it sent. The broker knows nothing of
//! requests and responses: a response is an event with the uuid of its
//! request, which the queue files in a log of its own, and the service that
//! awaits it reads that log until its timeout is over.
//!
//! The library holds no session to the broker. A call on an `EventQueue`
//! begins an `Exchange` and names the first `Command`; the caller carries the
//! command out and hands the `Reply` to `Exchange::step`, which names the next
//! command or gives the outcome:
//!
//! ```text
//! let mut progress = queue.dequeue();
//! loop {
//!     match progress {
//!         Progress::Ask(exchange, command) => progress = exchange.step(perform(command)),
//!         Progress::Done(outcome) => return outcome,
//!     }
//! }
//! ```
//!
//! - `event_queue` holds the events, the queue and the exchanges;
//! - `broker` holds the commands and the replies;
//! - `event_key` reads the timestamp out of the id of a log entry;
//! - `correlation` writes a uuid as the text under which a response is filed;
//! - `name_generator` names the resources of a queue;
//! - `model` says what a broker does with the commands, and proves what the
//!   exchanges come to on such a broker;
//! - `service_interface` is a queue without responses, and lends events out.

pub mod broker;
pub mod correlation;
pub mod event_key;
pub mod event_queue;
pub mod model;
pub mod name_generator;
pub mod service_interface;

pub use event_queue::exchange::{Completion, Exchange, Operation, Phase, Progress};
pub use event_queue::service_event::ServiceEvent;
pub use event_queue::{
    EventQueue, EventQueueError, EventQueueResult, Timestamp, TimestampedEvent,
};
