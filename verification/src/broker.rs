//! What the queue asks of the broker session, and what comes back.
//!
//! The queue itself holds no session. It says which operation is due next
//! (`Command`), the caller carries it out on the broker and hands back the
//! outcome (`Reply`).

use vstd::prelude::*;
use crate::event_queue::service_event::{ServiceEvent, ServiceEventView};

verus! {

/// One entry of an append log: the id that the broker gave it, and its fields
/// as pairs of name and value, in the order in which the entry holds them.
#[derive(Clone, Debug, PartialEq, Eq)]
pub struct LogEntry {
    pub id: String,
    pub fields: Vec<(String, String)>,
}

pub struct LogEntryView {
    pub id: Seq<char>,
    pub fields: Seq<(Seq<char>, Seq<char>)>,
}

impl View for LogEntry {
    type V = LogEntryView;

    open spec fn view(&self) -> LogEntryView {
        LogEntryView { id: self.id@, fields: self.fields.deep_view() }
    }
}

/// The entries that a tailing read found in one log, oldest first.
#[derive(Clone, Debug, PartialEq, Eq)]
pub struct LogBatch {
    pub log: String,
    pub entries: Vec<LogEntry>,
}

pub struct LogBatchView {
    pub log: Seq<char>,
    pub entries: Seq<LogEntryView>,
}

/// The views of a run of entries, in their order.
pub open spec fn entries_view(entries: Seq<LogEntry>) -> Seq<LogEntryView> {
    entries.map_values(|entry: LogEntry| entry@)
}

impl View for LogBatch {
    type V = LogBatchView;

    open spec fn view(&self) -> LogBatchView {
        LogBatchView { log: self.log@, entries: entries_view(self.entries@) }
    }
}

/// The views of a run of batches, in their order.
pub open spec fn batches_view(batches: Seq<LogBatch>) -> Seq<LogBatchView> {
    batches.map_values(|batch: LogBatch| batch@)
}

/// An operation that is due on the broker session, or beside it.
#[derive(Debug, PartialEq, Eq)]
pub enum Command {
    /// Open a session to the broker.
    Connect,
    /// Turn the event into text.
    Encode { event: ServiceEvent },
    /// Append an entry with one field to a log; the broker picks its id.
    Append { log: String, field: String, value: String },
    /// Push a value onto the head of a list.
    PushLeft { list: String, value: String },
    /// Pop the tail of a list; with `wait`, block for up to that many seconds,
    /// so not at all with a wait of zero seconds.
    PopRight { list: String, wait: Option<u16> },
    /// Read at most `limit` entries of a log with ids from `first` to `last`.
    ReadRange { log: String, first: String, last: String, limit: usize },
    /// Read the newest entry of a log.
    ReadLatest { log: String },
    /// Read the entries of a log that came after the entry `after`.
    TailFrom { log: String, after: String },
    /// Read the clock.
    ReadClock,
    /// Turn text into an event.
    Decode { text: String },
}

pub enum CommandView {
    Connect,
    Encode { event: ServiceEventView },
    Append { log: Seq<char>, field: Seq<char>, value: Seq<char> },
    PushLeft { list: Seq<char>, value: Seq<char> },
    PopRight { list: Seq<char>, wait: Option<u16> },
    ReadRange { log: Seq<char>, first: Seq<char>, last: Seq<char>, limit: usize },
    ReadLatest { log: Seq<char> },
    TailFrom { log: Seq<char>, after: Seq<char> },
    ReadClock,
    Decode { text: Seq<char> },
}

impl View for Command {
    type V = CommandView;

    open spec fn view(&self) -> CommandView {
        match *self {
            Command::Connect => CommandView::Connect,
            Command::Encode { event } => CommandView::Encode { event: event@ },
            Command::Append { log, field, value } => CommandView::Append {
                log: log@,
                field: field@,
                value: value@,
            },
            Command::PushLeft { list, value } => CommandView::PushLeft {
                list: list@,
                value: value@,
            },
            Command::PopRight { list, wait } => CommandView::PopRight { list: list@, wait },
            Command::ReadRange { log, first, last, limit } => CommandView::ReadRange {
                log: log@,
                first: first@,
                last: last@,
                limit,
            },
            Command::ReadLatest { log } => CommandView::ReadLatest { log: log@ },
            Command::TailFrom { log, after } => CommandView::TailFrom { log: log@, after: after@ },
            Command::ReadClock => CommandView::ReadClock,
            Command::Decode { text } => CommandView::Decode { text: text@ },
        }
    }
}

/// The outcome of a command.
#[derive(Debug, PartialEq, Eq)]
pub enum Reply {
    /// The session is open.
    Connected,
    /// The text of the event.
    Encoded(String),
    /// The id that the broker gave the new entry.
    Appended(String),
    /// The value is on the list.
    Pushed,
    /// What a pop without waiting took from the list, if anything.
    Popped(Option<String>),
    /// What a blocking pop took within its time, if anything: the list's name
    /// and the value.
    PoppedFrom(Option<(String, String)>),
    /// The entries that a read of one log found, oldest first.
    Entries(Vec<LogEntry>),
    /// What a tailing read found, one batch for each log that had news.
    Batches(Vec<LogBatch>),
    /// The clock's reading, in nanoseconds since a fixed moment.
    Time(u128),
    /// The event that the text holds.
    Decoded(ServiceEvent),
    /// The command failed, for the reason given.
    Failed(String),
}

pub enum ReplyView {
    Connected,
    Encoded(Seq<char>),
    Appended(Seq<char>),
    Pushed,
    Popped(Option<Seq<char>>),
    PoppedFrom(Option<(Seq<char>, Seq<char>)>),
    Entries(Seq<LogEntryView>),
    Batches(Seq<LogBatchView>),
    Time(u128),
    Decoded(ServiceEventView),
    Failed(Seq<char>),
}

impl View for Reply {
    type V = ReplyView;

    open spec fn view(&self) -> ReplyView {
        match *self {
            Reply::Connected => ReplyView::Connected,
            Reply::Encoded(text) => ReplyView::Encoded(text@),
            Reply::Appended(id) => ReplyView::Appended(id@),
            Reply::Pushed => ReplyView::Pushed,
            Reply::Popped(value) => ReplyView::Popped(
                match value {
                    Some(v) => Some(v@),
                    None => None,
                },
            ),
            Reply::PoppedFrom(taken) => ReplyView::PoppedFrom(
                match taken {
                    Some(pair) => Some((pair.0@, pair.1@)),
                    None => None,
                },
            ),
            Reply::Entries(entries) => ReplyView::Entries(entries_view(entries@)),
            Reply::Batches(batches) => ReplyView::Batches(batches_view(batches@)),
            Reply::Time(now) => ReplyView::Time(now),
            Reply::Decoded(event) => ReplyView::Decoded(event@),
            Reply::Failed(reason) => ReplyView::Failed(reason@),
        }
    }
}

} // verus!
