//! The broker as the queue takes it to be, and what the exchanges come to
//! on such a broker.
//!
//! Nothing here runs. The model says in which way a broker answers the
//! commands: lists that are pushed at the head and popped at the tail, logs
//! that grow at their end and give each entry an id of the broker's choice.
//! The theorems of the two modules below say what an exchange that is carried
//! out on such a broker ends with.

pub mod queueing;
pub mod responses;

use vstd::prelude::*;
use crate::broker::{CommandView, LogBatchView, LogEntryView, ReplyView};
use crate::event_key::{
    digit_value, id_at_most, id_sequence, id_timestamp, is_digit, is_entry_id, key_timestamp,
    lemma_split_is_unique, number,
};
use crate::event_queue::exchange::{step_spec, ProgressView};
use crate::event_queue::service_event::ServiceEventView;

verus! {

/// How events are turned into text and back.
pub struct Codec {
    pub encode: spec_fn(ServiceEventView) -> Seq<char>,
    pub decode: spec_fn(Seq<char>) -> Option<ServiceEventView>,
}

impl Codec {
    /// The text of `event` holds `event`.
    pub open spec fn keeps(self, event: ServiceEventView) -> bool {
        (self.decode)((self.encode)(event)) == Some(event)
    }
}

/// A broker between two commands.
pub struct BrokerModel {
    /// The lists by name, each with its head first. A name without a list
    /// stands for the empty list.
    pub lists: Map<Seq<char>, Seq<Seq<char>>>,
    /// The logs by name, each with its oldest entry first. A name without a
    /// log stands for the empty log.
    pub logs: Map<Seq<char>, Seq<LogEntryView>>,
    /// The ids that the broker gives the next entries, in this order.
    pub fresh: Seq<Seq<char>>,
    /// What the clock reads.
    pub now: u128,
    /// By how much a reading moves the clock on.
    pub pace: u128,
}

/// The id `id` lies between `first` and `last`, both included.
pub open spec fn in_range(first: Seq<char>, id: Seq<char>, last: Seq<char>) -> bool {
    is_entry_id(id) && id_at_most(first, id) && id_at_most(id, last)
}

/// The id `id` lies behind `after`.
pub open spec fn is_after(id: Seq<char>, after: Seq<char>) -> bool {
    is_entry_id(id) && !id_at_most(id, after)
}

impl BrokerModel {
    /// The list `name`, head first.
    pub open spec fn list(self, name: Seq<char>) -> Seq<Seq<char>> {
        if self.lists.dom().contains(name) {
            self.lists[name]
        } else {
            Seq::empty()
        }
    }

    /// The log `name`, oldest entry first.
    pub open spec fn log(self, name: Seq<char>) -> Seq<LogEntryView> {
        if self.logs.dom().contains(name) {
            self.logs[name]
        } else {
            Seq::empty()
        }
    }

    /// `value` becomes the head of the list.
    pub open spec fn push_left(self, list: Seq<char>, value: Seq<char>) -> (Self, ReplyView) {
        (
            BrokerModel { lists: self.lists.insert(list, seq![value] + self.list(list)), ..self },
            ReplyView::Pushed,
        )
    }

    /// The tail of the list is taken off. A pop with a wait names the list
    /// beside the value. No other service is at work on the broker, so a pop
    /// from an empty list brings nothing, however long it waits.
    pub open spec fn pop_right(self, list: Seq<char>, wait: Option<u16>) -> (Self, ReplyView) {
        let pending = self.list(list);
        if pending.len() == 0 {
            (
                self,
                match wait {
                    Some(_) => ReplyView::PoppedFrom(None),
                    None => ReplyView::Popped(None),
                },
            )
        } else {
            (
                BrokerModel { lists: self.lists.insert(list, pending.drop_last()), ..self },
                match wait {
                    Some(_) => ReplyView::PoppedFrom(Some((list, pending.last()))),
                    None => ReplyView::Popped(Some(pending.last())),
                },
            )
        }
    }

    /// An entry with the one field becomes the newest of the log, under the
    /// next of the broker's ids. A broker without an id left takes nothing in.
    pub open spec fn append(self, log: Seq<char>, field: Seq<char>, value: Seq<char>) -> (
        Self,
        ReplyView,
    ) {
        if self.fresh.len() == 0 {
            (self, ReplyView::Failed("no id left"@))
        } else {
            let entry = LogEntryView { id: self.fresh[0], fields: seq![(field, value)] };
            (
                BrokerModel {
                    logs: self.logs.insert(log, self.log(log).push(entry)),
                    fresh: self.fresh.drop_first(),
                    ..self
                },
                ReplyView::Appended(self.fresh[0]),
            )
        }
    }

    /// The entries of the log with ids from `first` to `last`, oldest first,
    /// and no more than `limit` of them.
    pub open spec fn read_range(
        self,
        log: Seq<char>,
        first: Seq<char>,
        last: Seq<char>,
        limit: usize,
    ) -> ReplyView {
        let found = self.log(log).filter(|entry: LogEntryView| in_range(first, entry.id, last));
        if found.len() <= limit {
            ReplyView::Entries(found)
        } else {
            ReplyView::Entries(found.take(limit as int))
        }
    }

    /// The newest entry of the log, if it has one.
    pub open spec fn read_latest(self, log: Seq<char>) -> ReplyView {
        if self.log(log).len() == 0 {
            ReplyView::Entries(Seq::empty())
        } else {
            ReplyView::Entries(seq![self.log(log).last()])
        }
    }

    /// The entries of the log with ids behind `after`, oldest first, as one
    /// batch; no batch where there are none.
    pub open spec fn tail_from(self, log: Seq<char>, after: Seq<char>) -> ReplyView {
        let news = self.log(log).filter(|entry: LogEntryView| is_after(entry.id, after));
        if news.len() == 0 {
            ReplyView::Batches(Seq::empty())
        } else {
            ReplyView::Batches(seq![LogBatchView { log, entries: news }])
        }
    }

    /// The clock gives its reading, and is later by `pace` at the next one. It
    /// stops at the largest reading that there is.
    pub open spec fn read_clock(self) -> (Self, ReplyView) {
        (
            BrokerModel {
                now: if self.now + self.pace <= u128::MAX {
                    (self.now + self.pace) as u128
                } else {
                    u128::MAX
                },
                ..self
            },
            ReplyView::Time(self.now),
        )
    }

    /// What the broker, the codec and the clock answer to `command`, and
    /// the broker after it.
    pub open spec fn serve(self, command: CommandView, codec: Codec) -> (Self, ReplyView) {
        match command {
            CommandView::Connect => (self, ReplyView::Connected),
            CommandView::Encode { event } => (self, ReplyView::Encoded((codec.encode)(event))),
            CommandView::Append { log, field, value } => self.append(log, field, value),
            CommandView::PushLeft { list, value } => self.push_left(list, value),
            CommandView::PopRight { list, wait } => self.pop_right(list, wait),
            CommandView::ReadRange { log, first, last, limit } => (
                self,
                self.read_range(log, first, last, limit),
            ),
            CommandView::ReadLatest { log } => (self, self.read_latest(log)),
            CommandView::TailFrom { log, after } => (self, self.tail_from(log, after)),
            CommandView::ReadClock => self.read_clock(),
            CommandView::Decode { text } => (
                self,
                match (codec.decode)(text) {
                    Some(event) => ReplyView::Decoded(event),
                    None => ReplyView::Failed("no event in the text"@),
                },
            ),
        }
    }
}

/// Where an exchange stands, and the broker with it, after at most `steps`
/// commands were carried out.
pub open spec fn run(progress: ProgressView, broker: BrokerModel, codec: Codec, steps: nat) -> (
    ProgressView,
    BrokerModel,
)
    decreases steps,
{
    match progress {
        ProgressView::Done(_) => (progress, broker),
        ProgressView::Ask(exchange, command) => if steps == 0 {
            (progress, broker)
        } else {
            let (next, reply) = broker.serve(command, codec);
            run(step_spec(exchange, reply), next, codec, (steps - 1) as nat)
        },
    }
}

/// One command, and the rest of the run behind it.
pub proof fn lemma_run_step(progress: ProgressView, broker: BrokerModel, codec: Codec, steps: nat)
    requires
        progress is Ask,
        steps > 0,
    ensures
        run(progress, broker, codec, steps) == run(
            step_spec(progress->Ask_0, broker.serve(progress->Ask_1, codec).1),
            broker.serve(progress->Ask_1, codec).0,
            codec,
            (steps - 1) as nat,
        ),
{
}

/// The entries of `log` have entry ids behind `0-0`, each behind the ones
/// before it.
pub open spec fn ascending(log: Seq<LogEntryView>) -> bool {
    &&& forall|i: int| 0 <= i < log.len() ==> is_after((#[trigger] log[i]).id, "0-0"@)
    &&& forall|i: int, j: int|
        #![trigger log[i], log[j]]
        0 <= i < j < log.len() ==> is_after(log[j].id, log[i].id)
}

/// The entry id `id` lies behind `0-0` and behind every entry of `log`.
pub open spec fn behind(id: Seq<char>, log: Seq<LogEntryView>) -> bool {
    &&& is_after(id, "0-0"@)
    &&& forall|i: int| 0 <= i < log.len() ==> is_after(id, (#[trigger] log[i]).id)
}

/// The ids of `fresh` have timestamps of 64 bits, and each lies behind the
/// ones before it.
pub open spec fn ascending_ids(fresh: Seq<Seq<char>>) -> bool {
    &&& forall|i: int| 0 <= i < fresh.len() ==> key_timestamp(#[trigger] fresh[i]) is Some
    &&& forall|i: int, j: int|
        #![trigger fresh[i], fresh[j]]
        0 <= i < j < fresh.len() ==> is_after(fresh[j], fresh[i])
}

impl BrokerModel {
    /// The broker hands out ascending ids: those of each log ascend, and
    /// the ids to come ascend behind them.
    pub open spec fn ascends(self) -> bool {
        &&& ascending_ids(self.fresh)
        &&& forall|name: Seq<char>| ascending(#[trigger] self.log(name))
        &&& forall|name: Seq<char>|
            self.fresh.len() > 0 ==> behind(self.fresh[0], #[trigger] self.log(name))
    }
}

/// Behind is behind: the order of ids is transitive.
pub proof fn lemma_after_is_transitive(a: Seq<char>, b: Seq<char>, c: Seq<char>)
    requires
        is_after(a, b),
        is_after(b, c),
    ensures
        is_after(a, c),
{
}

/// A broker that hands out ascending ids still does so after it has taken an
/// entry in.
pub proof fn lemma_append_ascends(
    broker: BrokerModel,
    log: Seq<char>,
    field: Seq<char>,
    value: Seq<char>,
)
    requires
        broker.ascends(),
    ensures
        broker.append(log, field, value).0.ascends(),
{
    if broker.fresh.len() > 0 {
        let next = broker.append(log, field, value).0;
        let id = broker.fresh[0];
        assert(next.fresh =~= broker.fresh.skip(1));
        assert forall|i: int, j: int| 0 <= i < j < next.fresh.len() implies is_after(
            #[trigger] next.fresh[j],
            #[trigger] next.fresh[i],
        ) by {
            assert(is_after(broker.fresh[j + 1], broker.fresh[i + 1]));
        }
        assert forall|i: int| 0 <= i < next.fresh.len() implies key_timestamp(
            #[trigger] next.fresh[i],
        ) is Some by {
            assert(key_timestamp(broker.fresh[i + 1]) is Some);
        }
        assert forall|name: Seq<char>| ascending(#[trigger] next.log(name)) by {
            let before = broker.log(name);
            assert(ascending(before));
            assert(behind(id, before));
            if name == log {
                assert(next.log(name) == before.push(
                    LogEntryView { id, fields: seq![(field, value)] },
                ));
            } else {
                assert(next.log(name) == before);
            }
        }
        assert forall|name: Seq<char>| next.fresh.len() > 0 implies behind(
            next.fresh[0],
            #[trigger] next.log(name),
        ) by {
            let before = broker.log(name);
            assert(behind(id, before));
            assert(is_after(broker.fresh[1], broker.fresh[0]));
            lemma_after_is_transitive(next.fresh[0], id, "0-0"@);
            assert forall|i: int| 0 <= i < next.log(name).len() implies is_after(
                next.fresh[0],
                (#[trigger] next.log(name)[i]).id,
            ) by {
                if i < before.len() {
                    assert(next.log(name)[i] == before[i]);
                    lemma_after_is_transitive(next.fresh[0], id, before[i].id);
                }
            }
        }
    }
}

/// A filter leaves nothing of a log whose entries all fail it.
pub proof fn lemma_filter_leaves_nothing(
    log: Seq<LogEntryView>,
    keep: spec_fn(LogEntryView) -> bool,
)
    requires
        forall|i: int| 0 <= i < log.len() ==> !keep(#[trigger] log[i]),
    ensures
        log.filter(keep) == Seq::<LogEntryView>::empty(),
    decreases log.len(),
{
    reveal(Seq::filter);
    if log.len() > 0 {
        lemma_filter_leaves_nothing(log.drop_last(), keep);
    }
}

/// A filter that the entries of a log pass from the `k`-th on, and none
/// before it, leaves the log from the `k`-th entry on.
pub proof fn lemma_filter_leaves_tail(
    log: Seq<LogEntryView>,
    keep: spec_fn(LogEntryView) -> bool,
    k: int,
)
    requires
        0 <= k <= log.len(),
        forall|i: int| 0 <= i < k ==> !keep(#[trigger] log[i]),
        forall|i: int| k <= i < log.len() ==> keep(#[trigger] log[i]),
    ensures
        log.filter(keep) == log.skip(k),
    decreases log.len(),
{
    reveal(Seq::filter);
    if k == log.len() {
        lemma_filter_leaves_nothing(log, keep);
        assert(log.skip(k) =~= Seq::<LogEntryView>::empty());
    } else {
        lemma_filter_leaves_tail(log.drop_last(), keep, k);
        assert(log.drop_last().skip(k).push(log.last()) =~= log.skip(k));
    }
}

/// A filter that one entry of a log passes, and no other, leaves that entry.
pub proof fn lemma_filter_leaves_one(
    log: Seq<LogEntryView>,
    keep: spec_fn(LogEntryView) -> bool,
    k: int,
)
    requires
        0 <= k < log.len(),
        forall|i: int| 0 <= i < log.len() ==> (keep(#[trigger] log[i]) <==> i == k),
    ensures
        log.filter(keep) == seq![log[k]],
    decreases log.len(),
{
    reveal(Seq::filter);
    if k == log.len() - 1 {
        lemma_filter_leaves_nothing(log.drop_last(), keep);
        assert(log.filter(keep) =~= seq![log[k]]);
    } else {
        lemma_filter_leaves_one(log.drop_last(), keep, k);
    }
}

/// In a log with ascending ids, a read at the id of an entry finds that
/// entry and no other.
pub proof fn lemma_read_finds_entry(broker: BrokerModel, log: Seq<char>, k: int)
    requires
        ascending(broker.log(log)),
        0 <= k < broker.log(log).len(),
    ensures
        broker.read_range(log, broker.log(log)[k].id, broker.log(log)[k].id, 1)
            == ReplyView::Entries(seq![broker.log(log)[k]]),
{
    let entries = broker.log(log);
    let id = entries[k].id;
    let keep = |entry: LogEntryView| in_range(id, entry.id, id);
    assert forall|i: int| 0 <= i < entries.len() implies (keep(#[trigger] entries[i]) <==> i
        == k) by {
        assert(is_after(entries[i].id, "0-0"@));
        if i < k {
            assert(is_after(entries[k].id, entries[i].id));
        } else if k < i {
            assert(is_after(entries[i].id, entries[k].id));
        }
    }
    lemma_filter_leaves_one(entries, keep, k);
}

/// The entry that an exchange leaves in the event log for `event`: its body
/// under the name `field`.
pub open spec fn body_entry(
    id: Seq<char>,
    field: Seq<char>,
    event: ServiceEventView,
    codec: Codec,
) -> LogEntryView {
    LogEntryView { id, fields: seq![(field, (codec.encode)(event))] }
}

/// Lists and the clock have no part in the order of ids.
pub proof fn lemma_ascends_with_same_logs(before: BrokerModel, after: BrokerModel)
    requires
        before.ascends(),
        after.logs == before.logs,
        after.fresh == before.fresh,
    ensures
        after.ascends(),
{
    assert forall|name: Seq<char>| ascending(#[trigger] after.log(name)) by {
        assert(after.log(name) == before.log(name));
        assert(ascending(before.log(name)));
    }
    assert forall|name: Seq<char>| after.fresh.len() > 0 implies behind(
        after.fresh[0],
        #[trigger] after.log(name),
    ) by {
        assert(after.log(name) == before.log(name));
        assert(behind(before.fresh[0], before.log(name)));
    }
}

/// What a filter leaves of a log are entries of the log that pass it.
pub proof fn lemma_filter_leaves_members(
    log: Seq<LogEntryView>,
    keep: spec_fn(LogEntryView) -> bool,
)
    ensures
        forall|i: int|
            0 <= i < log.filter(keep).len() ==> keep(#[trigger] log.filter(keep)[i])
                && log.contains(log.filter(keep)[i]),
    decreases log.len(),
{
    reveal(Seq::filter);
    if log.len() > 0 {
        let shorter = log.drop_last();
        lemma_filter_leaves_members(shorter, keep);
        assert forall|i: int| 0 <= i < log.filter(keep).len() implies keep(
            #[trigger] log.filter(keep)[i],
        ) && log.contains(log.filter(keep)[i]) by {
            if i < shorter.filter(keep).len() {
                let j = choose|j: int|
                    0 <= j < shorter.len() && shorter[j] == shorter.filter(keep)[i];
                assert(log[j] == shorter[j]);
            } else {
                assert(log[log.len() - 1] == log.last());
            }
        }
    }
}

/// A run of `n + m` commands is a run of `n` commands and then one of `m`.
pub proof fn lemma_run_in_two(
    progress: ProgressView,
    broker: BrokerModel,
    codec: Codec,
    n: nat,
    m: nat,
)
    ensures
        run(progress, broker, codec, n + m) == run(
            run(progress, broker, codec, n).0,
            run(progress, broker, codec, n).1,
            codec,
            m,
        ),
    decreases n,
{
    match progress {
        ProgressView::Done(_) => {},
        ProgressView::Ask(exchange, command) => {
            if n > 0 {
                let (next, reply) = broker.serve(command, codec);
                lemma_run_in_two(step_spec(exchange, reply), next, codec, (n - 1) as nat, m);
                lemma_run_step(progress, broker, codec, n + m);
            }
        },
    }
}

/// There are brokers that hand out ascending ids: one with nothing in its
/// lists and logs, for one, that gives its first entries the ids `1-0`,
/// `1-1` and `2-0`.
pub proof fn lemma_empty_broker_ascends(now: u128, pace: u128)
    ensures
        (BrokerModel {
            lists: Map::empty(),
            logs: Map::empty(),
            fresh: seq!["1-0"@, "1-1"@, "2-0"@],
            now,
            pace,
        }).ascends(),
{
    let broker = BrokerModel {
        lists: Map::empty(),
        logs: Map::empty(),
        fresh: seq!["1-0"@, "1-1"@, "2-0"@],
        now,
        pace,
    };
    reveal_strlit("0-0");
    reveal_strlit("1-0");
    reveal_strlit("1-1");
    reveal_strlit("2-0");
    lemma_small_id("0-0"@, '0', '0');
    lemma_small_id("1-0"@, '1', '0');
    lemma_small_id("1-1"@, '1', '1');
    lemma_small_id("2-0"@, '2', '0');
    assert forall|name: Seq<char>| ascending(#[trigger] broker.log(name)) by {
        assert(broker.log(name).len() == 0);
    }
    assert forall|name: Seq<char>| behind(broker.fresh[0], #[trigger] broker.log(name)) by {
        assert(broker.log(name).len() == 0);
    }
}

/// The entry id of two digits with a hyphen between them.
proof fn lemma_small_id(id: Seq<char>, timestamp: char, sequence: char)
    requires
        id =~= seq![timestamp, '-', sequence],
        is_digit(timestamp),
        is_digit(sequence),
    ensures
        is_entry_id(id),
        id_timestamp(id) == digit_value(timestamp),
        id_sequence(id) == digit_value(sequence),
        key_timestamp(id) is Some,
{
    assert(id.take(1) =~= seq![timestamp]);
    assert(id.skip(2) =~= seq![sequence]);
    assert(seq![timestamp].drop_last() =~= Seq::<char>::empty());
    assert(seq![sequence].drop_last() =~= Seq::<char>::empty());
    assert(number(seq![timestamp]) == digit_value(timestamp)) by {
        reveal_with_fuel(number, 2);
    }
    assert(number(seq![sequence]) == digit_value(sequence)) by {
        reveal_with_fuel(number, 2);
    }
    lemma_split_is_unique(id, 1);
}

} // verus!
