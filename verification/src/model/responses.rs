//! Requests that await their responses.

use vstd::prelude::*;
use crate::broker::{CommandView, LogBatchView, LogEntryView, ReplyView};
use crate::correlation::{hyphenated, lemma_hyphenated_is_injective};
use crate::event_key::key_timestamp;
use crate::event_queue::exchange::{
    ask_tail, step_spec, within_timeout, CompletionView, ExchangeView, Operation, Phase,
    ProgressView, NANOS_PER_SECOND,
};
use crate::event_queue::reading::{
    filed_elsewhere, id_before, last_seen, lemma_scan_finds_its_own_of_two,
    lemma_scan_takes_first_match, record, scan, ScanView,
};
use crate::event_queue::service_event::ServiceEventView;
use crate::event_queue::{resources, EventQueue, EventQueueErrorView};
use crate::name_generator::lemma_generated_names_differ;
use crate::model::queueing::{
    after_dequeue, after_enqueue, after_response, lemma_dequeue_keeps_order,
    lemma_enqueue_keeps_order, lemma_enqueue_response_files,
    lemma_enqueue_response_keeps_order, lemma_enqueue_stores, taking,
};
use crate::model::{
    ascending, body_entry, is_after, lemma_after_is_transitive, lemma_ascends_with_same_logs,
    lemma_filter_leaves_members, lemma_filter_leaves_tail, lemma_read_finds_entry,
    lemma_run_in_two, lemma_run_step, run, BrokerModel, Codec,
};

verus! {

/// The id behind which an exchange that awaits a response starts to read
/// `log`: that of its newest entry, or `0-0`.
pub open spec fn cursor_of(log: Seq<LogEntryView>) -> Seq<char> {
    if log.len() == 0 {
        "0-0"@
    } else {
        log.last().id
    }
}

/// The exchange that awaits the response to `event` on `queue`.
pub open spec fn awaiting(queue: EventQueue, event: ServiceEventView) -> ProgressView {
    queue.begins(Operation::AwaitResponse, Some(event), 0, hyphenated(event.request_uuid))
}

/// The exchange that awaits the response to `event` on `queue`, once the
/// request is sent: it began at the reading `started` of the clock, and has
/// seen the response log up to the entry `cursor`.
pub open spec fn polling(
    queue: EventQueue,
    event: ServiceEventView,
    started: u128,
    cursor: Seq<char>,
) -> ExchangeView {
    ExchangeView {
        operation: Operation::AwaitResponse,
        phase: Phase::Polling,
        queue_name: queue@.queue_name,
        stream_name: queue@.stream_name,
        response_stream_name: queue@.response_stream_name,
        event: None,
        wait: 0,
        target: hyphenated(event.request_uuid),
        timeout: event.timeout,
        started,
        cursor,
        key: Seq::empty(),
    }
}

/// What `await_response` does first, on a broker that has an id left: it
/// reads the clock, notes the newest entry of the response log, and puts the
/// request on the queue as `enqueue` does. Then it turns to the response log,
/// from the noted entry on.
pub proof fn lemma_await_sends_request(
    queue: EventQueue,
    event: ServiceEventView,
    broker: BrokerModel,
    codec: Codec,
)
    requires
        broker.fresh.len() > 0,
    ensures
        run(awaiting(queue, event), broker, codec, 6) == (
            ask_tail(
                polling(
                    queue,
                    event,
                    broker.now,
                    cursor_of(broker.log(queue@.response_stream_name)),
                ),
            ),
            after_enqueue(queue, event, broker.read_clock().0, codec),
        ),
{
    lemma_enqueue_stores(queue, event, broker.read_clock().0, codec);
    let log = broker.log(queue@.response_stream_name);
    let at0 = awaiting(queue, event);
    let (b1, r1) = broker.serve(at0->Ask_1, codec);
    let at1 = step_spec(at0->Ask_0, r1);
    let (b2, r2) = b1.serve(at1->Ask_1, codec);
    let at2 = step_spec(at1->Ask_0, r2);
    let (b3, r3) = b2.serve(at2->Ask_1, codec);
    assert(r3 == b2.read_latest(queue@.response_stream_name));
    if log.len() > 0 {
        assert(seq![log.last()][0] == log.last());
    }
    assert(last_seen(r3->Entries_0) == Ok::<Seq<char>, EventQueueErrorView>(cursor_of(log)));
    let at3 = step_spec(at2->Ask_0, r3);
    assert(at3 is Ask && at3->Ask_1 == CommandView::Encode { event });
    let (b4, r4) = b3.serve(at3->Ask_1, codec);
    let at4 = step_spec(at3->Ask_0, r4);
    let (b5, r5) = b4.serve(at4->Ask_1, codec);
    let at5 = step_spec(at4->Ask_0, r5);
    let (b6, r6) = b5.serve(at5->Ask_1, codec);
    let at6 = step_spec(at5->Ask_0, r6);
    lemma_run_step(at0, broker, codec, 6);
    lemma_run_step(at1, b1, codec, 5);
    lemma_run_step(at2, b2, codec, 4);
    lemma_run_step(at3, b3, codec, 3);
    lemma_run_step(at4, b4, codec, 2);
    lemma_run_step(at5, b5, codec, 1);
    assert(at6 == ask_tail(polling(queue, event, broker.now, cursor_of(log))));
}

/// What the first commands of `await_response` leave of a broker that hands
/// out ascending ids: what `enqueue` leaves, and a clock that was read once.
pub proof fn lemma_await_keeps_order(
    queue: EventQueue,
    event: ServiceEventView,
    broker: BrokerModel,
    codec: Codec,
)
    requires
        broker.ascends(),
        broker.fresh.len() > 0,
    ensures
        ({
            let sent = run(awaiting(queue, event), broker, codec, 6);
            &&& sent.0 == ask_tail(
                polling(
                    queue,
                    event,
                    broker.now,
                    cursor_of(broker.log(queue@.response_stream_name)),
                ),
            )
            &&& sent.1.ascends()
            &&& sent.1.fresh == broker.fresh.skip(1)
            &&& sent.1.list(queue@.queue_name) == seq![broker.fresh[0]] + broker.list(
                queue@.queue_name,
            )
            &&& sent.1.log(queue@.stream_name) == broker.log(queue@.stream_name).push(
                body_entry(broker.fresh[0], "event"@, event, codec),
            )
            &&& forall|name: Seq<char>|
                name != queue@.stream_name ==> #[trigger] sent.1.log(name) == broker.log(name)
            &&& sent.1.pace == broker.pace
        }),
{
    let started = broker.read_clock().0;
    lemma_ascends_with_same_logs(broker, started);
    lemma_await_sends_request(queue, event, broker, codec);
    lemma_enqueue_keeps_order(queue, event, started, codec);
    let sent = run(awaiting(queue, event), broker, codec, 6);
    assert forall|name: Seq<char>| name != queue@.stream_name implies #[trigger] sent.1.log(name)
        == broker.log(name) by {
        assert(sent.1.log(name) == started.log(name));
    }
}

/// The cursor divides the log before its `k`-th entry: the entries before it
/// lie up to the cursor, the entries from it on lie behind the cursor.
pub open spec fn divides(log: Seq<LogEntryView>, cursor: Seq<char>, k: int) -> bool {
    &&& 0 <= k <= log.len()
    &&& forall|i: int| 0 <= i < k ==> !is_after((#[trigger] log[i]).id, cursor)
    &&& forall|i: int| k <= i < log.len() ==> is_after((#[trigger] log[i]).id, cursor)
}

/// What `await_response` does with news in the response log.
///
/// The exchange has seen the response log up to its cursor; the entries from
/// the `k`-th on are news. Where the pass over the news finds the key of the
/// first entry that is filed under the awaited uuid, the exchange hands out
/// the event whose text the entry of that key holds in the event log, under
/// the name `response`, with the timestamp of the key. Entries that are filed
/// under other uuids, before that one or behind it, change nothing in this.
pub proof fn lemma_await_takes_response(
    x: ExchangeView,
    broker: BrokerModel,
    codec: Codec,
    k: int,
    key: Seq<char>,
    m: int,
    response: ServiceEventView,
)
    requires
        x.operation == Operation::AwaitResponse,
        divides(broker.log(x.response_stream_name), x.cursor, k),
        scan(broker.log(x.response_stream_name).skip(k), x.target, x.cursor) matches Ok(pass)
            && pass.found == Some(key),
        ascending(broker.log(x.stream_name)),
        0 <= m < broker.log(x.stream_name).len(),
        broker.log(x.stream_name)[m] == body_entry(key, "response"@, response, codec),
        codec.keeps(response),
        key_timestamp(key) is Some,
    ensures
        run(ask_tail(x), broker, codec, 3) == (
            ProgressView::Done(Ok(CompletionView::Received((key_timestamp(key)->0, response)))),
            broker,
        ),
{
    let log = broker.log(x.response_stream_name);
    let news = log.skip(k);
    let keep = |entry: LogEntryView| is_after(entry.id, x.cursor);
    lemma_filter_leaves_tail(log, keep, k);
    let at0 = ask_tail(x);
    let (b1, r1) = broker.serve(at0->Ask_1, codec);
    assert(news.len() > 0);
    assert(r1 == ReplyView::Batches(
        seq![LogBatchView { log: x.response_stream_name, entries: news }],
    ));
    assert(r1->Batches_0[0] == LogBatchView { log: x.response_stream_name, entries: news });
    let at1 = step_spec(at0->Ask_0, r1);
    assert(at1 is Ask && at1->Ask_1 == CommandView::ReadRange {
        log: x.stream_name,
        first: key,
        last: key,
        limit: 1,
    });
    let (b2, r2) = b1.serve(at1->Ask_1, codec);
    lemma_read_finds_entry(b1, x.stream_name, m);
    let entry = body_entry(key, "response"@, response, codec);
    assert(r2 == ReplyView::Entries(seq![entry]));
    assert(seq![entry][0] == entry);
    assert(entry.fields[0] == ("response"@, (codec.encode)(response)));
    let at2 = step_spec(at1->Ask_0, r2);
    assert(at2 is Ask && at2->Ask_1 == CommandView::Decode { text: (codec.encode)(response) });
    let (b3, r3) = b2.serve(at2->Ask_1, codec);
    lemma_run_step(at0, broker, codec, 3);
    lemma_run_step(at1, b1, codec, 2);
    lemma_run_step(at2, b2, codec, 1);
}

/// The cursor that an exchange notes before it sends its request divides
/// the response log of later times: what was there lies up to the cursor,
/// what came since lies behind it.
pub proof fn lemma_cursor_divides(noted: Seq<LogEntryView>, grown: Seq<LogEntryView>)
    requires
        ascending(grown),
        noted.len() <= grown.len(),
        noted == grown.take(noted.len() as int),
    ensures
        divides(grown, cursor_of(noted), noted.len() as int),
{
    let k = noted.len() as int;
    if k > 0 {
        assert(noted.last() == grown[k - 1]);
        assert forall|i: int| 0 <= i < k implies !is_after(
            (#[trigger] grown[i]).id,
            cursor_of(noted),
        ) by {
            if i < k - 1 {
                assert(is_after(grown[k - 1].id, grown[i].id));
            }
        }
        assert forall|i: int| k <= i < grown.len() implies is_after(
            (#[trigger] grown[i]).id,
            cursor_of(noted),
        ) by {
            assert(is_after(grown[i].id, grown[k - 1].id));
        }
    }
}

/// A request and its response.
///
/// One service awaits the response to `request` on a queue without pending
/// entries. Once the request is sent, another service takes it off the queue
/// and files `response`, an event with the uuid of the request. The first
/// service then finds, at its next look at the response log, the response as
/// it was filed, with the timestamp of the id that the broker gave it.
pub proof fn lemma_request_meets_response(
    queue: EventQueue,
    name: Seq<char>,
    request: ServiceEventView,
    response: ServiceEventView,
    wait: Option<u16>,
    broker: BrokerModel,
    codec: Codec,
)
    requires
        queue@ == resources(name, queue@.connection_url),
        broker.ascends(),
        broker.fresh.len() > 2,
        broker.list(queue@.queue_name).len() == 0,
        codec.keeps(request),
        codec.keeps(response),
        response.request_uuid == request.request_uuid,
    ensures
        ({
            let sent = run(awaiting(queue, request), broker, codec, 6);
            let taken = run(taking(queue, wait), sent.1, codec, 4);
            let filed = run(
                queue.begins(
                    Operation::EnqueueResponse,
                    Some(response),
                    0,
                    hyphenated(response.request_uuid),
                ),
                taken.1,
                codec,
                4,
            );
            &&& taken.0 == ProgressView::Done(
                Ok(CompletionView::Received((key_timestamp(broker.fresh[0])->0, request))),
            )
            &&& filed.0 == ProgressView::Done(Ok(CompletionView::Stored))
            &&& run(sent.0, filed.1, codec, 3).0 == ProgressView::Done(
                Ok(CompletionView::Received((key_timestamp(broker.fresh[1])->0, response))),
            )
        }),
{
    let stream = queue@.stream_name;
    let answers = queue@.response_stream_name;
    let f = broker.fresh;
    lemma_generated_names_differ(name, name);
    let log = broker.log(stream);
    let filed_before = broker.log(answers);
    let k = filed_before.len() as int;
    let n = log.len() as int;
    assert(key_timestamp(f[0]) is Some && key_timestamp(f[1]) is Some);

    // the request goes out
    lemma_await_keeps_order(queue, request, broker, codec);
    let sent = run(awaiting(queue, request), broker, codec, 6);
    let x = polling(queue, request, broker.now, cursor_of(filed_before));
    assert(sent.1.list(queue@.queue_name) =~= seq![f[0]]);
    assert(sent.1.log(answers) == filed_before);

    // the other service takes it
    lemma_dequeue_keeps_order(queue, wait, sent.1, codec, n, request);
    let taken = run(taking(queue, wait), sent.1, codec, 4);
    assert(taken.1.log(stream) == sent.1.log(stream));
    assert(taken.1.log(answers) == filed_before);
    assert(taken.1.fresh[0] == f[1] && taken.1.fresh[1] == f[2]);

    // and files its response
    lemma_enqueue_response_keeps_order(queue, response, taken.1, codec);
    lemma_enqueue_response_files(queue, response, taken.1, codec);
    let filed = after_response(queue, response, taken.1, codec);
    let filing = record(f[2], hyphenated(request.request_uuid), f[1]);
    assert(filed.log(answers) == filed_before.push(filing));
    assert(ascending(filed.log(stream)));
    assert(ascending(filed.log(answers)));

    // which the first service finds
    assert(filed.log(answers).take(k) =~= filed_before);
    lemma_cursor_divides(filed_before, filed.log(answers));
    assert(filed.log(answers).skip(k) =~= seq![filing]);
    assert(seq![filing][0] == filing);
    assert(filing.fields[0] == (hyphenated(request.request_uuid), f[1]));
    assert(seq![filing].drop_first() =~= Seq::<LogEntryView>::empty());
    assert(scan(seq![filing], x.target, x.cursor) == Ok::<ScanView, EventQueueErrorView>(
        ScanView { cursor: x.cursor, found: Some(f[1]) },
    ));
    assert(filed.log(stream)[n + 1] == body_entry(f[1], "response"@, response, codec));
    lemma_await_takes_response(x, filed, codec, k, f[1], n + 1, response);
}

/// Two requests at a time.
///
/// An exchange awaits the response to the request with the uuid `own`, and
/// has seen the response log up to its `k`-th entry. Since then two responses
/// were filed: the one to that request, and one to a request with another
/// uuid, in either order. Then the exchange hands out the response to its own
/// request. So two services that await responses on one queue get each its
/// own, in whichever order the responses come.
pub proof fn lemma_request_meets_its_own_response(
    x: ExchangeView,
    own: u128,
    foreign: u128,
    own_first: bool,
    own_record: LogEntryView,
    foreign_record: LogEntryView,
    broker: BrokerModel,
    codec: Codec,
    k: int,
    m: int,
    response: ServiceEventView,
)
    requires
        own != foreign,
        x.operation == Operation::AwaitResponse,
        x.target == hyphenated(own),
        own_record == record(own_record.id, hyphenated(own), broker.log(x.stream_name)[m].id),
        foreign_record == record(
            foreign_record.id,
            hyphenated(foreign),
            foreign_record.fields[0].1,
        ),
        divides(broker.log(x.response_stream_name), x.cursor, k),
        broker.log(x.response_stream_name).skip(k) == if own_first {
            seq![own_record, foreign_record]
        } else {
            seq![foreign_record, own_record]
        },
        ascending(broker.log(x.stream_name)),
        0 <= m < broker.log(x.stream_name).len(),
        broker.log(x.stream_name)[m] == body_entry(
            broker.log(x.stream_name)[m].id,
            "response"@,
            response,
            codec,
        ),
        codec.keeps(response),
        key_timestamp(broker.log(x.stream_name)[m].id) is Some,
    ensures
        run(ask_tail(x), broker, codec, 3) == (
            ProgressView::Done(
                Ok(
                    CompletionView::Received(
                        (key_timestamp(broker.log(x.stream_name)[m].id)->0, response),
                    ),
                ),
            ),
            broker,
        ),
{
    let key = broker.log(x.stream_name)[m].id;
    if hyphenated(own) == hyphenated(foreign) {
        lemma_hyphenated_is_injective(own, foreign);
    }
    if own_first {
        lemma_scan_finds_its_own_of_two(own_record, foreign_record, x.cursor);
    } else {
        lemma_scan_finds_its_own_of_two(foreign_record, own_record, x.cursor);
    }
    lemma_await_takes_response(x, broker, codec, k, key, m, response);
}

/// Every entry of `log` that lies behind `cursor` is filed under another
/// uuid than `target`.
pub open spec fn nothing_filed_behind(
    log: Seq<LogEntryView>,
    cursor: Seq<char>,
    target: Seq<char>,
) -> bool {
    forall|i: int|
        0 <= i < log.len() && is_after((#[trigger] log[i]).id, cursor) ==> filed_elsewhere(
            log[i],
            target,
        )
}

/// The exchange ends with `TimeoutExpired` after some number of commands.
pub open spec fn times_out(progress: ProgressView, broker: BrokerModel, codec: Codec) -> bool {
    exists|steps: nat|
        (#[trigger] run(progress, broker, codec, steps)).0 == ProgressView::Done(
            Err(EventQueueErrorView::TimeoutExpired),
        )
}

/// An exchange that awaits a response, and finds no entry filed under the
/// uuid of its request behind its cursor, gives up in the end: as long as
/// each reading of the clock is later than the one before, and the clock can
/// count as far as the wait lasts, it ends with `TimeoutExpired`.
pub proof fn lemma_polling_times_out(x: ExchangeView, broker: BrokerModel, codec: Codec)
    requires
        x.operation == Operation::AwaitResponse,
        ascending(broker.log(x.response_stream_name)),
        nothing_filed_behind(broker.log(x.response_stream_name), x.cursor, x.target),
        broker.pace > 0,
        x.started <= broker.now,
        x.started + x.timeout * NANOS_PER_SECOND + broker.pace <= u128::MAX,
    ensures
        times_out(ask_tail(x), broker, codec),
    decreases
            (if broker.now < x.started + x.timeout * NANOS_PER_SECOND {
                x.started + x.timeout * NANOS_PER_SECOND - broker.now
            } else {
                0
            }) as nat,
{
    let log = broker.log(x.response_stream_name);
    let keep = |entry: LogEntryView| is_after(entry.id, x.cursor);
    let news = log.filter(keep);
    lemma_filter_leaves_members(log, keep);
    lemma_scan_takes_first_match(news, x.target, x.cursor);
    assert forall|i: int| 0 <= i < news.len() implies filed_elsewhere(
        #[trigger] news[i],
        x.target,
    ) by {
        assert(keep(news[i]) && log.contains(news[i]));
    }
    let pass = scan(news, x.target, x.cursor);
    assert(pass is Ok && pass->Ok_0.found is None);
    let cursor = id_before(news, x.cursor, news.len() as int);
    assert(pass->Ok_0.cursor == cursor);

    let at0 = ask_tail(x);
    let (b1, r1) = broker.serve(at0->Ask_1, codec);
    if news.len() > 0 {
        assert(r1->Batches_0[0] == LogBatchView { log: x.response_stream_name, entries: news });
    }
    let at1 = step_spec(at0->Ask_0, r1);
    let waiting = ExchangeView { phase: Phase::Waiting, cursor, ..x };
    assert(at1 == ProgressView::Ask(waiting, CommandView::ReadClock));
    let (b2, r2) = b1.serve(at1->Ask_1, codec);
    let at2 = step_spec(at1->Ask_0, r2);
    lemma_run_step(at0, broker, codec, 2);
    lemma_run_step(at1, b1, codec, 1);
    if within_timeout(x.started, broker.now, x.timeout) {
        assert(at2 == ask_tail(waiting));
        assert(b2.log(x.response_stream_name) == log);
        assert(nothing_filed_behind(log, cursor, x.target)) by {
            if news.len() > 0 {
                assert(keep(news[news.len() - 1]));
                assert forall|i: int|
                    0 <= i < log.len() && is_after(
                        (#[trigger] log[i]).id,
                        cursor,
                    ) implies filed_elsewhere(log[i], x.target) by {
                    lemma_after_is_transitive(log[i].id, cursor, x.cursor);
                }
            }
        }
        lemma_polling_times_out(waiting, b2, codec);
        let rest = choose|steps: nat|
            (#[trigger] run(ask_tail(waiting), b2, codec, steps)).0 == ProgressView::Done(
                Err(EventQueueErrorView::TimeoutExpired),
            );
        lemma_run_step(at0, broker, codec, rest + 2);
        lemma_run_step(at1, b1, codec, (rest + 1) as nat);
        assert(run(at0, broker, codec, rest + 2) == run(ask_tail(waiting), b2, codec, rest));
    } else {
        assert(at2 == ProgressView::Done(Err(EventQueueErrorView::TimeoutExpired)));
        assert(run(at0, broker, codec, 2).0 == at2);
    }
}

/// `await_response` gives up where nobody answers.
///
/// On a broker on which nothing happens but what the exchange itself does,
/// the exchange that awaits the response to `event` sends its request and
/// ends with `TimeoutExpired`: whatever the response log held before, also
/// under the uuid of `event`, is not taken for the response.
pub proof fn lemma_await_times_out(
    queue: EventQueue,
    name: Seq<char>,
    event: ServiceEventView,
    broker: BrokerModel,
    codec: Codec,
)
    requires
        queue@ == resources(name, queue@.connection_url),
        broker.ascends(),
        broker.fresh.len() > 0,
        broker.pace > 0,
        broker.now + event.timeout * NANOS_PER_SECOND + 2 * broker.pace <= u128::MAX,
    ensures
        times_out(awaiting(queue, event), broker, codec),
{
    let stream = queue@.stream_name;
    let answers = queue@.response_stream_name;
    lemma_generated_names_differ(name, name);
    let filed = broker.log(answers);
    let x = polling(queue, event, broker.now, cursor_of(filed));
    let started = broker.read_clock().0;
    lemma_await_sends_request(queue, event, broker, codec);
    lemma_enqueue_stores(queue, event, started, codec);
    let sent = run(awaiting(queue, event), broker, codec, 6);
    assert(sent.1.log(answers) == filed);
    assert(ascending(filed));
    assert(filed.take(filed.len() as int) =~= filed);
    lemma_cursor_divides(filed, filed);
    lemma_polling_times_out(x, sent.1, codec);
    let rest = choose|steps: nat|
        (#[trigger] run(ask_tail(x), sent.1, codec, steps)).0 == ProgressView::Done(
            Err(EventQueueErrorView::TimeoutExpired),
        );
    lemma_run_in_two(awaiting(queue, event), broker, codec, 6, rest);
    assert(run(awaiting(queue, event), broker, codec, 6 + rest).0 == ProgressView::Done(
        Err(EventQueueErrorView::TimeoutExpired),
    ));
}

/// Two requests and their responses, from beginning to end.
///
/// Two services await the responses to two requests with different uuids,
/// on one queue without pending entries. When both requests are sent, a third
/// service takes them off the queue and files a response to each, to the one
/// first and then to the other, or the other way round. Then each of the two
/// finds the response to its own request at its next look at the response
/// log.
pub proof fn lemma_two_requests_meet_their_responses(
    queue: EventQueue,
    name: Seq<char>,
    one: ServiceEventView,
    two: ServiceEventView,
    answer_one: ServiceEventView,
    answer_two: ServiceEventView,
    one_first: bool,
    wait: Option<u16>,
    broker: BrokerModel,
    codec: Codec,
)
    requires
        queue@ == resources(name, queue@.connection_url),
        broker.ascends(),
        broker.fresh.len() > 5,
        broker.list(queue@.queue_name).len() == 0,
        one.request_uuid != two.request_uuid,
        answer_one.request_uuid == one.request_uuid,
        answer_two.request_uuid == two.request_uuid,
        codec.keeps(one),
        codec.keeps(two),
        codec.keeps(answer_one),
        codec.keeps(answer_two),
    ensures
        ({
            let first = run(awaiting(queue, one), broker, codec, 6);
            let second = run(awaiting(queue, two), first.1, codec, 6);
            let taken = after_dequeue(
                queue,
                wait,
                after_dequeue(queue, wait, second.1, codec),
                codec,
            );
            let filed = if one_first {
                after_response(
                    queue,
                    answer_two,
                    after_response(queue, answer_one, taken, codec),
                    codec,
                )
            } else {
                after_response(
                    queue,
                    answer_one,
                    after_response(queue, answer_two, taken, codec),
                    codec,
                )
            };
            let key_one = if one_first {
                broker.fresh[2]
            } else {
                broker.fresh[4]
            };
            let key_two = if one_first {
                broker.fresh[4]
            } else {
                broker.fresh[2]
            };
            &&& run(first.0, filed, codec, 3).0 == ProgressView::Done(
                Ok(CompletionView::Received((key_timestamp(key_one)->0, answer_one))),
            )
            &&& run(second.0, filed, codec, 3).0 == ProgressView::Done(
                Ok(CompletionView::Received((key_timestamp(key_two)->0, answer_two))),
            )
        }),
{
    let list = queue@.queue_name;
    let stream = queue@.stream_name;
    let answers = queue@.response_stream_name;
    let f = broker.fresh;
    lemma_generated_names_differ(name, name);
    let log = broker.log(stream);
    let filed_before = broker.log(answers);
    let k = filed_before.len() as int;
    let n = log.len() as int;
    let cursor = cursor_of(filed_before);
    assert(key_timestamp(f[0]) is Some && key_timestamp(f[1]) is Some);
    assert(key_timestamp(f[2]) is Some && key_timestamp(f[4]) is Some);

    // both requests go out
    lemma_await_keeps_order(queue, one, broker, codec);
    let first = run(awaiting(queue, one), broker, codec, 6);
    let x = polling(queue, one, broker.now, cursor);
    assert(first.1.fresh[0] == f[1]);
    lemma_await_keeps_order(queue, two, first.1, codec);
    let second = run(awaiting(queue, two), first.1, codec, 6);
    assert(first.1.log(answers) == filed_before);
    let y = polling(queue, two, first.1.now, cursor);
    assert(second.1.list(list) =~= seq![f[1], f[0]]);
    assert(second.1.fresh =~= f.skip(2));
    let request_one = body_entry(f[0], "event"@, one, codec);
    let request_two = body_entry(f[1], "event"@, two, codec);
    assert(second.1.log(stream) == log.push(request_one).push(request_two));
    assert(second.1.log(answers) == filed_before);

    // the third service takes both
    lemma_dequeue_keeps_order(queue, wait, second.1, codec, n, one);
    let b3 = after_dequeue(queue, wait, second.1, codec);
    assert(b3.list(list) =~= seq![f[1]]);
    assert(b3.log(stream) == second.1.log(stream));
    lemma_dequeue_keeps_order(queue, wait, b3, codec, n + 1, two);
    let taken = after_dequeue(queue, wait, b3, codec);
    assert(taken.log(stream) == second.1.log(stream));
    assert(taken.log(answers) == filed_before);
    assert(taken.fresh[0] == f[2] && taken.fresh[1] == f[3]);

    // and answers them, in the one order or the other
    let early = if one_first {
        answer_one
    } else {
        answer_two
    };
    let late = if one_first {
        answer_two
    } else {
        answer_one
    };
    lemma_enqueue_response_keeps_order(queue, early, taken, codec);
    let b5 = after_response(queue, early, taken, codec);
    assert(b5.fresh =~= f.skip(4));
    assert(b5.fresh[0] == f[4] && b5.fresh[1] == f[5]);
    lemma_enqueue_response_keeps_order(queue, late, b5, codec);
    let filed = after_response(queue, late, b5, codec);
    let early_record = record(f[3], hyphenated(early.request_uuid), f[2]);
    let late_record = record(f[5], hyphenated(late.request_uuid), f[4]);
    let early_body = body_entry(f[2], "response"@, early, codec);
    let late_body = body_entry(f[4], "response"@, late, codec);
    assert(filed.log(answers) == filed_before.push(early_record).push(late_record));
    assert(filed.log(stream) == log.push(request_one).push(request_two).push(early_body).push(
        late_body,
    ));
    assert(ascending(filed.log(stream)));
    assert(ascending(filed.log(answers)));

    // each of the two finds its own
    assert(filed.log(answers).take(k) =~= filed_before);
    lemma_cursor_divides(filed_before, filed.log(answers));
    assert(filed.log(answers).skip(k) =~= seq![early_record, late_record]);
    assert(filed.log(answers)[k] == early_record);
    assert(filed.log(answers)[k + 1] == late_record);
    assert(filed.log(stream)[n + 2] == early_body);
    assert(filed.log(stream)[n + 3] == late_body);
    if one_first {
        lemma_request_meets_its_own_response(
            x,
            one.request_uuid,
            two.request_uuid,
            true,
            early_record,
            late_record,
            filed,
            codec,
            k,
            n + 2,
            answer_one,
        );
        lemma_request_meets_its_own_response(
            y,
            two.request_uuid,
            one.request_uuid,
            false,
            late_record,
            early_record,
            filed,
            codec,
            k,
            n + 3,
            answer_two,
        );
    } else {
        lemma_request_meets_its_own_response(
            x,
            one.request_uuid,
            two.request_uuid,
            false,
            late_record,
            early_record,
            filed,
            codec,
            k,
            n + 3,
            answer_one,
        );
        lemma_request_meets_its_own_response(
            y,
            two.request_uuid,
            one.request_uuid,
            true,
            early_record,
            late_record,
            filed,
            codec,
            k,
            n + 2,
            answer_two,
        );
    }
}

} // verus!
