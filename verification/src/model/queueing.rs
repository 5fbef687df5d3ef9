//! Events that go onto the queue and come off it.

use vstd::prelude::*;
use crate::broker::{CommandView, ReplyView};
use crate::correlation::hyphenated;
use crate::event_key::key_timestamp;
use crate::event_queue::exchange::{step_spec, CompletionView, Operation, ProgressView};
use crate::event_queue::service_event::ServiceEventView;
use crate::event_queue::reading::record;
use crate::event_queue::{EventQueue, EventQueueErrorView};
use crate::model::{
    ascending, body_entry, is_after, lemma_append_ascends, lemma_ascends_with_same_logs,
    lemma_read_finds_entry, lemma_run_step, run, BrokerModel, Codec,
};

verus! {

/// The exchange that takes an event off `queue`: without waiting, or with a
/// wait of so many seconds.
pub open spec fn taking(queue: EventQueue, wait: Option<u16>) -> ProgressView {
    match wait {
        Some(seconds) => queue.begins(Operation::DequeueBlocking, None, seconds, Seq::empty()),
        None => queue.begins(Operation::Dequeue, None, 0, Seq::empty()),
    }
}

/// What `enqueue` does to a broker that has an id left: the text of the
/// event goes to the end of the event log, under the name `event`, and the id
/// of that entry to the head of the list.
pub proof fn lemma_enqueue_stores(
    queue: EventQueue,
    event: ServiceEventView,
    broker: BrokerModel,
    codec: Codec,
)
    requires
        broker.fresh.len() > 0,
    ensures
        run(queue.begins(Operation::Enqueue, Some(event), 0, Seq::empty()), broker, codec, 4) == (
            ProgressView::Done(Ok(CompletionView::Stored)),
            broker.append(queue@.stream_name, "event"@, (codec.encode)(event)).0.push_left(
                queue@.queue_name,
                broker.fresh[0],
            ).0,
        ),
{
    let at0 = queue.begins(Operation::Enqueue, Some(event), 0, Seq::empty());
    let (b1, r1) = broker.serve(at0->Ask_1, codec);
    let at1 = step_spec(at0->Ask_0, r1);
    let (b2, r2) = b1.serve(at1->Ask_1, codec);
    let at2 = step_spec(at1->Ask_0, r2);
    let (b3, r3) = b2.serve(at2->Ask_1, codec);
    let at3 = step_spec(at2->Ask_0, r3);
    lemma_run_step(at0, broker, codec, 4);
    lemma_run_step(at1, b1, codec, 3);
    lemma_run_step(at2, b2, codec, 2);
    lemma_run_step(at3, b3, codec, 1);
}

/// What `enqueue_response` does to a broker that has two ids left: the text
/// of the event goes to the end of the event log, under the name `response`,
/// and the response log files the id of that entry under the hyphenated uuid
/// of the event.
pub proof fn lemma_enqueue_response_files(
    queue: EventQueue,
    event: ServiceEventView,
    broker: BrokerModel,
    codec: Codec,
)
    requires
        broker.fresh.len() > 1,
    ensures
        run(
            queue.begins(
                Operation::EnqueueResponse,
                Some(event),
                0,
                hyphenated(event.request_uuid),
            ),
            broker,
            codec,
            4,
        ) == (
            ProgressView::Done(Ok(CompletionView::Stored)),
            broker.append(queue@.stream_name, "response"@, (codec.encode)(event)).0.append(
                queue@.response_stream_name,
                hyphenated(event.request_uuid),
                broker.fresh[0],
            ).0,
        ),
{
    let at0 = queue.begins(
        Operation::EnqueueResponse,
        Some(event),
        0,
        hyphenated(event.request_uuid),
    );
    let (b1, r1) = broker.serve(at0->Ask_1, codec);
    let at1 = step_spec(at0->Ask_0, r1);
    let (b2, r2) = b1.serve(at1->Ask_1, codec);
    let at2 = step_spec(at1->Ask_0, r2);
    let (b3, r3) = b2.serve(at2->Ask_1, codec);
    let at3 = step_spec(at2->Ask_0, r3);
    lemma_run_step(at0, broker, codec, 4);
    lemma_run_step(at1, b1, codec, 3);
    lemma_run_step(at2, b2, codec, 2);
    lemma_run_step(at3, b3, codec, 1);
}

/// On a queue with no pending entries, `dequeue` and `dequeue_blocking` end
/// with `EmptyQueue`, and leave the broker as it was.
pub proof fn lemma_dequeue_finds_queue_empty(
    queue: EventQueue,
    wait: Option<u16>,
    broker: BrokerModel,
    codec: Codec,
)
    requires
        broker.list(queue@.queue_name).len() == 0,
    ensures
        run(taking(queue, wait), broker, codec, 2) == (
            ProgressView::Done(Err(EventQueueErrorView::EmptyQueue)),
            broker,
        ),
{
    let at0 = taking(queue, wait);
    let (b1, r1) = broker.serve(at0->Ask_1, codec);
    let at1 = step_spec(at0->Ask_0, r1);
    lemma_run_step(at0, broker, codec, 2);
    lemma_run_step(at1, b1, codec, 1);
}

/// On a queue with pending entries, `dequeue` and `dequeue_blocking` take
/// the id at the tail of the list, and hand out the event whose text the
/// entry of that id holds under the name `event`, with the timestamp of the
/// id. The event log stays as it is.
pub proof fn lemma_dequeue_hands_out(
    queue: EventQueue,
    wait: Option<u16>,
    broker: BrokerModel,
    codec: Codec,
    k: int,
    event: ServiceEventView,
)
    requires
        broker.list(queue@.queue_name).len() > 0,
        ascending(broker.log(queue@.stream_name)),
        0 <= k < broker.log(queue@.stream_name).len(),
        broker.log(queue@.stream_name)[k] == body_entry(
            broker.list(queue@.queue_name).last(),
            "event"@,
            event,
            codec,
        ),
        codec.keeps(event),
        key_timestamp(broker.list(queue@.queue_name).last()) is Some,
    ensures
        run(taking(queue, wait), broker, codec, 4) == (
            ProgressView::Done(
                Ok(
                    CompletionView::Received(
                        (key_timestamp(broker.list(queue@.queue_name).last())->0, event),
                    ),
                ),
            ),
            broker.pop_right(queue@.queue_name, wait).0,
        ),
{
    let id = broker.list(queue@.queue_name).last();
    let entry = body_entry(id, "event"@, event, codec);
    let at0 = taking(queue, wait);
    let (b1, r1) = broker.serve(at0->Ask_1, codec);
    let at1 = step_spec(at0->Ask_0, r1);
    let (b2, r2) = b1.serve(at1->Ask_1, codec);
    let at2 = step_spec(at1->Ask_0, r2);
    assert(at2 is Ask && at2->Ask_1 == CommandView::ReadRange {
        log: queue@.stream_name,
        first: id,
        last: id,
        limit: 1,
    });
    let (b3, r3) = b2.serve(at2->Ask_1, codec);
    assert(b2.log(queue@.stream_name) == broker.log(queue@.stream_name));
    lemma_read_finds_entry(b2, queue@.stream_name, k);
    assert(r3 == ReplyView::Entries(seq![entry]));
    assert(seq![entry][0] == entry);
    assert(entry.fields[0] == ("event"@, (codec.encode)(event)));
    let at3 = step_spec(at2->Ask_0, r3);
    assert(at3 is Ask && at3->Ask_1 == CommandView::Decode { text: (codec.encode)(event) });
    let (b4, r4) = b3.serve(at3->Ask_1, codec);
    lemma_run_step(at0, broker, codec, 4);
    lemma_run_step(at1, b1, codec, 3);
    lemma_run_step(at2, b2, codec, 2);
    lemma_run_step(at3, b3, codec, 1);
}

/// The broker after `event` was put on `queue`.
pub open spec fn after_enqueue(
    queue: EventQueue,
    event: ServiceEventView,
    broker: BrokerModel,
    codec: Codec,
) -> BrokerModel {
    run(queue.begins(Operation::Enqueue, Some(event), 0, Seq::empty()), broker, codec, 4).1
}

/// The broker after an event was taken off `queue`.
pub open spec fn after_dequeue(
    queue: EventQueue,
    wait: Option<u16>,
    broker: BrokerModel,
    codec: Codec,
) -> BrokerModel {
    run(taking(queue, wait), broker, codec, 4).1
}

/// An event that is put on a queue without pending entries comes off it as
/// it was, with the timestamp of the id that the broker gave it, and leaves
/// the queue without pending entries again.
pub proof fn lemma_enqueue_then_dequeue(
    queue: EventQueue,
    event: ServiceEventView,
    wait: Option<u16>,
    broker: BrokerModel,
    codec: Codec,
)
    requires
        broker.ascends(),
        broker.fresh.len() > 0,
        broker.list(queue@.queue_name).len() == 0,
        codec.keeps(event),
    ensures
        run(taking(queue, wait), after_enqueue(queue, event, broker, codec), codec, 4).0
            == ProgressView::Done(
            Ok(CompletionView::Received((key_timestamp(broker.fresh[0])->0, event))),
        ),
        after_dequeue(queue, wait, after_enqueue(queue, event, broker, codec), codec).list(
            queue@.queue_name,
        ).len() == 0,
{
    let id = broker.fresh[0];
    let stream = queue@.stream_name;
    lemma_enqueue_stores(queue, event, broker, codec);
    let put = after_enqueue(queue, event, broker, codec);
    assert(put.list(queue@.queue_name) =~= seq![id]);
    assert(put.log(stream) == broker.log(stream).push(body_entry(id, "event"@, event, codec)));
    lemma_append_ascends(broker, stream, "event"@, (codec.encode)(event));
    let appended = broker.append(stream, "event"@, (codec.encode)(event)).0;
    assert(ascending(appended.log(stream)));
    assert(key_timestamp(broker.fresh[0]) is Some);
    lemma_dequeue_hands_out(queue, wait, put, codec, broker.log(stream).len() as int, event);
    assert(put.pop_right(queue@.queue_name, wait).0.list(queue@.queue_name) =~= Seq::<
        Seq<char>,
    >::empty());
}

/// Two events that are put on a queue without pending entries come off it
/// in the order in which they went in, and the timestamp of the second is no
/// smaller than that of the first.
pub proof fn lemma_events_keep_their_order(
    queue: EventQueue,
    first: ServiceEventView,
    second: ServiceEventView,
    wait: Option<u16>,
    broker: BrokerModel,
    codec: Codec,
)
    requires
        broker.ascends(),
        broker.fresh.len() > 1,
        broker.list(queue@.queue_name).len() == 0,
        codec.keeps(first),
        codec.keeps(second),
    ensures
        ({
            let filled = after_enqueue(
                queue,
                second,
                after_enqueue(queue, first, broker, codec),
                codec,
            );
            let early = key_timestamp(broker.fresh[0])->0;
            let late = key_timestamp(broker.fresh[1])->0;
            &&& run(taking(queue, wait), filled, codec, 4).0 == ProgressView::Done(
                Ok(CompletionView::Received((early, first))),
            )
            &&& run(taking(queue, wait), after_dequeue(queue, wait, filled, codec), codec, 4).0
                == ProgressView::Done(Ok(CompletionView::Received((late, second))))
            &&& early <= late
        }),
{
    let list = queue@.queue_name;
    let stream = queue@.stream_name;
    let log = broker.log(stream);
    let a = body_entry(broker.fresh[0], "event"@, first, codec);
    let b = body_entry(broker.fresh[1], "event"@, second, codec);
    assert(key_timestamp(broker.fresh[0]) is Some);
    assert(key_timestamp(broker.fresh[1]) is Some);
    assert(is_after(broker.fresh[1], broker.fresh[0]));

    lemma_enqueue_stores(queue, first, broker, codec);
    let appended = broker.append(stream, "event"@, (codec.encode)(first)).0;
    lemma_append_ascends(broker, stream, "event"@, (codec.encode)(first));
    let one = after_enqueue(queue, first, broker, codec);
    lemma_ascends_with_same_logs(appended, one);
    assert(one.list(list) =~= seq![broker.fresh[0]]);
    assert(one.fresh[0] == broker.fresh[1]);

    lemma_enqueue_stores(queue, second, one, codec);
    lemma_append_ascends(one, stream, "event"@, (codec.encode)(second));
    let two = after_enqueue(queue, second, one, codec);
    assert(two.list(list) =~= seq![broker.fresh[1], broker.fresh[0]]);
    assert(two.log(stream) == log.push(a).push(b));
    assert(ascending(one.append(stream, "event"@, (codec.encode)(second)).0.log(stream)));

    lemma_dequeue_hands_out(queue, wait, two, codec, log.len() as int, first);
    let three = after_dequeue(queue, wait, two, codec);
    assert(three.list(list) =~= seq![broker.fresh[1]]);
    assert(three.log(stream) == two.log(stream));
    lemma_dequeue_hands_out(queue, wait, three, codec, log.len() as int + 1, second);
}

/// The broker after the response `event` was filed on `queue`.
pub open spec fn after_response(
    queue: EventQueue,
    event: ServiceEventView,
    broker: BrokerModel,
    codec: Codec,
) -> BrokerModel {
    run(
        queue.begins(
            Operation::EnqueueResponse,
            Some(event),
            0,
            hyphenated(event.request_uuid),
        ),
        broker,
        codec,
        4,
    ).1
}

/// What `enqueue` leaves of a broker that hands out ascending ids: one more
/// entry in the event log, one more id at the head of the list, and a broker
/// that hands out ascending ids.
pub proof fn lemma_enqueue_keeps_order(
    queue: EventQueue,
    event: ServiceEventView,
    broker: BrokerModel,
    codec: Codec,
)
    requires
        broker.ascends(),
        broker.fresh.len() > 0,
    ensures
        ({
            let next = after_enqueue(queue, event, broker, codec);
            &&& next.ascends()
            &&& next.fresh == broker.fresh.skip(1)
            &&& next.list(queue@.queue_name) == seq![broker.fresh[0]] + broker.list(
                queue@.queue_name,
            )
            &&& next.log(queue@.stream_name) == broker.log(queue@.stream_name).push(
                body_entry(broker.fresh[0], "event"@, event, codec),
            )
            &&& forall|name: Seq<char>|
                name != queue@.stream_name ==> #[trigger] next.log(name) == broker.log(name)
            &&& next.now == broker.now
            &&& next.pace == broker.pace
        }),
{
    lemma_enqueue_stores(queue, event, broker, codec);
    let appended = broker.append(queue@.stream_name, "event"@, (codec.encode)(event)).0;
    lemma_append_ascends(broker, queue@.stream_name, "event"@, (codec.encode)(event));
    let next = after_enqueue(queue, event, broker, codec);
    lemma_ascends_with_same_logs(appended, next);
    assert(next.fresh =~= broker.fresh.skip(1));
}

/// What `enqueue_response` leaves of a broker that hands out ascending ids,
/// where the event log and the response log are two logs: one more entry in
/// each, the one of the response log with the id of the other under the
/// hyphenated uuid, and a broker that hands out ascending ids.
pub proof fn lemma_enqueue_response_keeps_order(
    queue: EventQueue,
    event: ServiceEventView,
    broker: BrokerModel,
    codec: Codec,
)
    requires
        broker.ascends(),
        broker.fresh.len() > 1,
        queue@.stream_name != queue@.response_stream_name,
    ensures
        ({
            let next = after_response(queue, event, broker, codec);
            &&& next.ascends()
            &&& next.fresh == broker.fresh.skip(2)
            &&& next.lists == broker.lists
            &&& next.log(queue@.stream_name) == broker.log(queue@.stream_name).push(
                body_entry(broker.fresh[0], "response"@, event, codec),
            )
            &&& next.log(queue@.response_stream_name) == broker.log(
                queue@.response_stream_name,
            ).push(record(broker.fresh[1], hyphenated(event.request_uuid), broker.fresh[0]))
            &&& next.now == broker.now
            &&& next.pace == broker.pace
        }),
{
    let stream = queue@.stream_name;
    let answers = queue@.response_stream_name;
    lemma_enqueue_response_files(queue, event, broker, codec);
    let body = broker.append(stream, "response"@, (codec.encode)(event)).0;
    lemma_append_ascends(broker, stream, "response"@, (codec.encode)(event));
    lemma_append_ascends(body, answers, hyphenated(event.request_uuid), broker.fresh[0]);
    let next = after_response(queue, event, broker, codec);
    assert(next.fresh =~= broker.fresh.skip(2));
    assert(body.log(answers) == broker.log(answers));
}

/// What `dequeue` and `dequeue_blocking` leave of a broker, where they hand
/// an event out: the list without its tail, and all else as it was.
pub proof fn lemma_dequeue_keeps_order(
    queue: EventQueue,
    wait: Option<u16>,
    broker: BrokerModel,
    codec: Codec,
    k: int,
    event: ServiceEventView,
)
    requires
        broker.ascends(),
        broker.list(queue@.queue_name).len() > 0,
        0 <= k < broker.log(queue@.stream_name).len(),
        broker.log(queue@.stream_name)[k] == body_entry(
            broker.list(queue@.queue_name).last(),
            "event"@,
            event,
            codec,
        ),
        codec.keeps(event),
        key_timestamp(broker.list(queue@.queue_name).last()) is Some,
    ensures
        ({
            let taken = run(taking(queue, wait), broker, codec, 4);
            &&& taken.0 == ProgressView::Done(
                Ok(
                    CompletionView::Received(
                        (key_timestamp(broker.list(queue@.queue_name).last())->0, event),
                    ),
                ),
            )
            &&& taken.1.ascends()
            &&& taken.1.fresh == broker.fresh
            &&& taken.1.logs == broker.logs
            &&& taken.1.list(queue@.queue_name) == broker.list(queue@.queue_name).drop_last()
            &&& taken.1.now == broker.now
            &&& taken.1.pace == broker.pace
        }),
{
    assert(ascending(broker.log(queue@.stream_name)));
    lemma_dequeue_hands_out(queue, wait, broker, codec, k, event);
    let taken = run(taking(queue, wait), broker, codec, 4);
    lemma_ascends_with_same_logs(broker, taken.1);
}

} // verus!
