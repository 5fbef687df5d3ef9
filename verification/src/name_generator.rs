//! Names of the broker resources that belong to one logical queue name.

use vstd::prelude::*;
use vstd::string::*;

verus! {

/// The resource name that `suffix` makes of the logical name `name`.
pub open spec fn suffixed(name: Seq<char>, suffix: Seq<char>) -> Seq<char> {
    name + suffix
}

/// The log of event bodies of the queue `name`.
pub open spec fn event_stream_name(name: Seq<char>) -> Seq<char> {
    suffixed(name, "(event_stream)"@)
}

/// The log that files the responses of the queue `name`.
pub open spec fn response_stream_name(name: Seq<char>) -> Seq<char> {
    suffixed(name, "(response_stream)"@)
}

/// The list of pending work of the queue `name`.
pub open spec fn message_queue_name(name: Seq<char>) -> Seq<char> {
    suffixed(name, "(queue)"@)
}

/// Appends `suffix` to `name`.
pub fn with_suffix(name: &str, suffix: &str) -> (result: String)
    ensures
        result@ == suffixed(name@, suffix@),
{
    String::from_str(name).concat(suffix)
}

pub fn generate_event_stream_name(name: &str) -> (result: String)
    ensures
        result@ == event_stream_name(name@),
{
    with_suffix(name, "(event_stream)")
}

pub fn generate_response_stream_name(name: &str) -> (result: String)
    ensures
        result@ == response_stream_name(name@),
{
    with_suffix(name, "(response_stream)")
}

pub fn generate_message_queue_name(name: &str) -> (result: String)
    ensures
        result@ == message_queue_name(name@),
{
    with_suffix(name, "(queue)")
}

/// One suffix gives different logical names different resource names.
pub proof fn lemma_suffixed_is_injective(a: Seq<char>, b: Seq<char>, suffix: Seq<char>)
    requires
        suffixed(a, suffix) == suffixed(b, suffix),
    ensures
        a == b,
{
    let left = suffixed(a, suffix);
    let right = suffixed(b, suffix);
    assert(left.len() == a.len() + suffix.len());
    assert(right.len() == b.len() + suffix.len());
    assert(a =~= left.take(a.len() as int));
    assert(b =~= right.take(b.len() as int));
}

/// Two suffixes that differ at the same distance from their ends never give
/// one resource name, whatever the logical names are.
pub proof fn lemma_suffixes_keep_apart(
    a: Seq<char>,
    b: Seq<char>,
    first: Seq<char>,
    second: Seq<char>,
    back: int,
)
    requires
        0 < back <= first.len(),
        back <= second.len(),
        first[first.len() - back] != second[second.len() - back],
    ensures
        suffixed(a, first) != suffixed(b, second),
{
    let left = suffixed(a, first);
    let right = suffixed(b, second);
    assert(left[left.len() - back] == first[first.len() - back]);
    assert(right[right.len() - back] == second[second.len() - back]);
}

/// The event log, the response log and the list of pending work of any
/// logical names are three different resources.
pub proof fn lemma_generated_names_differ(a: Seq<char>, b: Seq<char>)
    ensures
        event_stream_name(a) != response_stream_name(b),
        event_stream_name(a) != message_queue_name(b),
        response_stream_name(a) != message_queue_name(b),
{
    reveal_strlit("(event_stream)");
    reveal_strlit("(response_stream)");
    reveal_strlit("(queue)");
    lemma_suffixes_keep_apart(a, b, "(event_stream)"@, "(response_stream)"@, 9);
    lemma_suffixes_keep_apart(a, b, "(event_stream)"@, "(queue)"@, 2);
    lemma_suffixes_keep_apart(a, b, "(response_stream)"@, "(queue)"@, 2);
}

} // verus!
