//! What the queue makes of the log entries that the broker hands out.

use vstd::prelude::*;
use vstd::string::*;
use crate::broker::{entries_view, LogEntry, LogEntryView};
use crate::event_queue::{EventQueueError, EventQueueErrorView};

verus! {

/// The value of the first of `fields` that is named `field`.
pub open spec fn field_value(fields: Seq<(Seq<char>, Seq<char>)>, field: Seq<char>) -> Option<
    Seq<char>,
>
    decreases fields.len(),
{
    if fields.len() == 0 {
        None
    } else if fields[0].0 == field {
        Some(fields[0].1)
    } else {
        field_value(fields.drop_first(), field)
    }
}

/// The body that a read of the entry `key` brought: the value of `field` in
/// the first entry, which must be the entry `key`.
pub open spec fn fetched_body(
    entries: Seq<LogEntryView>,
    key: Seq<char>,
    field: Seq<char>,
) -> Result<Seq<char>, EventQueueErrorView> {
    if entries.len() == 0 {
        Err(EventQueueErrorView::DequeueError("unexpected empty value in stream"@))
    } else if entries[0].id != key {
        Err(EventQueueErrorView::DequeueError("expected event map, found None"@))
    } else {
        match field_value(entries[0].fields, field) {
            Some(body) => Ok(body),
            None => Err(
                EventQueueErrorView::DequeueError("expected event at key \"event\", found None"@),
            ),
        }
    }
}

/// The id behind which a tailing read starts, given what a read of the
/// newest entry brought: that entry's id, or `0-0` for an empty log.
pub open spec fn last_seen(entries: Seq<LogEntryView>) -> Result<Seq<char>, EventQueueErrorView> {
    if entries.len() == 0 {
        Ok("0-0"@)
    } else if entries.len() != 1 {
        Err(EventQueueErrorView::DequeueError("unexpected response length"@))
    } else {
        Ok(entries[0].id)
    }
}

/// What a pass over new entries of the response log leaves: the id of the
/// last entry that was passed over, and the event log id that the first
/// entry filed under the awaited uuid names, if there was one.
pub struct Scan {
    pub cursor: String,
    pub found: Option<String>,
}

pub struct ScanView {
    pub cursor: Seq<char>,
    pub found: Option<Seq<char>>,
}

impl View for Scan {
    type V = ScanView;

    open spec fn view(&self) -> ScanView {
        ScanView {
            cursor: self.cursor@,
            found: match self.found {
                Some(key) => Some(key@),
                None => None,
            },
        }
    }
}

/// The pass over `entries`, oldest first, for the uuid text `target`, with
/// `cursor` as the last id seen before them. An entry is filed under the name
/// of its first field. Every entry filed under another uuid moves the cursor
/// to its id; the first one filed under `target` ends the pass, and what
/// follows it is not looked at.
pub open spec fn scan(entries: Seq<LogEntryView>, target: Seq<char>, cursor: Seq<char>) -> Result<
    ScanView,
    EventQueueErrorView,
>
    decreases entries.len(),
{
    if entries.len() == 0 {
        Ok(ScanView { cursor, found: None })
    } else if entries[0].fields.len() == 0 {
        Err(EventQueueErrorView::DequeueError("UUID string not found in metadata {}"@))
    } else if entries[0].fields[0].0 == target {
        Ok(ScanView { cursor, found: Some(entries[0].fields[0].1) })
    } else {
        scan(entries.drop_first(), target, entries[0].id)
    }
}

/// Looks up the first field of `entry` that is named `field`.
pub fn find_field(entry: &LogEntry, field: &String) -> (value: Option<String>)
    ensures
        match value {
            Some(v) => field_value(entry@.fields, field@) == Some(v@),
            None => field_value(entry@.fields, field@) is None,
        },
{
    let ghost fields = entry@.fields;
    let mut i: usize = 0;
    assert(fields.skip(0) =~= fields);
    while i < entry.fields.len()
        invariant
            i <= entry.fields.len(),
            fields == entry@.fields,
            fields.len() == entry.fields.len(),
            field_value(fields, field@) == field_value(fields.skip(i as int), field@),
        decreases entry.fields.len() - i,
    {
        let ghost rest = fields.skip(i as int);
        proof {
            assert(rest[0] == fields[i as int]);
            assert(fields[i as int] == (entry.fields[i as int].0@, entry.fields[i as int].1@));
            assert(rest.drop_first() =~= fields.skip(i as int + 1));
        }
        if entry.fields[i].0 == *field {
            return Some(entry.fields[i].1.clone());
        }
        i = i + 1;
    }
    None
}

/// Takes the body out of what a read of the entry `key` brought.
pub fn read_body(entries: &Vec<LogEntry>, key: &String, field: &String) -> (body: Result<
    String,
    EventQueueError,
>)
    ensures
        match body {
            Ok(text) => fetched_body(entries_view(entries@), key@, field@) == Ok::<
                Seq<char>,
                EventQueueErrorView,
            >(text@),
            Err(error) => fetched_body(entries_view(entries@), key@, field@) == Err::<
                Seq<char>,
                EventQueueErrorView,
            >(error@),
        },
{
    if entries.len() == 0 {
        return Err(
            EventQueueError::DequeueError(String::from_str("unexpected empty value in stream")),
        );
    }
    let entry = &entries[0];
    assert(entries_view(entries@)[0] == entry@);
    if entry.id != *key {
        return Err(
            EventQueueError::DequeueError(String::from_str("expected event map, found None")),
        );
    }
    match find_field(entry, field) {
        Some(body) => Ok(body),
        None => Err(
            EventQueueError::DequeueError(
                String::from_str("expected event at key \"event\", found None"),
            ),
        ),
    }
}

/// Finds the id behind which a tailing read of a log starts, in what a read
/// of the log's newest entry brought.
pub fn last_entry_id(entries: &Vec<LogEntry>) -> (id: Result<String, EventQueueError>)
    ensures
        match id {
            Ok(text) => last_seen(entries_view(entries@)) == Ok::<Seq<char>, EventQueueErrorView>(
                text@,
            ),
            Err(error) => last_seen(entries_view(entries@)) == Err::<
                Seq<char>,
                EventQueueErrorView,
            >(error@),
        },
{
    if entries.len() == 0 {
        return Ok(String::from_str("0-0"));
    }
    if entries.len() != 1 {
        return Err(EventQueueError::DequeueError(String::from_str("unexpected response length")));
    }
    assert(entries_view(entries@)[0] == entries[0]@);
    Ok(entries[0].id.clone())
}

/// Passes over new entries of the response log, oldest first, in search of
/// the one filed under the uuid text `target`.
pub fn scan_entries(entries: &Vec<LogEntry>, target: &String, cursor: String) -> (found: Result<
    Scan,
    EventQueueError,
>)
    ensures
        match found {
            Ok(s) => scan(entries_view(entries@), target@, cursor@) == Ok::<
                ScanView,
                EventQueueErrorView,
            >(s@),
            Err(error) => scan(entries_view(entries@), target@, cursor@) == Err::<
                ScanView,
                EventQueueErrorView,
            >(error@),
        },
{
    let ghost all = entries_view(entries@);
    let mut seen = cursor;
    let mut i: usize = 0;
    assert(all.skip(0) =~= all);
    while i < entries.len()
        invariant
            i <= entries.len(),
            all == entries_view(entries@),
            scan(all, target@, cursor@) == scan(all.skip(i as int), target@, seen@),
        decreases entries.len() - i,
    {
        let entry = &entries[i];
        let ghost rest = all.skip(i as int);
        proof {
            assert(rest[0] == entry@);
            assert(rest.drop_first() =~= all.skip(i as int + 1));
        }
        if entry.fields.len() == 0 {
            return Err(
                EventQueueError::DequeueError(
                    String::from_str("UUID string not found in metadata {}"),
                ),
            );
        }
        assert(entry@.fields[0] == (entry.fields[0].0@, entry.fields[0].1@));
        if entry.fields[0].0 == *target {
            return Ok(Scan { cursor: seen, found: Some(entry.fields[0].1.clone()) });
        }
        seen = entry.id.clone();
        i = i + 1;
    }
    Ok(Scan { cursor: seen, found: None })
}

/// The entry is filed under another uuid than `target`.
pub open spec fn filed_elsewhere(entry: LogEntryView, target: Seq<char>) -> bool {
    entry.fields.len() > 0 && entry.fields[0].0 != target
}

/// The id of the entry before the `i`-th of `entries`, or `cursor` where
/// there is none.
pub open spec fn id_before(entries: Seq<LogEntryView>, cursor: Seq<char>, i: int) -> Seq<char> {
    if i == 0 {
        cursor
    } else {
        entries[i - 1].id
    }
}

/// The `i`-th of `entries` is the first one that is not filed under another
/// uuid than `target`.
pub open spec fn ends_pass(entries: Seq<LogEntryView>, target: Seq<char>, i: int) -> bool {
    &&& 0 <= i < entries.len()
    &&& !filed_elsewhere(entries[i], target)
    &&& forall|j: int| 0 <= j < i ==> filed_elsewhere(#[trigger] entries[j], target)
}

/// What a pass finds, said without recursion.
///
/// A pass hands out the key of the first entry filed under `target`, and
/// leaves the cursor on the entry before it. Where every entry is filed under
/// another uuid it hands out nothing, and leaves the cursor on the last one.
/// It fails only at an entry without fields that no entry filed under
/// `target` precedes.
pub proof fn lemma_scan_takes_first_match(
    entries: Seq<LogEntryView>,
    target: Seq<char>,
    cursor: Seq<char>,
)
    ensures
        match scan(entries, target, cursor) {
            Ok(pass) => match pass.found {
                Some(key) => exists|i: int|
                    {
                        &&& #[trigger] ends_pass(entries, target, i)
                        &&& entries[i].fields.len() > 0
                        &&& entries[i].fields[0] == (target, key)
                        &&& pass.cursor == id_before(entries, cursor, i)
                    },
                None => {
                    &&& forall|j: int|
                        0 <= j < entries.len() ==> filed_elsewhere(#[trigger] entries[j], target)
                    &&& pass.cursor == id_before(entries, cursor, entries.len() as int)
                },
            },
            Err(error) => {
                &&& error == EventQueueErrorView::DequeueError(
                    "UUID string not found in metadata {}"@,
                )
                &&& exists|i: int| #[trigger]
                    ends_pass(entries, target, i) && entries[i].fields.len() == 0
            },
        },
    decreases entries.len(),
{
    if entries.len() == 0 {
    } else if entries[0].fields.len() == 0 {
        assert(ends_pass(entries, target, 0));
    } else if entries[0].fields[0].0 == target {
        assert(ends_pass(entries, target, 0));
    } else {
        let rest = entries.drop_first();
        lemma_scan_takes_first_match(rest, target, entries[0].id);
        match scan(rest, target, entries[0].id) {
            Ok(pass) => match pass.found {
                Some(key) => {
                    let i = choose|i: int|
                        {
                            &&& #[trigger] ends_pass(rest, target, i)
                            &&& rest[i].fields.len() > 0
                            &&& rest[i].fields[0] == (target, key)
                            &&& pass.cursor == id_before(rest, entries[0].id, i)
                        };
                    lemma_ends_pass_shifts(entries, target, i);
                },
                None => {
                    assert forall|j: int| 0 <= j < entries.len() implies filed_elsewhere(
                        #[trigger] entries[j],
                        target,
                    ) by {
                        if j > 0 {
                            assert(entries[j] == rest[j - 1]);
                        }
                    }
                },
            },
            Err(error) => {
                let i = choose|i: int| #[trigger]
                    ends_pass(rest, target, i) && rest[i].fields.len() == 0;
                lemma_ends_pass_shifts(entries, target, i);
            },
        }
    }
}

/// Behind an entry filed under another uuid, the pass ends one place later
/// than it does without that entry.
proof fn lemma_ends_pass_shifts(entries: Seq<LogEntryView>, target: Seq<char>, i: int)
    requires
        entries.len() > 0,
        filed_elsewhere(entries[0], target),
        ends_pass(entries.drop_first(), target, i),
    ensures
        ends_pass(entries, target, i + 1),
        entries[i + 1] == entries.drop_first()[i],
{
    let rest = entries.drop_first();
    assert forall|j: int| 0 <= j < i + 1 implies filed_elsewhere(#[trigger] entries[j], target) by {
        if j > 0 {
            assert(entries[j] == rest[j - 1]);
        }
    }
}

/// A pass never hands out the key of an entry that is filed under another
/// uuid than the awaited one, wherever that entry stands among the others.
pub proof fn lemma_scan_ignores_other_uuids(
    entries: Seq<LogEntryView>,
    target: Seq<char>,
    cursor: Seq<char>,
    key: Seq<char>,
)
    requires
        scan(entries, target, cursor) matches Ok(pass) && pass.found == Some(key),
    ensures
        exists|i: int|
            0 <= i < entries.len() && (#[trigger] entries[i]).fields.len() > 0
                && entries[i].fields[0] == (target, key),
{
    lemma_scan_takes_first_match(entries, target, cursor);
    let pass = scan(entries, target, cursor)->Ok_0;
    let i = choose|i: int|
        {
            &&& #[trigger] ends_pass(entries, target, i)
            &&& entries[i].fields.len() > 0
            &&& entries[i].fields[0] == (target, key)
            &&& pass.cursor == id_before(entries, cursor, i)
        };
    assert(entries[i].fields[0] == (target, key));
}

/// An entry of the response log: under `name` it files the id `key` of an
/// entry of the event log.
pub open spec fn record(id: Seq<char>, name: Seq<char>, key: Seq<char>) -> LogEntryView {
    LogEntryView { id, fields: seq![(name, key)] }
}

/// Two entries that are filed under two names: the pass for either name
/// finds the key of its own entry, whether that entry comes first or second.
pub proof fn lemma_scan_finds_its_own_of_two(
    first: LogEntryView,
    second: LogEntryView,
    cursor: Seq<char>,
)
    requires
        first.fields.len() > 0,
        second.fields.len() > 0,
        first.fields[0].0 != second.fields[0].0,
    ensures
        scan(seq![first, second], first.fields[0].0, cursor) == Ok::<ScanView, EventQueueErrorView>(
            ScanView { cursor, found: Some(first.fields[0].1) },
        ),
        scan(seq![first, second], second.fields[0].0, cursor) == Ok::<
            ScanView,
            EventQueueErrorView,
        >(ScanView { cursor: first.id, found: Some(second.fields[0].1) }),
{
    let both = seq![first, second];
    assert(both[0] == first);
    assert(both.drop_first() =~= seq![second]);
    assert(seq![second][0] == second);
    assert(scan(seq![second], second.fields[0].0, first.id) == Ok::<ScanView, EventQueueErrorView>(
        ScanView { cursor: first.id, found: Some(second.fields[0].1) },
    ));
}

} // verus!
