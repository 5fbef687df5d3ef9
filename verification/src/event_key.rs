//! Log entry ids and the timestamp that they carry.
//!
//! The broker names each log entry `<timestamp>-<sequence>`: two decimal
//! numbers with a hyphen between them. The first one is the time, in
//! milliseconds, at which the broker took the entry in.

use vstd::prelude::*;
use vstd::string::*;

verus! {

/// One of the ten decimal digits.
pub open spec fn is_digit(c: char) -> bool {
    '0' <= c && c <= '9'
}

/// The number that a decimal digit stands for.
pub open spec fn digit_value(c: char) -> nat {
    (c as nat - '0' as nat) as nat
}

/// The number that a run of decimal digits writes.
pub open spec fn number(digits: Seq<char>) -> nat
    decreases digits.len(),
{
    if digits.len() == 0 {
        0
    } else {
        10 * number(digits.drop_last()) + digit_value(digits.last())
    }
}

/// Nothing but decimal digits.
pub open spec fn all_digits(text: Seq<char>) -> bool {
    forall|i: int| 0 <= i < text.len() ==> is_digit(#[trigger] text[i])
}

/// A decimal number: one digit or more, and nothing else.
pub open spec fn is_number(text: Seq<char>) -> bool {
    text.len() > 0 && all_digits(text)
}

/// `key` is a log entry id whose hyphen stands at position `d`.
pub open spec fn id_splits_at(key: Seq<char>, d: int) -> bool {
    &&& 0 <= d < key.len()
    &&& key[d] == '-'
    &&& is_number(key.take(d))
    &&& is_number(key.skip(d + 1))
}

/// `key` has the form `<timestamp>-<sequence>`.
pub open spec fn is_entry_id(key: Seq<char>) -> bool {
    exists|d: int| id_splits_at(key, d)
}

/// Where the hyphen of an entry id stands.
pub open spec fn hyphen_of(key: Seq<char>) -> int {
    choose|d: int| id_splits_at(key, d)
}

/// The number before the hyphen of an entry id.
pub open spec fn id_timestamp(key: Seq<char>) -> nat {
    number(key.take(hyphen_of(key)))
}

/// The number behind the hyphen of an entry id.
pub open spec fn id_sequence(key: Seq<char>) -> nat {
    number(key.skip(hyphen_of(key) + 1))
}

/// The timestamp that `key` carries: that of an entry id whose timestamp fits
/// into 64 bits, and none for any other text.
pub open spec fn key_timestamp(key: Seq<char>) -> Option<u64> {
    if is_entry_id(key) && id_timestamp(key) <= u64::MAX {
        Some(id_timestamp(key) as u64)
    } else {
        None
    }
}

/// The order in which the broker hands out entry ids: by timestamp, and by
/// sequence number among the ids of one timestamp.
pub open spec fn id_at_most(a: Seq<char>, b: Seq<char>) -> bool {
    id_timestamp(a) < id_timestamp(b) || (id_timestamp(a) == id_timestamp(b) && id_sequence(a)
        <= id_sequence(b))
}

/// An entry id has one hyphen only, so the place at which it splits is fixed.
pub proof fn lemma_split_is_unique(key: Seq<char>, d: int)
    requires
        id_splits_at(key, d),
    ensures
        is_entry_id(key),
        hyphen_of(key) == d,
        id_timestamp(key) == number(key.take(d)),
        id_sequence(key) == number(key.skip(d + 1)),
{
    let e = hyphen_of(key);
    assert(id_splits_at(key, e));
    if e < d {
        assert(key.take(d)[e] == key[e]);
    } else if d < e {
        assert(key.take(e)[d] == key[d]);
    }
}

/// Entry ids that the broker hands out in ascending order carry timestamps
/// that never decrease.
pub proof fn lemma_timestamp_follows_id_order(earlier: Seq<char>, later: Seq<char>)
    requires
        is_entry_id(earlier),
        is_entry_id(later),
        id_at_most(earlier, later),
    ensures
        id_timestamp(earlier) <= id_timestamp(later),
{
}

/// What `scan_digits` found from `from` on: the digits end before `end`, and
/// `value` is their number where it fits into 64 bits.
pub open spec fn digit_run(text: Seq<char>, from: int, end: int, value: Option<u64>) -> bool {
    &&& from <= end <= text.len()
    &&& all_digits(text.subrange(from, end))
    &&& (end == text.len() || !is_digit(text[end]))
    &&& value == if number(text.subrange(from, end)) <= u64::MAX {
        Some(number(text.subrange(from, end)) as u64)
    } else {
        None
    }
}

/// Reads the decimal digits of `text` that start at `from`.
fn scan_digits(text: &str, from: usize) -> (run: (usize, Option<u64>))
    requires
        text.is_ascii(),
        from <= text@.len(),
    ensures
        digit_run(text@, from as int, run.0 as int, run.1),
{
    broadcast use is_ascii_spec_bytes;

    let bytes = text.as_bytes();
    let n: usize = bytes.len();
    proof {
        is_ascii_spec_bytes(text);
    }
    let mut i: usize = from;
    let mut value: Option<u64> = Some(0);
    assert(text@.subrange(from as int, from as int) =~= Seq::<char>::empty());
    while i < n && bytes[i] >= 48u8 && bytes[i] <= 57u8
        invariant
            text.is_ascii(),
            n == text@.len(),
            bytes@ == text.spec_bytes(),
            from <= i <= n,
            all_digits(text@.subrange(from as int, i as int)),
            value == if number(text@.subrange(from as int, i as int)) <= u64::MAX {
                Some(number(text@.subrange(from as int, i as int)) as u64)
            } else {
                None::<u64>
            },
        decreases n - i,
    {
        let digit: u64 = (bytes[i] - 48u8) as u64;
        let ghost before = text@.subrange(from as int, i as int);
        let ghost after = text@.subrange(from as int, i as int + 1);
        proof {
            assert(after.drop_last() =~= before);
            assert(after.last() == text@[i as int]);
            assert(digit_value(text@[i as int]) == digit);
            assert(number(after) == 10 * number(before) + digit);
            assert forall|j: int| 0 <= j < after.len() implies is_digit(#[trigger] after[j]) by {
                if j < before.len() {
                    assert(after[j] == before[j]);
                }
            }
        }
        value = match value {
            Some(v) => {
                if v <= (u64::MAX - digit) / 10 {
                    Some(10 * v + digit)
                } else {
                    None
                }
            },
            None => None,
        };
        i = i + 1;
    }
    (i, value)
}

/// The timestamp of a log entry id, for any text: `None` where `key` is no
/// entry id, or where its timestamp does not fit into 64 bits.
pub fn timestamp_of_key(key: &str) -> (timestamp: Option<u64>)
    ensures
        timestamp == key_timestamp(key@),
{
    broadcast use is_ascii_spec_bytes;

    if !key.is_ascii() {
        proof {
            if is_entry_id(key@) {
                let d = hyphen_of(key@);
                assert forall|i: int| 0 <= i < key@.len() implies '\0' <= #[trigger] key@[i]
                    <= '\u{7f}' by {
                    if i < d {
                        assert(key@.take(d)[i] == key@[i]);
                    } else if i > d {
                        assert(key@.skip(d + 1)[i - d - 1] == key@[i]);
                    }
                }
            }
        }
        return None;
    }
    let bytes = key.as_bytes();
    let n: usize = bytes.len();
    proof {
        is_ascii_spec_bytes(key);
    }
    let (d, value) = scan_digits(key, 0);
    proof {
        assert(key@.subrange(0, d as int) =~= key@.take(d as int));
        if is_entry_id(key@) {
            let e = hyphen_of(key@);
            if e < d {
                assert(key@.take(d as int)[e] == key@[e]);
            } else if d < e {
                assert(key@.take(e)[d as int] == key@[d as int]);
            }
        }
    }
    if d == 0 || d >= n || bytes[d] != 45u8 {
        return None;
    }
    let (end, _) = scan_digits(key, d + 1);
    proof {
        assert(key@.subrange(d as int + 1, n as int) =~= key@.skip(d as int + 1));
        if is_entry_id(key@) {
            let tail = key@.skip(d as int + 1);
            if end < n {
                assert(tail[end - d - 1] == key@[end as int]);
            }
        }
    }
    if end != n || end == d + 1 {
        return None;
    }
    proof {
        assert(key@.subrange(d as int + 1, end as int) =~= key@.skip(d as int + 1));
        lemma_split_is_unique(key@, d as int);
    }
    value
}

} // verus!
