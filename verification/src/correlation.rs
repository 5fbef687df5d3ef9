//! Correlation identifiers: 128-bit values, and the text under which the
//! response log files a reply.

use vstd::prelude::*;

verus! {

/// The sixteen lower-case hexadecimal digits, in order.
pub open spec fn hex_digits() -> Seq<char> {
    seq!['0', '1', '2', '3', '4', '5', '6', '7', '8', '9', 'a', 'b', 'c', 'd', 'e', 'f']
}

/// The `k`-th hexadecimal digit of `id`, counted from the most significant
/// (`k == 0`) to the least significant (`k == 31`).
pub open spec fn nibble(id: u128, k: int) -> u128
    recommends
        0 <= k < 32,
{
    (id >> ((4 * (31 - k)) as u128)) & 0xf
}

/// Which hexadecimal digit stands at position `p` of the hyphenated text.
pub open spec fn digit_index(p: int) -> int {
    if p < 8 {
        p
    } else if p < 13 {
        p - 1
    } else if p < 18 {
        p - 2
    } else if p < 23 {
        p - 3
    } else {
        p - 4
    }
}

/// Whether position `p` of the hyphenated text holds a hyphen.
pub open spec fn is_hyphen_position(p: int) -> bool {
    p == 8 || p == 13 || p == 18 || p == 23
}

/// The hyphenated lower-case text of a correlation id: 32 hexadecimal digits,
/// most significant first, in groups of 8, 4, 4, 4 and 12.
pub open spec fn hyphenated(id: u128) -> Seq<char> {
    Seq::new(
        36,
        |p: int|
            if is_hyphen_position(p) {
                '-'
            } else {
                hex_digits()[nibble(id, digit_index(p)) as int]
            },
    )
}

/// The bits that every randomly drawn correlation id has: version 4, and the
/// variant of RFC 9562.
pub open spec fn is_random_id(id: u128) -> bool {
    id & 0x0000_0000_0000_f000_c000_0000_0000_0000 == 0x0000_0000_0000_4000_8000_0000_0000_0000
}

/// Draws a correlation id with `uuid::Uuid::new_v4` and hands it out as a
/// number (`Uuid::as_u128`). Which id comes is left open; only the version
/// and variant bits that `new_v4` sets in every id are claimed. `new_v4` takes
/// its bits from the operating system, and panics where it gives none.
#[verifier::external_body]
pub(crate) fn fresh_id() -> (id: u128)
    ensures
        is_random_id(id),
{
    uuid::Uuid::new_v4().as_u128()
}

/// Formats `id` with `uuid::Uuid::from_u128` and the `Display` of `Uuid`,
/// which writes the hyphenated lower-case form: the bytes of `id`, most
/// significant first, as two hexadecimal digits each, with hyphens behind the
/// fourth, the sixth, the eighth and the tenth byte.
#[verifier::external_body]
pub(crate) fn id_text(id: u128) -> (text: String)
    ensures
        text@ == hyphenated(id),
{
    uuid::Uuid::from_u128(id).to_string()
}

/// Every hexadecimal digit of an id is below sixteen.
pub proof fn lemma_nibble_is_small(id: u128, k: int)
    requires
        0 <= k < 32,
    ensures
        nibble(id, k) < 16,
{
    let shift = (4 * (31 - k)) as u128;
    assert((id >> shift) & 0xf < 16) by (bit_vector);
}

/// The digit that stands at a position of the hyphenated text says which
/// hexadecimal digit of the id it writes.
proof fn lemma_digits_agree(a: u128, b: u128, k: int)
    requires
        0 <= k < 32,
        hyphenated(a) == hyphenated(b),
    ensures
        nibble(a, k) == nibble(b, k),
{
    let p = if k < 8 {
        k
    } else if k < 12 {
        k + 1
    } else if k < 16 {
        k + 2
    } else if k < 20 {
        k + 3
    } else {
        k + 4
    };
    assert(digit_index(p) == k && !is_hyphen_position(p));
    lemma_nibble_is_small(a, k);
    lemma_nibble_is_small(b, k);
    assert(hyphenated(a)[p] == hex_digits()[nibble(a, k) as int]);
    assert(hyphenated(b)[p] == hex_digits()[nibble(b, k) as int]);
}

/// Two ids with the same hyphenated text are the same id: under the text of
/// one uuid the response log files the responses to that uuid only.
pub proof fn lemma_hyphenated_is_injective(a: u128, b: u128)
    requires
        hyphenated(a) == hyphenated(b),
    ensures
        a == b,
{
    assert forall|k: int| 0 <= k < 32 implies nibble(a, k) == nibble(b, k) by {
        lemma_digits_agree(a, b, k);
    }
    assert(nibble(a, 0) == (a >> 124u128) & 0xf && nibble(b, 0) == (b >> 124u128) & 0xf);
    assert(nibble(a, 1) == (a >> 120u128) & 0xf && nibble(b, 1) == (b >> 120u128) & 0xf);
    assert(nibble(a, 2) == (a >> 116u128) & 0xf && nibble(b, 2) == (b >> 116u128) & 0xf);
    assert(nibble(a, 3) == (a >> 112u128) & 0xf && nibble(b, 3) == (b >> 112u128) & 0xf);
    assert(nibble(a, 4) == (a >> 108u128) & 0xf && nibble(b, 4) == (b >> 108u128) & 0xf);
    assert(nibble(a, 5) == (a >> 104u128) & 0xf && nibble(b, 5) == (b >> 104u128) & 0xf);
    assert(nibble(a, 6) == (a >> 100u128) & 0xf && nibble(b, 6) == (b >> 100u128) & 0xf);
    assert(nibble(a, 7) == (a >> 96u128) & 0xf && nibble(b, 7) == (b >> 96u128) & 0xf);
    assert(nibble(a, 8) == (a >> 92u128) & 0xf && nibble(b, 8) == (b >> 92u128) & 0xf);
    assert(nibble(a, 9) == (a >> 88u128) & 0xf && nibble(b, 9) == (b >> 88u128) & 0xf);
    assert(nibble(a, 10) == (a >> 84u128) & 0xf && nibble(b, 10) == (b >> 84u128) & 0xf);
    assert(nibble(a, 11) == (a >> 80u128) & 0xf && nibble(b, 11) == (b >> 80u128) & 0xf);
    assert(nibble(a, 12) == (a >> 76u128) & 0xf && nibble(b, 12) == (b >> 76u128) & 0xf);
    assert(nibble(a, 13) == (a >> 72u128) & 0xf && nibble(b, 13) == (b >> 72u128) & 0xf);
    assert(nibble(a, 14) == (a >> 68u128) & 0xf && nibble(b, 14) == (b >> 68u128) & 0xf);
    assert(nibble(a, 15) == (a >> 64u128) & 0xf && nibble(b, 15) == (b >> 64u128) & 0xf);
    assert(nibble(a, 16) == (a >> 60u128) & 0xf && nibble(b, 16) == (b >> 60u128) & 0xf);
    assert(nibble(a, 17) == (a >> 56u128) & 0xf && nibble(b, 17) == (b >> 56u128) & 0xf);
    assert(nibble(a, 18) == (a >> 52u128) & 0xf && nibble(b, 18) == (b >> 52u128) & 0xf);
    assert(nibble(a, 19) == (a >> 48u128) & 0xf && nibble(b, 19) == (b >> 48u128) & 0xf);
    assert(nibble(a, 20) == (a >> 44u128) & 0xf && nibble(b, 20) == (b >> 44u128) & 0xf);
    assert(nibble(a, 21) == (a >> 40u128) & 0xf && nibble(b, 21) == (b >> 40u128) & 0xf);
    assert(nibble(a, 22) == (a >> 36u128) & 0xf && nibble(b, 22) == (b >> 36u128) & 0xf);
    assert(nibble(a, 23) == (a >> 32u128) & 0xf && nibble(b, 23) == (b >> 32u128) & 0xf);
    assert(nibble(a, 24) == (a >> 28u128) & 0xf && nibble(b, 24) == (b >> 28u128) & 0xf);
    assert(nibble(a, 25) == (a >> 24u128) & 0xf && nibble(b, 25) == (b >> 24u128) & 0xf);
    assert(nibble(a, 26) == (a >> 20u128) & 0xf && nibble(b, 26) == (b >> 20u128) & 0xf);
    assert(nibble(a, 27) == (a >> 16u128) & 0xf && nibble(b, 27) == (b >> 16u128) & 0xf);
    assert(nibble(a, 28) == (a >> 12u128) & 0xf && nibble(b, 28) == (b >> 12u128) & 0xf);
    assert(nibble(a, 29) == (a >> 8u128) & 0xf && nibble(b, 29) == (b >> 8u128) & 0xf);
    assert(nibble(a, 30) == (a >> 4u128) & 0xf && nibble(b, 30) == (b >> 4u128) & 0xf);
    assert(nibble(a, 31) == (a >> 0u128) & 0xf && nibble(b, 31) == (b >> 0u128) & 0xf);
    assert(a == b) by (bit_vector)
        requires
            (a >> 124u128) & 0xf == (b >> 124u128) & 0xf,
            (a >> 120u128) & 0xf == (b >> 120u128) & 0xf,
            (a >> 116u128) & 0xf == (b >> 116u128) & 0xf,
            (a >> 112u128) & 0xf == (b >> 112u128) & 0xf,
            (a >> 108u128) & 0xf == (b >> 108u128) & 0xf,
            (a >> 104u128) & 0xf == (b >> 104u128) & 0xf,
            (a >> 100u128) & 0xf == (b >> 100u128) & 0xf,
            (a >> 96u128) & 0xf == (b >> 96u128) & 0xf,
            (a >> 92u128) & 0xf == (b >> 92u128) & 0xf,
            (a >> 88u128) & 0xf == (b >> 88u128) & 0xf,
            (a >> 84u128) & 0xf == (b >> 84u128) & 0xf,
            (a >> 80u128) & 0xf == (b >> 80u128) & 0xf,
            (a >> 76u128) & 0xf == (b >> 76u128) & 0xf,
            (a >> 72u128) & 0xf == (b >> 72u128) & 0xf,
            (a >> 68u128) & 0xf == (b >> 68u128) & 0xf,
            (a >> 64u128) & 0xf == (b >> 64u128) & 0xf,
            (a >> 60u128) & 0xf == (b >> 60u128) & 0xf,
            (a >> 56u128) & 0xf == (b >> 56u128) & 0xf,
            (a >> 52u128) & 0xf == (b >> 52u128) & 0xf,
            (a >> 48u128) & 0xf == (b >> 48u128) & 0xf,
            (a >> 44u128) & 0xf == (b >> 44u128) & 0xf,
            (a >> 40u128) & 0xf == (b >> 40u128) & 0xf,
            (a >> 36u128) & 0xf == (b >> 36u128) & 0xf,
            (a >> 32u128) & 0xf == (b >> 32u128) & 0xf,
            (a >> 28u128) & 0xf == (b >> 28u128) & 0xf,
            (a >> 24u128) & 0xf == (b >> 24u128) & 0xf,
            (a >> 20u128) & 0xf == (b >> 20u128) & 0xf,
            (a >> 16u128) & 0xf == (b >> 16u128) & 0xf,
            (a >> 12u128) & 0xf == (b >> 12u128) & 0xf,
            (a >> 8u128) & 0xf == (b >> 8u128) & 0xf,
            (a >> 4u128) & 0xf == (b >> 4u128) & 0xf,
            (a >> 0u128) & 0xf == (b >> 0u128) & 0xf,
    ;
}

} // verus!
