//! Workorder and client identifiers as text.
use vstd::prelude::*;

use crate::blob_store::hex_digit;

verus! {

pub open spec fn pow16(n: nat) -> nat
    decreases n,
{
    if n == 0 {
        1
    } else {
        16 * pow16((n - 1) as nat)
    }
}

/// Hex digit `k` (0 to 31, most significant first) of a 128-bit value.
pub open spec fn nibble(id: u128, k: int) -> int {
    (id as int / pow16((31 - k) as nat) as int) % 16
}

/// Hyphens before position `i` of the hyphenated form.
pub open spec fn hyphens_before(i: int) -> int {
    if i > 23 {
        4
    } else if i > 18 {
        3
    } else if i > 13 {
        2
    } else if i > 8 {
        1
    } else {
        0
    }
}

/// The hyphenated form of a UUID: its 32 lower-case hex digits, most
/// significant first, with `-` after the 8th, 12th, 16th and 20th.
pub open spec fn uuid_text(id: u128) -> Seq<char> {
    Seq::new(
        36,
        |i: int|
            if i == 8 || i == 13 || i == 18 || i == 23 {
                '-'
            } else {
                hex_digit(nibble(id, i - hyphens_before(i)))
            },
    )
}

/// Formats `uuid::Uuid::from_u128(id)` with `Display`, which the crate
/// writes in the hyphenated lower-case form of the big-endian value.
#[verifier::external_body]
pub(crate) fn uuid_hyphenated(id: u128) -> (r: String)
    ensures
        r@ == uuid_text(id),
{
    uuid::Uuid::from_u128(id).to_string()
}

} // verus!
