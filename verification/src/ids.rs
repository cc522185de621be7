//! Textual form of 128-bit identifiers.
use vstd::prelude::*;
use vstd::arithmetic::power2::pow2;
use crate::signals::fingerprint::hex_digit_lower;

verus! {

/// The `k`-th hexadecimal digit (`0 <= k < 32`, most significant first) of a
/// 128-bit value, in lower case.
pub open spec fn uuid_hex_digit(id: u128, k: int) -> char {
    hex_digit_lower(((id as int) / (pow2((4 * (31 - k)) as nat) as int)) % 16)
}

/// Which of the 32 digits character `i` of the hyphenated text shows.
pub open spec fn uuid_digit_index(i: int) -> int {
    if i < 8 { i } else if i < 13 { i - 1 } else if i < 18 { i - 2 } else if i < 23 { i - 3 } else { i - 4 }
}

/// The hyphenated lower-case text of the UUID with the given 128-bit value:
/// its 32 hexadecimal digits, most significant first, grouped `8-4-4-4-12`.
pub open spec fn uuid_hyphenated(id: u128) -> Seq<char> {
    Seq::new(36, |i: int|
        if i == 8 || i == 13 || i == 18 || i == 23 { '-' } else { uuid_hex_digit(id, uuid_digit_index(i)) })
}

/// `uuid::Uuid::from_u128(id).to_string()`: the value's big-endian bytes
/// written as lower-case hexadecimal digits, high nibble first, with hyphens
/// after the 8th, 12th, 16th and 20th digit.
#[verifier::external_body]
pub(crate) fn uuid_string(id: u128) -> (r: String)
    ensures
        r@ == uuid_hyphenated(id),
        r@.len() == 36,
{
    uuid::Uuid::from_u128(id).to_string()
}

} // verus!
