//! Script identifiers (UUIDs, held as their 128-bit value) and wall-clock
//! timestamps (milliseconds since the Unix epoch).

use vstd::prelude::*;

verus! {

/// Lower-case hexadecimal digit for `d < 16`.
pub open spec fn hex_char(d: nat) -> char {
    if d < 10 {
        crate::text::digit_char(d)
    } else if d == 10 {
        'a'
    } else if d == 11 {
        'b'
    } else if d == 12 {
        'c'
    } else if d == 13 {
        'd'
    } else if d == 14 {
        'e'
    } else {
        'f'
    }
}

/// The last `count` hexadecimal digits of `n`, most significant first.
pub open spec fn hex_digits(n: nat, count: nat) -> Seq<char>
    decreases count,
{
    if count == 0 {
        Seq::empty()
    } else {
        hex_digits(n / 16, (count - 1) as nat).push(hex_char(n % 16))
    }
}

/// The hyphenated lower-case text of a UUID with 128-bit value `id`, in
/// groups of 8, 4, 4, 4 and 12 hexadecimal digits.
pub open spec fn uuid_text(id: u128) -> Seq<char> {
    let n = id as nat;
    hex_digits(n / 0x1_0000_0000_0000_0000_0000_0000, 8) + "-"@ + hex_digits(
        n / 0x1_0000_0000_0000_0000_0000,
        4,
    ) + "-"@ + hex_digits(n / 0x1_0000_0000_0000_0000, 4) + "-"@ + hex_digits(
        n / 0x1_0000_0000_0000,
        4,
    ) + "-"@ + hex_digits(n, 12)
}

/// `Uuid::new_v4()`, returned as its 128-bit value (`as_u128`). The id is
/// random, so nothing is stated of it.
#[verifier::external_body]
pub(crate) fn new_uuid() -> u128 {
    uuid::Uuid::new_v4().as_u128()
}

/// The `Display` text of `Uuid::from_u128(id)`: hyphenated lower-case
/// hexadecimal.
#[verifier::external_body]
pub(crate) fn uuid_string(id: u128) -> (s: String)
    ensures
        s@ == uuid_text(id),
{
    uuid::Uuid::from_u128(id).to_string()
}

/// `chrono::Utc::now().timestamp_millis()`: the current time. Nothing is
/// stated of the value.
#[verifier::external_body]
pub(crate) fn now_millis() -> i64 {
    chrono::Utc::now().timestamp_millis()
}

} // verus!
