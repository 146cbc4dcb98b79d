//! Identifiers of backtests and simulated brokers: 128-bit values, drawn at
//! random and shown in the hyphenated form, through the uuid crate.

use vstd::arithmetic::power::pow;
use vstd::prelude::*;

use crate::decimal::digit_char;

verus! {

/// The lower-case hexadecimal digit of `d`.
pub open spec fn hex_char(d: nat) -> char {
    if d < 10 {
        digit_char(d)
    } else if d == 10 {
        'a'
    } else if d == 11 {
        'b'
    } else if d == 12 {
        'c'
    } else if d == 13 {
        'd'
    } else if d == 14 {
        'e'
    } else {
        'f'
    }
}

/// The 32 hexadecimal digits of an identifier, most significant first.
pub open spec fn hex_digits(id: u128) -> Seq<char> {
    Seq::new(32, |i: int| hex_char(((id as int) / pow(16, (31 - i) as nat)) as nat % 16))
}

/// The hyphenated text of an identifier: its 32 digits with a hyphen after the
/// 8th, 12th, 16th and 20th (`xxxxxxxx-xxxx-xxxx-xxxx-xxxxxxxxxxxx`).
pub open spec fn hyphenated_text(id: u128) -> Seq<char> {
    let h = hex_digits(id);
    h.subrange(0, 8) + seq!['-'] + h.subrange(8, 12) + seq!['-'] + h.subrange(12, 16) + seq!['-'] + h.subrange(16, 20)
        + seq!['-'] + h.subrange(20, 32)
}

/// Relies on `uuid::Uuid::new_v4` and `Uuid::as_u128`: a fresh random identifier.
/// Nothing is known of its value.
#[verifier::external_body]
pub(crate) fn fresh_id() -> (r: u128) {
    uuid::Uuid::new_v4().as_u128()
}

/// Relies on `uuid::Uuid::from_u128`, which keeps the value's bytes most
/// significant first, and the `Display` of `Uuid::hyphenated`, which writes each
/// byte as two lower-case hexadecimal digits, in groups of 8, 4, 4, 4 and 12.
#[verifier::external_body]
pub(crate) fn id_text(id: u128) -> (r: String)
    ensures
        r@ == hyphenated_text(id),
        r@.len() == 36,
{
    uuid::Uuid::from_u128(id).hyphenated().to_string()
}

} // verus!
