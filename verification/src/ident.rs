//! Identifiers of jobs in the store, and points in time.
use vstd::prelude::*;

verus! {

/// A point in time: seconds since 1970-01-01 00:00:00 UTC and, on top of them,
/// nanoseconds.
#[derive(Debug, Clone, Copy, PartialEq, Eq, Structural, Hash)]
pub struct Timestamp {
    pub secs: i64,
    pub nanos: u32,
}

/// The digit for `n` below sixteen.
pub open spec fn hex_digit(n: int) -> char {
    if n < 10 {
        ((48 + n) as u32) as char
    } else {
        ((87 + n) as u32) as char
    }
}

/// The digit at position `k` of the 32 hexadecimal digits.
pub open spec fn hex_at(uuid: u128, k: int) -> char {
    hex_digit((uuid as int / vstd::arithmetic::power::pow(16, (31 - k) as nat)) % 16)
}

/// Eight, four, four, four and twelve hexadecimal digits with hyphens between them.
pub open spec fn uuid_text(uuid: u128) -> Seq<char> {
    Seq::new(
        36,
        |i: int|
            if i == 8 || i == 13 || i == 18 || i == 23 {
                '-'
            } else if i < 8 {
                hex_at(uuid, i)
            } else if i < 13 {
                hex_at(uuid, i - 1)
            } else if i < 18 {
                hex_at(uuid, i - 2)
            } else if i < 23 {
                hex_at(uuid, i - 3)
            } else {
                hex_at(uuid, i - 4)
            },
    )
}

/// `uuid::Uuid::from_u128` and its `Display`: the number in 32 lower-case hexadecimal
/// digits, most significant first, with hyphens after the 8th, 12th, 16th and 20th.
#[verifier::external_body]
pub(crate) fn uuid_string(uuid: u128) -> (r: String)
    ensures
        r@ == uuid_text(uuid),
{
    uuid::Uuid::from_u128(uuid).to_string()
}

} // verus!
